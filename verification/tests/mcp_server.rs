use kronforce::db::models::ApiKeyRole;
use kronforce::json::{to_json_string, JsonValue};
use kronforce::mcp_server::{
    accepts, not_acceptable_message, required_str, str_arg, tool_result,
    error_body, job_ref, route_mcp, sse_body, tool_call_response, tool_definitions, tool_kind,
    tool_limit, JobRef, McpAction, MinRole, ToolKind,
};

const ACCEPT: &str = "application/json, text/event-stream";

fn obj(pairs: Vec<(&str, JsonValue)>) -> JsonValue {
    JsonValue::Object(pairs.into_iter().map(|(k, v)| (k.to_string(), v)).collect())
}

fn id(n: &str) -> Option<JsonValue> {
    Some(JsonValue::Number(n.to_string()))
}

fn respond_text(a: McpAction) -> String {
    match a {
        McpAction::Respond(r) => to_json_string(&r.to_json()),
        _ => panic!("expected a response"),
    }
}

#[test]
fn ten_tools_with_roles() {
    let t = tool_definitions();
    let names: Vec<&str> = t.iter().map(|x| x.name.as_str()).collect();
    assert_eq!(
        names,
        vec![
            "list_jobs", "get_job", "create_job", "trigger_job", "list_executions",
            "get_execution", "list_agents", "list_groups", "list_events", "get_system_stats"
        ]
    );
    assert!(t[2].min_role == MinRole::Operator && t[3].min_role == MinRole::Operator);
    assert!(MinRole::Operator.allowed_for(&ApiKeyRole::Admin));
    assert!(!MinRole::Operator.allowed_for(&ApiKeyRole::Viewer));
    assert!(MinRole::Viewer.allowed_for(&ApiKeyRole::Agent));
    assert_eq!(
        to_json_string(&t[5].input_schema),
        r#"{"properties":{"id":{"description":"Execution UUID","type":"string"}},"required":["id"],"type":"object"}"#
    );
}

#[test]
fn accept_header_and_notifications() {
    let tools = tool_definitions();
    assert!(matches!(
        route_mcp("application/json", ApiKeyRole::Admin, id("1"), Some("ping".to_string()), None, &tools),
        McpAction::NotAcceptable
    ));
    assert!(matches!(
        route_mcp(ACCEPT, ApiKeyRole::Admin, None, Some("notifications/initialized".to_string()), None, &tools),
        McpAction::Accepted
    ));
}

#[test]
fn initialize_ping_and_unknown_method() {
    let tools = tool_definitions();
    assert_eq!(
        respond_text(route_mcp(ACCEPT, ApiKeyRole::Admin, id("1"), Some("initialize".to_string()), None, &tools)),
        r#"{"jsonrpc":"2.0","id":1,"result":{"capabilities":{"tools":{"listChanged":false}},"protocolVersion":"2024-11-05","serverInfo":{"name":"kronforce","version":"0.1.0"}}}"#
    );
    assert_eq!(
        respond_text(route_mcp(ACCEPT, ApiKeyRole::Admin, id("2"), Some("ping".to_string()), None, &tools)),
        r#"{"jsonrpc":"2.0","id":2,"result":{}}"#
    );
    assert_eq!(
        respond_text(route_mcp(ACCEPT, ApiKeyRole::Admin, id("3"), Some("nope".to_string()), None, &tools)),
        r#"{"jsonrpc":"2.0","id":3,"error":{"code":-32601,"message":"Method not found: nope"}}"#
    );
}

#[test]
fn tools_list_is_filtered_by_role() {
    let tools = tool_definitions();
    let viewer = respond_text(route_mcp(ACCEPT, ApiKeyRole::Viewer, id("1"), Some("tools/list".to_string()), None, &tools));
    assert!(!viewer.contains("\"create_job\""));
    assert!(viewer.contains("\"list_jobs\""));
    let admin = respond_text(route_mcp(ACCEPT, ApiKeyRole::Admin, id("1"), Some("tools/list".to_string()), None, &tools));
    assert!(admin.contains("\"create_job\""));
}

#[test]
fn tool_calls_are_checked() {
    let tools = tool_definitions();
    let p = obj(vec![("name", JsonValue::String("create_job".to_string()))]);
    assert_eq!(
        respond_text(route_mcp(ACCEPT, ApiKeyRole::Viewer, id("4"), Some("tools/call".to_string()), Some(p), &tools)),
        r#"{"jsonrpc":"2.0","id":4,"result":{"content":[{"text":"Insufficient permissions for this tool","type":"text"}],"isError":true}}"#
    );
    let p = obj(vec![("name", JsonValue::String("bogus".to_string()))]);
    assert_eq!(
        respond_text(route_mcp(ACCEPT, ApiKeyRole::Admin, id("5"), Some("tools/call".to_string()), Some(p), &tools)),
        r#"{"jsonrpc":"2.0","id":5,"result":{"content":[{"text":"Unknown tool: bogus","type":"text"}],"isError":true}}"#
    );
    let p = obj(vec![
        ("arguments", obj(vec![("limit", JsonValue::Number("5".to_string()))])),
        ("name", JsonValue::String("list_jobs".to_string())),
    ]);
    match route_mcp(ACCEPT, ApiKeyRole::Viewer, id("6"), Some("tools/call".to_string()), Some(p), &tools) {
        McpAction::CallTool(_, name, args) => {
            assert_eq!(name, "list_jobs");
            assert_eq!(tool_limit(&args), 5);
        }
        _ => panic!("expected a tool call"),
    }
}

#[test]
fn tool_results_and_bodies() {
    let r = tool_call_response(JsonValue::Number("7".to_string()), Ok("done".to_string()));
    assert_eq!(
        to_json_string(&r.to_json()),
        r#"{"jsonrpc":"2.0","id":7,"result":{"content":[{"text":"done","type":"text"}],"isError":false}}"#
    );
    assert_eq!(sse_body("{}"), "event: message\ndata: {}\n\n");
    assert_eq!(
        to_json_string(&error_body("bad")),
        r#"{"error":{"code":-32600,"message":"bad"},"id":"server-error","jsonrpc":"2.0"}"#
    );
}

#[test]
fn tool_arguments() {
    assert!(tool_kind("get_job").unwrap() == ToolKind::GetJob);
    assert_eq!(tool_kind("x").unwrap_err(), "Unknown tool: x");
    assert_eq!(tool_limit(&obj(vec![])), 20);
    assert_eq!(tool_limit(&obj(vec![("limit", JsonValue::Number("-3".to_string()))])), 20);
    assert_eq!(tool_limit(&obj(vec![("limit", JsonValue::Number("4294967297".to_string()))])), 1);
    match job_ref(&obj(vec![("id", JsonValue::String("67e55044-10b1-426f-9247-bb680e5fe0c8".to_string()))])).unwrap() {
        JobRef::Id(u) => assert_eq!(u, 0x67e5504410b1426f9247bb680e5fe0c8),
        _ => panic!("expected an id"),
    }
    assert!(job_ref(&obj(vec![("id", JsonValue::String("nope".to_string()))])).unwrap_err().starts_with("invalid UUID: "));
    match job_ref(&obj(vec![("name", JsonValue::String("backup".to_string()))])).unwrap() {
        JobRef::Name(n) => assert_eq!(n, "backup"),
        _ => panic!("expected a name"),
    }
    assert_eq!(job_ref(&obj(vec![])).unwrap_err(), "provide 'name' or 'id' argument");
}

#[test]
fn accept_header_and_string_arguments() {
    assert!(accepts("text/event-stream, application/json"));
    assert!(!accepts("application/json"));
    assert_eq!(
        not_acceptable_message(),
        "Not Acceptable: Client must accept both application/json and text/event-stream"
    );
    let args = obj(vec![("name", JsonValue::String("nightly".to_string())), ("n", JsonValue::Number("1".to_string()))]);
    assert_eq!(str_arg(&args, "name"), Some("nightly".to_string()));
    assert_eq!(str_arg(&args, "n"), None);
    assert_eq!(required_str(&args, "name", "name is required"), Ok("nightly".to_string()));
    assert_eq!(required_str(&args, "cmd", "cmd is required"), Err("cmd is required".to_string()));
    assert_eq!(
        to_json_string(&tool_result("done", false)),
        r#"{"content":[{"text":"done","type":"text"}],"isError":false}"#
    );
}
