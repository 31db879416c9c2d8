use kronforce::db::models::ExecutionStatus;
use kronforce::executor::tasks::outcomes::text_lines;
use kronforce::executor::tasks::mcp::{
    json_line_candidates, sse_candidates, handshake_check, handshake_failed, mcp_cancelled, mcp_timed_out, tool_call_failed,
    make_initialize_request, make_initialized_notification, make_tool_call_request,
    make_tools_list_request, map_response, tools_from_response, McpError, McpResponse,
};
use kronforce::json::{to_json_string, JsonValue};

fn obj(pairs: Vec<(&str, JsonValue)>) -> JsonValue {
    JsonValue::Object(pairs.into_iter().map(|(k, v)| (k.to_string(), v)).collect())
}

fn s(x: &str) -> JsonValue {
    JsonValue::String(x.to_string())
}

#[test]
fn requests_as_json() {
    assert_eq!(
        to_json_string(&make_initialize_request()),
        r#"{"jsonrpc":"2.0","id":1,"method":"initialize","params":{"capabilities":{},"clientInfo":{"name":"kronforce","version":"0.1.0"},"protocolVersion":"2024-11-05"}}"#
    );
    assert_eq!(
        to_json_string(&make_initialized_notification()),
        r#"{"jsonrpc":"2.0","method":"notifications/initialized"}"#
    );
    assert_eq!(to_json_string(&make_tools_list_request()), r#"{"jsonrpc":"2.0","id":2,"method":"tools/list"}"#);
    assert_eq!(
        to_json_string(&make_tool_call_request("echo", None)),
        r#"{"jsonrpc":"2.0","id":3,"method":"tools/call","params":{"arguments":{},"name":"echo"}}"#
    );
}

#[test]
fn response_content_becomes_output() {
    let result = obj(vec![
        (
            "content",
            JsonValue::Array(vec![
                obj(vec![("text", s("hello")), ("type", s("text"))]),
                obj(vec![("type", s("image"))]),
                obj(vec![("resource", obj(vec![("uri", s("file:///a"))])), ("type", s("resource"))]),
                obj(vec![("type", s("video"))]),
            ]),
        ),
        ("isError", JsonValue::Bool(false)),
    ]);
    let r = map_response(McpResponse { id: Some(3), result: Some(result), error: None });
    assert!(r.status == ExecutionStatus::Succeeded);
    assert_eq!(r.exit_code, Some(0));
    assert_eq!(r.stdout.text, "hello\n[image: image/*]\n[resource: file:///a]\n[video: ...]");
}

#[test]
fn errors_become_failures() {
    let r = map_response(McpResponse {
        id: Some(3),
        result: None,
        error: Some(McpError { code: -1, message: "boom".to_string() }),
    });
    assert_eq!(r.stderr.text, "tool error: boom");
    let r = map_response(McpResponse { id: Some(3), result: None, error: None });
    assert_eq!(r.stderr.text, "empty tool response");
    let result = obj(vec![
        ("content", JsonValue::Array(vec![obj(vec![("text", s("bad")), ("type", s("text"))])])),
        ("isError", JsonValue::Bool(true)),
    ]);
    let r = map_response(McpResponse { id: Some(3), result: Some(result), error: None });
    assert!(r.status == ExecutionStatus::Failed);
    assert_eq!(r.stderr.text, "bad");
    assert_eq!(r.stdout.text, "");
}

#[test]
fn tools_list_response() {
    let result = obj(vec![("tools", JsonValue::Array(vec![obj(vec![("name", s("a"))])]))]);
    let v = tools_from_response(McpResponse { id: Some(2), result: Some(result), error: None }).unwrap();
    assert_eq!(v.len(), 1);
    assert!(tools_from_response(McpResponse { id: Some(2), result: Some(obj(vec![])), error: None }).unwrap().is_empty());
    assert_eq!(
        tools_from_response(McpResponse { id: Some(2), result: None, error: None }).unwrap_err(),
        "empty tools/list response"
    );
}

#[test]
fn handshake_and_failure_results() {
    assert!(handshake_check(&McpResponse { id: Some(1), result: None, error: None }).is_ok());
    let bad = McpResponse { id: Some(1), result: None, error: Some(McpError { code: -32600, message: "bad version".to_string() }) };
    assert_eq!(handshake_check(&bad), Err("handshake error: bad version".to_string()));
    let r = handshake_failed("eof");
    assert_eq!(r.exit_code, Some(-1));
    assert_eq!(r.stderr.text, "MCP handshake failed: eof");
    let r = tool_call_failed("closed");
    assert_eq!(r.exit_code, Some(1));
    assert_eq!(r.stderr.text, "MCP tool call failed: closed");
    let r = mcp_timed_out(Some(45));
    assert!(r.status == ExecutionStatus::TimedOut);
    assert_eq!(r.stderr.text, "MCP task timed out after 45s");
    let r = mcp_cancelled();
    assert!(r.status == ExecutionStatus::Cancelled);
    assert_eq!(r.stderr.text, "MCP task cancelled by user");
}

#[test]
fn response_body_candidates() {
    let body = "event: message\r\ndata: {\"id\":1}\n\n  {\"id\":2}  \ndata:x\n";
    assert_eq!(
        sse_candidates(body),
        vec![("{\"id\":1}".to_string(), false), ("{\"id\":2}".to_string(), true)]
    );
    assert_eq!(json_line_candidates(" a \n\n\tb\r\n"), vec!["a".to_string(), "b".to_string()]);
    assert_eq!(text_lines("x\r\ny\n"), vec!["x".to_string(), "y".to_string()]);
    assert_eq!(text_lines(""), Vec::<String>::new());
    assert_eq!(text_lines("a\n\nb"), vec!["a".to_string(), "".to_string(), "b".to_string()]);
}
