//! MCP (Model Context Protocol) server: the tools it offers, JSON-RPC responses,
//! and the routing of a request to a response or a tool call.
use crate::db::models::auth::ApiKeyRole;
use crate::json::{
    as_u64, clone_json, entries_get, entries_view, get, jobj, jstr, json_as_u64, json_get, JsonValue, JsonView,
};
use crate::text::{chars_of, contains_chars, contains_seq, dec, push_decimal, str_eq};
use vstd::prelude::*;

verus! {

/// The least role a tool may be called with.
#[derive(Debug, Clone, Copy, PartialEq, Eq, Structural)]
pub enum MinRole {
    Viewer,
    Operator,
}

impl MinRole {
    /// Whether a key of `role` may use a tool that needs `self`.
    pub open spec fn spec_allowed_for(self, role: ApiKeyRole) -> bool {
        match self {
            MinRole::Viewer => true,
            MinRole::Operator => role == ApiKeyRole::Admin || role == ApiKeyRole::Operator,
        }
    }

    /// Whether a key of `role` may use a tool that needs `self`.
    pub fn allowed_for(self, role: &ApiKeyRole) -> (r: bool)
        ensures
            r == self.spec_allowed_for(*role),
    {
        match self {
            MinRole::Viewer => true,
            MinRole::Operator => role.can_write(),
        }
    }
}

/// A tool the server offers.
pub struct McpTool {
    pub name: String,
    pub description: String,
    pub input_schema: JsonValue,
    pub min_role: MinRole,
}

/// The names of the tools, in the order they are listed.
pub open spec fn tool_names() -> Seq<Seq<char>> {
    seq![
        "list_jobs"@,
        "get_job"@,
        "create_job"@,
        "trigger_job"@,
        "list_executions"@,
        "get_execution"@,
        "list_agents"@,
        "list_groups"@,
        "list_events"@,
        "get_system_stats"@,
    ]
}

/// The least role of each tool, in the order they are listed.
pub open spec fn tool_roles() -> Seq<MinRole> {
    seq![
        MinRole::Viewer,
        MinRole::Viewer,
        MinRole::Operator,
        MinRole::Operator,
        MinRole::Viewer,
        MinRole::Viewer,
        MinRole::Viewer,
        MinRole::Viewer,
        MinRole::Viewer,
        MinRole::Viewer,
    ]
}

/// The schema of one argument: its description and its JSON type.
pub open spec fn prop_json(ty: Seq<char>, description: Seq<char>) -> JsonView {
    JsonView::Object(
        seq![("description"@, JsonView::String(description)), ("type"@, JsonView::String(ty))],
    )
}

/// The schema of the `limit` argument, an integer that defaults to 20.
pub open spec fn limit_json() -> JsonView {
    JsonView::Object(
        seq![
            ("default"@, JsonView::Number("20"@)),
            ("description"@, JsonView::String("Max results (default 20)"@)),
            ("type"@, JsonView::String("integer"@)),
        ],
    )
}

/// An object schema with the given properties; the `required` list is left out
/// when no argument is required.
pub open spec fn schema_json(props: Seq<(Seq<char>, JsonView)>, required: Seq<Seq<char>>) -> JsonView {
    let req = if required.len() > 0 {
        seq![
            ("required"@, JsonView::Array(
                Seq::new(required.len(), |i: int| JsonView::String(required[i])),
            )),
        ]
    } else {
        Seq::<(Seq<char>, JsonView)>::empty()
    };
    JsonView::Object(
        seq![("properties"@, JsonView::Object(props))] + req + seq![
            ("type"@, JsonView::String("object"@)),
        ],
    )
}

/// The description of each tool, in the order they are listed.
pub open spec fn tool_descriptions() -> Seq<Seq<char>> {
    seq![
        "List jobs with optional filters. Returns job name, status, group, schedule, and last execution."@,
        "Get full details of a job by name or ID."@,
        "Create a new job. Returns the new job ID."@,
        "Trigger a job to run immediately. Returns execution info."@,
        "List recent job executions with status and output excerpt."@,
        "Get full execution details including stdout, stderr, and exit code."@,
        "List all registered agents with status, type, and tags."@,
        "List all job group names."@,
        "List recent system events."@,
        "Get system overview: job counts, execution stats, agent status, group counts."@,
    ]
}

/// The argument schema of each tool, in the order they are listed.
pub open spec fn tool_schemas() -> Seq<JsonView> {
    seq![
        schema_json(
            seq![
                ("group"@, prop_json("string"@, "Filter by group name"@)),
                ("limit"@, limit_json()),
                ("search"@, prop_json("string"@, "Search in job name and task"@)),
                ("status"@, prop_json("string"@, "Filter by status (scheduled, paused, unscheduled)"@)),
            ],
            seq![],
        ),
        schema_json(
            seq![
                ("id"@, prop_json("string"@, "Job UUID"@)),
                ("name"@, prop_json("string"@, "Job name (exact match)"@)),
            ],
            seq![],
        ),
        schema_json(
            seq![
                ("description"@, prop_json("string"@, "Job description"@)),
                ("group"@, prop_json("string"@, "Job group (default: Default)"@)),
                ("name"@, prop_json("string"@, "Job name"@)),
                ("schedule"@, prop_json(
                    "object"@,
                    "Schedule (e.g. {\"type\":\"on_demand\"} or {\"type\":\"cron\",\"value\":\"0 * * * * *\"})"@,
                )),
                ("task"@, prop_json(
                    "object"@,
                    "Task definition (e.g. {\"type\":\"shell\",\"command\":\"echo hello\"})"@,
                )),
                ("timeout_secs"@, prop_json("integer"@, "Timeout in seconds"@)),
            ],
            seq!["name"@, "task"@, "schedule"@],
        ),
        schema_json(
            seq![
                ("id"@, prop_json("string"@, "Job UUID"@)),
                ("name"@, prop_json("string"@, "Job name"@)),
            ],
            seq![],
        ),
        schema_json(
            seq![
                ("limit"@, limit_json()),
                ("status"@, prop_json("string"@, "Filter by status (succeeded, failed, running, timed_out)"@)),
            ],
            seq![],
        ),
        schema_json(seq![("id"@, prop_json("string"@, "Execution UUID"@))], seq!["id"@]),
        schema_json(seq![], seq![]),
        schema_json(seq![], seq![]),
        schema_json(seq![("limit"@, limit_json())], seq![]),
        schema_json(seq![], seq![]),
    ]
}

fn prop(ty: &str, description: &str) -> (r: (String, JsonValue))
    ensures
        r.0@ == Seq::<char>::empty(),
        r.1@ == prop_json(ty@, description@),
{
    let entries = vec![("description".to_string(), jstr(description)), ("type".to_string(), jstr(ty))];
    proof {
        crate::json::lemma_entries_view(entries@);
    }
    assert(entries_view(entries@) =~= seq![
        ("description"@, JsonView::String(description@)),
        ("type"@, JsonView::String(ty@)),
    ]);
    (String::new(), jobj(entries))
}

fn named(name: &str, p: (String, JsonValue)) -> (r: (String, JsonValue))
    ensures
        r.0@ == name@,
        r.1 == p.1,
{
    (name.to_string(), p.1)
}

fn limit_prop() -> (r: (String, JsonValue))
    ensures
        r.0@ == "limit"@,
        r.1@ == limit_json(),
{
    let entries = vec![
        ("default".to_string(), JsonValue::Number("20".to_string())),
        ("description".to_string(), jstr("Max results (default 20)")),
        ("type".to_string(), jstr("integer")),
    ];
    proof {
        crate::json::lemma_entries_view(entries@);
    }
    assert(entries_view(entries@) =~= seq![
        ("default"@, JsonView::Number("20"@)),
        ("description"@, JsonView::String("Max results (default 20)"@)),
        ("type"@, JsonView::String("integer"@)),
    ]);
    ("limit".to_string(), jobj(entries))
}

/// An object schema with the given properties and required fields.
fn schema(props: Vec<(String, JsonValue)>, required: Vec<&str>) -> (r: JsonValue)
    ensures
        r@ == schema_json(
            entries_view(props@),
            Seq::new(required@.len(), |i: int| required@[i]@),
        ),
{
    let ghost pv = entries_view(props@);
    let ghost rq = Seq::new(required@.len(), |i: int| required@[i]@);
    let mut entries: Vec<(String, JsonValue)> = Vec::new();
    entries.push(("properties".to_string(), jobj(props)));
    if required.len() > 0 {
        let mut req: Vec<JsonValue> = Vec::new();
        let mut i: usize = 0;
        while i < required.len()
            invariant
                i <= required.len(),
                req@.len() == i,
                forall|j: int| 0 <= j < i ==> #[trigger] crate::json::jv(req@[j]) == JsonView::String(required@[j]@),
            decreases required.len() - i,
        {
            req.push(jstr(required[i]));
            i = i + 1;
        }
        proof {
            crate::json::lemma_items_view(req@);
        }
        assert(crate::json::items_view(req@) =~= Seq::new(rq.len(), |k: int| JsonView::String(rq[k])));
        entries.push(("required".to_string(), JsonValue::Array(req)));
    }
    entries.push(("type".to_string(), jstr("object")));
    proof {
        crate::json::lemma_entries_view(entries@);
    }
    assert(entries_view(entries@) =~= schema_json(pv, rq)->Object_0);
    jobj(entries)
}

fn tool(name: &str, description: &str, input_schema: JsonValue, min_role: MinRole) -> (r: McpTool)
    ensures
        r.name@ == name@,
        r.description@ == description@,
        r.input_schema == input_schema,
        r.min_role == min_role,
{
    McpTool { name: name.to_string(), description: description.to_string(), input_schema, min_role }
}

/// The required arguments of the `i`-th tool.
spec fn tool_required(i: int) -> Seq<Seq<char>> {
    if i == 2 {
        seq!["name"@, "task"@, "schedule"@]
    } else if i == 5 {
        seq!["id"@]
    } else {
        seq![]
    }
}

/// Whether `t` is the `i`-th tool the server offers: its name, description,
/// argument schema and least role.
pub open spec fn is_listed_tool(t: McpTool, i: int) -> bool {
    &&& t.name@ == tool_names()[i]
    &&& t.description@ == tool_descriptions()[i]
    &&& t.input_schema@ == tool_schemas()[i]
    &&& t.min_role == tool_roles()[i]
}

/// The tools the server offers, in order: each one's name, description, argument
/// schema and least role.
pub fn tool_definitions() -> (r: Vec<McpTool>)
    ensures
        r@.len() == tool_names().len(),
        forall|i: int| 0 <= i < r@.len() ==> #[trigger] is_listed_tool(r@[i], i),
{
    let mut v: Vec<McpTool> = Vec::new();
    let props: Vec<(String, JsonValue)> = vec![
        named("group", prop("string", "Filter by group name")),
        limit_prop(),
        named("search", prop("string", "Search in job name and task")),
        named("status", prop("string", "Filter by status (scheduled, paused, unscheduled)")),
    ];
    let required: Vec<&str> = vec![];
    proof {
        crate::json::lemma_entries_view(props@);
    }
    assert(entries_view(props@) =~= tool_schemas()[0]->Object_0[0].1->Object_0);
    assert(Seq::new(required@.len(), |i: int| required@[i]@) =~= tool_required(0));
    let t = tool(
        "list_jobs",
        "List jobs with optional filters. Returns job name, status, group, schedule, and last execution.",
        schema(props, required),
        MinRole::Viewer,
    );
    assert(is_listed_tool(t, 0));
    v.push(t);
    let props: Vec<(String, JsonValue)> = vec![
        named("id", prop("string", "Job UUID")),
        named("name", prop("string", "Job name (exact match)")),
    ];
    let required: Vec<&str> = vec![];
    proof {
        crate::json::lemma_entries_view(props@);
    }
    assert(entries_view(props@) =~= tool_schemas()[1]->Object_0[0].1->Object_0);
    assert(Seq::new(required@.len(), |i: int| required@[i]@) =~= tool_required(1));
    let t = tool(
        "get_job",
        "Get full details of a job by name or ID.",
        schema(props, required),
        MinRole::Viewer,
    );
    assert(is_listed_tool(t, 1));
    v.push(t);
    let props: Vec<(String, JsonValue)> = vec![
        named("description", prop("string", "Job description")),
        named("group", prop("string", "Job group (default: Default)")),
        named("name", prop("string", "Job name")),
        named(
            "schedule",
            prop(
                "object",
                "Schedule (e.g. {\"type\":\"on_demand\"} or {\"type\":\"cron\",\"value\":\"0 * * * * *\"})",
            ),
        ),
        named(
            "task",
            prop("object", "Task definition (e.g. {\"type\":\"shell\",\"command\":\"echo hello\"})"),
        ),
        named("timeout_secs", prop("integer", "Timeout in seconds")),
    ];
    let required: Vec<&str> = vec!["name", "task", "schedule"];
    proof {
        crate::json::lemma_entries_view(props@);
    }
    assert(entries_view(props@) =~= tool_schemas()[2]->Object_0[0].1->Object_0);
    assert(Seq::new(required@.len(), |i: int| required@[i]@) =~= tool_required(2));
    let t = tool(
        "create_job",
        "Create a new job. Returns the new job ID.",
        schema(props, required),
        MinRole::Operator,
    );
    assert(is_listed_tool(t, 2));
    v.push(t);
    let props: Vec<(String, JsonValue)> = vec![
        named("id", prop("string", "Job UUID")),
        named("name", prop("string", "Job name")),
    ];
    let required: Vec<&str> = vec![];
    proof {
        crate::json::lemma_entries_view(props@);
    }
    assert(entries_view(props@) =~= tool_schemas()[3]->Object_0[0].1->Object_0);
    assert(Seq::new(required@.len(), |i: int| required@[i]@) =~= tool_required(3));
    let t = tool(
        "trigger_job",
        "Trigger a job to run immediately. Returns execution info.",
        schema(props, required),
        MinRole::Operator,
    );
    assert(is_listed_tool(t, 3));
    v.push(t);
    let props: Vec<(String, JsonValue)> = vec![
        limit_prop(),
        named("status", prop("string", "Filter by status (succeeded, failed, running, timed_out)")),
    ];
    let required: Vec<&str> = vec![];
    proof {
        crate::json::lemma_entries_view(props@);
    }
    assert(entries_view(props@) =~= tool_schemas()[4]->Object_0[0].1->Object_0);
    assert(Seq::new(required@.len(), |i: int| required@[i]@) =~= tool_required(4));
    let t = tool(
        "list_executions",
        "List recent job executions with status and output excerpt.",
        schema(props, required),
        MinRole::Viewer,
    );
    assert(is_listed_tool(t, 4));
    v.push(t);
    let props: Vec<(String, JsonValue)> = vec![
        named("id", prop("string", "Execution UUID")),
    ];
    let required: Vec<&str> = vec!["id"];
    proof {
        crate::json::lemma_entries_view(props@);
    }
    assert(entries_view(props@) =~= tool_schemas()[5]->Object_0[0].1->Object_0);
    assert(Seq::new(required@.len(), |i: int| required@[i]@) =~= tool_required(5));
    let t = tool(
        "get_execution",
        "Get full execution details including stdout, stderr, and exit code.",
        schema(props, required),
        MinRole::Viewer,
    );
    assert(is_listed_tool(t, 5));
    v.push(t);
    let props: Vec<(String, JsonValue)> = vec![];
    let required: Vec<&str> = vec![];
    proof {
        crate::json::lemma_entries_view(props@);
    }
    assert(entries_view(props@) =~= tool_schemas()[6]->Object_0[0].1->Object_0);
    assert(Seq::new(required@.len(), |i: int| required@[i]@) =~= tool_required(6));
    let t = tool(
        "list_agents",
        "List all registered agents with status, type, and tags.",
        schema(props, required),
        MinRole::Viewer,
    );
    assert(is_listed_tool(t, 6));
    v.push(t);
    let props: Vec<(String, JsonValue)> = vec![];
    let required: Vec<&str> = vec![];
    proof {
        crate::json::lemma_entries_view(props@);
    }
    assert(entries_view(props@) =~= tool_schemas()[7]->Object_0[0].1->Object_0);
    assert(Seq::new(required@.len(), |i: int| required@[i]@) =~= tool_required(7));
    let t = tool(
        "list_groups",
        "List all job group names.",
        schema(props, required),
        MinRole::Viewer,
    );
    assert(is_listed_tool(t, 7));
    v.push(t);
    let props: Vec<(String, JsonValue)> = vec![
        limit_prop(),
    ];
    let required: Vec<&str> = vec![];
    proof {
        crate::json::lemma_entries_view(props@);
    }
    assert(entries_view(props@) =~= tool_schemas()[8]->Object_0[0].1->Object_0);
    assert(Seq::new(required@.len(), |i: int| required@[i]@) =~= tool_required(8));
    let t = tool(
        "list_events",
        "List recent system events.",
        schema(props, required),
        MinRole::Viewer,
    );
    assert(is_listed_tool(t, 8));
    v.push(t);
    let props: Vec<(String, JsonValue)> = vec![];
    let required: Vec<&str> = vec![];
    proof {
        crate::json::lemma_entries_view(props@);
    }
    assert(entries_view(props@) =~= tool_schemas()[9]->Object_0[0].1->Object_0);
    assert(Seq::new(required@.len(), |i: int| required@[i]@) =~= tool_required(9));
    let t = tool(
        "get_system_stats",
        "Get system overview: job counts, execution stats, agent status, group counts.",
        schema(props, required),
        MinRole::Viewer,
    );
    assert(is_listed_tool(t, 9));
    v.push(t);
    assert forall|i: int| 0 <= i < v@.len() implies #[trigger] is_listed_tool(v@[i], i) by {}
    v
}

/// The decimal text of an integer, with a leading `-` when it is negative.
pub open spec fn int_dec(n: int) -> Seq<char> {
    if n < 0 {
        seq!['-'] + dec((-n) as nat)
    } else {
        dec(n as nat)
    }
}

fn int_text(n: i64) -> (r: String)
    ensures
        r@ == int_dec(n as int),
{
    let mut s = String::new();
    if n < 0 {
        crate::text::push_char(&mut s, '-');
        let a: u64 = (-(n as i128)) as u64;
        push_decimal(&mut s, a);
    } else {
        push_decimal(&mut s, n as u64);
    }
    s
}

/// A JSON-RPC error object.
pub struct JsonRpcError {
    pub code: i64,
    pub message: String,
}

/// A JSON-RPC response: a result or an error, never both.
pub struct JsonRpcResponse {
    pub jsonrpc: &'static str,
    pub id: JsonValue,
    pub result: Option<JsonValue>,
    pub error: Option<JsonRpcError>,
}

/// The JSON of a successful response.
pub open spec fn success_json(id: JsonView, result: JsonView) -> JsonView {
    JsonView::Object(
        seq![("jsonrpc"@, JsonView::String("2.0"@)), ("id"@, id), ("result"@, result)],
    )
}

/// The JSON of an error response.
pub open spec fn error_json(id: JsonView, code: int, message: Seq<char>) -> JsonView {
    JsonView::Object(
        seq![
            ("jsonrpc"@, JsonView::String("2.0"@)),
            ("id"@, id),
            (
                "error"@,
                JsonView::Object(
                    seq![("code"@, JsonView::Number(int_dec(code))), ("message"@, JsonView::String(message))],
                ),
            ),
        ],
    )
}

/// The JSON a response is sent as: `jsonrpc`, `id`, then `result` and `error`
/// where present.
pub open spec fn response_json(r: JsonRpcResponse) -> JsonView {
    JsonView::Object(response_entries(r))
}

/// The entries of a response's JSON.
pub open spec fn response_entries(r: JsonRpcResponse) -> Seq<(Seq<char>, JsonView)> {
    seq![("jsonrpc"@, JsonView::String(r.jsonrpc@)), ("id"@, r.id@)] + (match r.result {
            Some(x) => seq![("result"@, x@)],
            None => seq![],
        }) + (match r.error {
            Some(e) => seq![
                (
                    "error"@,
                    JsonView::Object(
                        seq![("code"@, JsonView::Number(int_dec(e.code as int))), ("message"@, JsonView::String(e.message@))],
                    ),
                ),
            ],
            None => seq![],
        })
}

impl JsonRpcResponse {
    /// A response carrying `result`.
    pub fn success(id: JsonValue, result: JsonValue) -> (r: Self)
        ensures
            response_json(r) == success_json(id@, result@),
    {
        let r = JsonRpcResponse { jsonrpc: "2.0", id, result: Some(result), error: None };
        assert(response_entries(r) =~= seq![
            ("jsonrpc"@, JsonView::String("2.0"@)),
            ("id"@, id@),
            ("result"@, result@),
        ]);
        r
    }

    /// A response carrying an error.
    pub fn error(id: JsonValue, code: i64, message: String) -> (r: Self)
        ensures
            response_json(r) == error_json(id@, code as int, message@),
    {
        let r = JsonRpcResponse {
            jsonrpc: "2.0",
            id,
            result: None,
            error: Some(JsonRpcError { code, message }),
        };
        assert(response_entries(r) =~= seq![
            ("jsonrpc"@, JsonView::String("2.0"@)),
            ("id"@, id@),
            (
                "error"@,
                JsonView::Object(
                    seq![("code"@, JsonView::Number(int_dec(code as int))), ("message"@, JsonView::String(message@))],
                ),
            ),
        ]);
        r
    }

    /// The JSON this response is sent as.
    pub fn to_json(&self) -> (r: JsonValue)
        ensures
            r@ == response_json(*self),
    {
        let mut entries: Vec<(String, JsonValue)> = Vec::new();
        entries.push(("jsonrpc".to_string(), jstr(self.jsonrpc)));
        entries.push(("id".to_string(), clone_json(&self.id)));
        match &self.result {
            Some(x) => entries.push(("result".to_string(), clone_json(x))),
            None => {},
        }
        match &self.error {
            Some(e) => {
                let inner_entries = vec![
                    ("code".to_string(), JsonValue::Number(int_text(e.code))),
                    ("message".to_string(), JsonValue::String(e.message.clone())),
                ];
                proof {
                    crate::json::lemma_entries_view(inner_entries@);
                }
                assert(entries_view(inner_entries@) =~= seq![
                    ("code"@, JsonView::Number(int_dec(e.code as int))),
                    ("message"@, JsonView::String(e.message@)),
                ]);
                let inner = jobj(inner_entries);
                entries.push(("error".to_string(), inner));
            },
            None => {},
        }
        proof {
            crate::json::lemma_entries_view(entries@);
        }
        assert(entries_view(entries@) =~= response_entries(*self));
        jobj(entries)
    }
}

/// The body of a server-sent event carrying `json`.
pub fn sse_body(json: &str) -> (r: String)
    ensures
        r@ == "event: message\ndata: "@ + json@ + "\n\n"@,
{
    let mut s = String::new();
    s.append("event: message\ndata: ");
    s.append(json);
    s.append("\n\n");
    s
}

/// The JSON of a transport-level error, sent outside the JSON-RPC flow.
pub open spec fn error_body_json(message: Seq<char>) -> JsonView {
    JsonView::Object(
        seq![
            (
                "error"@,
                JsonView::Object(
                    seq![("code"@, JsonView::Number("-32600"@)), ("message"@, JsonView::String(message))],
                ),
            ),
            ("id"@, JsonView::String("server-error"@)),
            ("jsonrpc"@, JsonView::String("2.0"@)),
        ],
    )
}

/// The JSON of a transport-level error.
pub fn error_body(message: &str) -> (r: JsonValue)
    ensures
        r@ == error_body_json(message@),
{
    let inner_entries = vec![
        ("code".to_string(), JsonValue::Number("-32600".to_string())),
        ("message".to_string(), jstr(message)),
    ];
    proof {
        crate::json::lemma_entries_view(inner_entries@);
    }
    assert(entries_view(inner_entries@) =~= seq![
        ("code"@, JsonView::Number("-32600"@)),
        ("message"@, JsonView::String(message@)),
    ]);
    let inner = jobj(inner_entries);
    let entries = vec![
        ("error".to_string(), inner),
        ("id".to_string(), jstr("server-error")),
        ("jsonrpc".to_string(), jstr("2.0")),
    ];
    proof {
        crate::json::lemma_entries_view(entries@);
    }
    let ghost iv = inner@;
    assert(entries_view(entries@) =~= seq![
        ("error"@, iv),
        ("id"@, JsonView::String("server-error"@)),
        ("jsonrpc"@, JsonView::String("2.0"@)),
    ]);
    jobj(entries)
}

/// Whether an `Accept` header admits both JSON and event streams.
pub open spec fn accepts_stream(accept: Seq<char>) -> bool {
    contains_seq(accept, "application/json"@) && contains_seq(accept, "text/event-stream"@)
}

/// Whether an `Accept` header admits both JSON and event streams.
pub fn accepts(accept: &str) -> (r: bool)
    ensures
        r == accepts_stream(accept@),
{
    let a = chars_of(accept);
    contains_chars(a.as_slice(), chars_of("application/json").as_slice()) && contains_chars(
        a.as_slice(),
        chars_of("text/event-stream").as_slice(),
    )
}

/// The message sent with a request refused for its `Accept` header.
pub fn not_acceptable_message() -> (r: &'static str)
    ensures
        r@ == "Not Acceptable: Client must accept both application/json and text/event-stream"@,
{
    "Not Acceptable: Client must accept both application/json and text/event-stream"
}

/// The result of `initialize`: protocol version, capabilities and server info.
pub open spec fn initialize_result() -> JsonView {
    JsonView::Object(
        seq![
            (
                "capabilities"@,
                JsonView::Object(
                    seq![("tools"@, JsonView::Object(seq![("listChanged"@, JsonView::Bool(false))]))],
                ),
            ),
            ("protocolVersion"@, JsonView::String("2024-11-05"@)),
            (
                "serverInfo"@,
                JsonView::Object(
                    seq![("name"@, JsonView::String("kronforce"@)), ("version"@, JsonView::String("0.1.0"@))],
                ),
            ),
        ],
    )
}

fn initialize_result_value() -> (r: JsonValue)
    ensures
        r@ == initialize_result(),
{
    let flags = vec![("listChanged".to_string(), JsonValue::Bool(false))];
    proof {
        crate::json::lemma_entries_view(flags@);
    }
    assert(entries_view(flags@) =~= seq![("listChanged"@, JsonView::Bool(false))]);
    let tools = vec![("tools".to_string(), jobj(flags))];
    proof {
        crate::json::lemma_entries_view(tools@);
    }
    let ghost tv = tools@[0].1@;
    assert(entries_view(tools@) =~= seq![("tools"@, tv)]);
    let info = vec![("name".to_string(), jstr("kronforce")), ("version".to_string(), jstr("0.1.0"))];
    proof {
        crate::json::lemma_entries_view(info@);
    }
    assert(entries_view(info@) =~= seq![
        ("name"@, JsonView::String("kronforce"@)),
        ("version"@, JsonView::String("0.1.0"@)),
    ]);
    let top = vec![
        ("capabilities".to_string(), jobj(tools)),
        ("protocolVersion".to_string(), jstr("2024-11-05")),
        ("serverInfo".to_string(), jobj(info)),
    ];
    proof {
        crate::json::lemma_entries_view(top@);
    }
    let ghost cv = top@[0].1@;
    let ghost sv = top@[2].1@;
    assert(entries_view(top@) =~= seq![
        ("capabilities"@, cv),
        ("protocolVersion"@, JsonView::String("2024-11-05"@)),
        ("serverInfo"@, sv),
    ]);
    jobj(top)
}

/// A tool call's result: its text as content, flagged as an error or not.
pub open spec fn tool_result_json(text: Seq<char>, is_error: bool) -> JsonView {
    JsonView::Object(
        seq![
            (
                "content"@,
                JsonView::Array(
                    seq![
                        JsonView::Object(
                            seq![("text"@, JsonView::String(text)), ("type"@, JsonView::String("text"@))],
                        ),
                    ],
                ),
            ),
            ("isError"@, JsonView::Bool(is_error)),
        ],
    )
}

/// A tool call's result.
pub fn tool_result(text: &str, is_error: bool) -> (r: JsonValue)
    ensures
        r@ == tool_result_json(text@, is_error),
{
    let item = vec![("text".to_string(), jstr(text)), ("type".to_string(), jstr("text"))];
    proof {
        crate::json::lemma_entries_view(item@);
    }
    assert(entries_view(item@) =~= seq![
        ("text"@, JsonView::String(text@)),
        ("type"@, JsonView::String("text"@)),
    ]);
    let content = vec![jobj(item)];
    proof {
        crate::json::lemma_items_view(content@);
    }
    let ghost iv = content@[0]@;
    assert(crate::json::items_view(content@) =~= seq![iv]);
    let top = vec![("content".to_string(), JsonValue::Array(content)), ("isError".to_string(), JsonValue::Bool(is_error))];
    proof {
        crate::json::lemma_entries_view(top@);
    }
    let ghost cv = top@[0].1@;
    assert(entries_view(top@) =~= seq![("content"@, cv), ("isError"@, JsonView::Bool(is_error))]);
    jobj(top)
}

/// How a tool is listed: description, input schema and name.
pub open spec fn tool_entry_json(t: McpTool) -> JsonView {
    JsonView::Object(
        seq![
            ("description"@, JsonView::String(t.description@)),
            ("inputSchema"@, t.input_schema@),
            ("name"@, JsonView::String(t.name@)),
        ],
    )
}

/// The tools a key of `role` may use, as they are listed.
pub open spec fn listed_tools(tools: Seq<McpTool>, role: ApiKeyRole) -> Seq<JsonView>
    decreases tools.len(),
{
    if tools.len() == 0 {
        seq![]
    } else {
        let prev = listed_tools(tools.drop_last(), role);
        if tools.last().min_role.spec_allowed_for(role) {
            prev.push(tool_entry_json(tools.last()))
        } else {
            prev
        }
    }
}

/// The result of `tools/list`.
pub open spec fn tools_list_json(tools: Seq<McpTool>, role: ApiKeyRole) -> JsonView {
    JsonView::Object(seq![("tools"@, JsonView::Array(listed_tools(tools, role)))])
}

fn tools_list_value(tools: &Vec<McpTool>, role: ApiKeyRole) -> (r: JsonValue)
    ensures
        r@ == tools_list_json(tools@, role),
{
    let mut items: Vec<JsonValue> = Vec::new();
    let mut i: usize = 0;
    while i < tools.len()
        invariant
            i <= tools@.len(),
            crate::json::items_view(items@) == listed_tools(tools@.take(i as int), role),
        decreases tools.len() - i,
    {
        let t = &tools[i];
        assert(tools@.take(i + 1).drop_last() =~= tools@.take(i as int));
        assert(tools@.take(i + 1).last() == tools@[i as int]);
        if t.min_role.allowed_for(&role) {
            let e = vec![
                ("description".to_string(), JsonValue::String(t.description.clone())),
                ("inputSchema".to_string(), clone_json(&t.input_schema)),
                ("name".to_string(), JsonValue::String(t.name.clone())),
            ];
            proof {
                crate::json::lemma_entries_view(e@);
            }
            assert(entries_view(e@) =~= seq![
                ("description"@, JsonView::String(t.description@)),
                ("inputSchema"@, t.input_schema@),
                ("name"@, JsonView::String(t.name@)),
            ]);
            let ghost before = items@;
            items.push(jobj(e));
            assert(items@.drop_last() =~= before);
        }
        i = i + 1;
    }
    assert(tools@.take(tools@.len() as int) =~= tools@);
    let ghost lv = crate::json::items_view(items@);
    let top = vec![("tools".to_string(), JsonValue::Array(items))];
    proof {
        crate::json::lemma_entries_view(top@);
    }
    assert(entries_view(top@) =~= seq![("tools"@, JsonView::Array(lv))]);
    jobj(top)
}

/// The index of the first tool of that name.
pub open spec fn find_tool(tools: Seq<McpTool>, name: Seq<char>) -> Option<int>
    decreases tools.len(),
{
    if tools.len() == 0 {
        None
    } else if tools[0].name@ == name {
        Some(0)
    } else {
        match find_tool(tools.drop_first(), name) {
            Some(i) => Some(i + 1),
            None => None,
        }
    }
}

fn find_tool_index(tools: &Vec<McpTool>, name: &str) -> (r: Option<usize>)
    ensures
        match find_tool(tools@, name@) {
            Some(i) => r matches Some(k) && k as int == i && 0 <= i < tools@.len(),
            None => r is None,
        },
{
    let mut i: usize = 0;
    while i < tools.len()
        invariant
            i <= tools@.len(),
            forall|j: int| 0 <= j < i ==> #[trigger] tools@[j].name@ != name@,
        decreases tools.len() - i,
    {
        if str_eq(tools[i].name.as_str(), name) {
            proof {
                lemma_find_tool_at(tools@, name@, i as int);
            }
            return Some(i);
        }
        i = i + 1;
    }
    proof {
        lemma_find_tool_none(tools@, name@);
    }
    None
}

proof fn lemma_find_tool_at(tools: Seq<McpTool>, name: Seq<char>, i: int)
    requires
        0 <= i < tools.len(),
        tools[i].name@ == name,
        forall|j: int| 0 <= j < i ==> #[trigger] tools[j].name@ != name,
    ensures
        find_tool(tools, name) == Some(i),
    decreases i,
{
    if i > 0 {
        let t = tools.drop_first();
        assert forall|j: int| 0 <= j < i - 1 implies #[trigger] t[j].name@ != name by {
            assert(t[j] == tools[j + 1]);
        }
        lemma_find_tool_at(t, name, i - 1);
    }
}

proof fn lemma_find_tool_none(tools: Seq<McpTool>, name: Seq<char>)
    requires
        forall|j: int| 0 <= j < tools.len() ==> #[trigger] tools[j].name@ != name,
    ensures
        find_tool(tools, name) is None,
    decreases tools.len(),
{
    if tools.len() > 0 {
        let t = tools.drop_first();
        assert forall|j: int| 0 <= j < t.len() implies #[trigger] t[j].name@ != name by {
            assert(t[j] == tools[j + 1]);
        }
        lemma_find_tool_none(t, name);
    }
}

/// What the handler does with a request.
pub enum McpAction {
    /// Refuse it: the client does not accept both JSON and event streams.
    NotAcceptable,
    /// Acknowledge a notification (a message without an id).
    Accepted,
    /// Answer with this response.
    Respond(JsonRpcResponse),
    /// Run the named tool with these arguments, then answer the request of this id.
    CallTool(JsonValue, String, JsonValue),
}

/// The meaning of an [`McpAction`].
pub enum ActionView {
    NotAcceptable,
    Accepted,
    Respond(JsonView),
    CallTool(JsonView, Seq<char>, JsonView),
}

/// The meaning of an [`McpAction`], a response by its JSON.
pub open spec fn action_view(a: McpAction) -> ActionView {
    match a {
        McpAction::NotAcceptable => ActionView::NotAcceptable,
        McpAction::Accepted => ActionView::Accepted,
        McpAction::Respond(r) => ActionView::Respond(response_json(r)),
        McpAction::CallTool(id, name, args) => ActionView::CallTool(id@, name@, args@),
    }
}

/// What a `tools/call` request comes to.
pub open spec fn spec_tool_call(
    id: JsonView,
    params: Option<JsonView>,
    role: ApiKeyRole,
    tools: Seq<McpTool>,
) -> ActionView {
    let p = match params {
        Some(p) => p,
        None => JsonView::Object(seq![]),
    };
    let name = match json_get(p, "name"@) {
        Some(JsonView::String(s)) => s,
        _ => seq![],
    };
    let args = match json_get(p, "arguments"@) {
        Some(a) => a,
        None => JsonView::Object(seq![]),
    };
    match find_tool(tools, name) {
        None => ActionView::Respond(
            success_json(id, tool_result_json("Unknown tool: "@ + name, true)),
        ),
        Some(i) => if !tools[i].min_role.spec_allowed_for(role) {
            ActionView::Respond(
                success_json(id, tool_result_json("Insufficient permissions for this tool"@, true)),
            )
        } else {
            ActionView::CallTool(id, name, args)
        },
    }
}

/// What the handler does with a request, given its `Accept` header, the caller's
/// role, the message's id, method and params, and the tools on offer.
pub open spec fn spec_route(
    accept: Seq<char>,
    role: ApiKeyRole,
    id: Option<JsonView>,
    method: Option<Seq<char>>,
    params: Option<JsonView>,
    tools: Seq<McpTool>,
) -> ActionView {
    if !accepts_stream(accept) {
        ActionView::NotAcceptable
    } else {
        match id {
            None => ActionView::Accepted,
            Some(idv) => {
                let m = match method {
                    Some(m) => m,
                    None => seq![],
                };
                if m == "initialize"@ {
                    ActionView::Respond(success_json(idv, initialize_result()))
                } else if m == "tools/list"@ {
                    ActionView::Respond(success_json(idv, tools_list_json(tools, role)))
                } else if m == "tools/call"@ {
                    spec_tool_call(idv, params, role, tools)
                } else if m == "ping"@ {
                    ActionView::Respond(success_json(idv, JsonView::Object(seq![])))
                } else {
                    ActionView::Respond(error_json(idv, -32601, "Method not found: "@ + m))
                }
            },
        }
    }
}

/// The text of an optional string.
pub open spec fn opt_string(o: Option<String>) -> Option<Seq<char>> {
    match o {
        Some(s) => Some(s@),
        None => None,
    }
}

fn empty_object() -> (r: JsonValue)
    ensures
        r@ == JsonView::Object(seq![]),
{
    let e: Vec<(String, JsonValue)> = Vec::new();
    assert(entries_view(e@) =~= Seq::<(Seq<char>, JsonView)>::empty());
    jobj(e)
}

fn tool_call_action(id: JsonValue, params: Option<JsonValue>, role: ApiKeyRole, tools: &Vec<McpTool>) -> (r: McpAction)
    ensures
        action_view(r) == spec_tool_call(id@, crate::json::opt_view(params), role, tools@),
{
    let p = match params {
        Some(p) => p,
        None => empty_object(),
    };
    let name: String = match get(&p, "name") {
        Some(JsonValue::String(s)) => s.clone(),
        _ => String::new(),
    };
    let args = match get(&p, "arguments") {
        Some(a) => clone_json(a),
        None => empty_object(),
    };
    match find_tool_index(tools, name.as_str()) {
        None => {
            let mut m = String::new();
            m.append("Unknown tool: ");
            m.append(name.as_str());
            McpAction::Respond(JsonRpcResponse::success(id, tool_result(m.as_str(), true)))
        },
        Some(i) => {
            if !tools[i].min_role.allowed_for(&role) {
                McpAction::Respond(
                    JsonRpcResponse::success(
                        id,
                        tool_result("Insufficient permissions for this tool", true),
                    ),
                )
            } else {
                McpAction::CallTool(id, name, args)
            }
        },
    }
}

/// Decides what to do with an MCP request: refuse it, acknowledge a
/// notification, answer it, or call a tool.
pub fn route_mcp(
    accept: &str,
    role: ApiKeyRole,
    id: Option<JsonValue>,
    method: Option<String>,
    params: Option<JsonValue>,
    tools: &Vec<McpTool>,
) -> (r: McpAction)
    ensures
        action_view(r) == spec_route(
            accept@,
            role,
            crate::json::opt_view(id),
            opt_string(method),
            crate::json::opt_view(params),
            tools@,
        ),
{
    if !accepts(accept) {
        return McpAction::NotAcceptable;
    }
    let idv = match id {
        None => return McpAction::Accepted,
        Some(v) => v,
    };
    let m: String = match method {
        Some(m) => m,
        None => String::new(),
    };
    if str_eq(m.as_str(), "initialize") {
        McpAction::Respond(JsonRpcResponse::success(idv, initialize_result_value()))
    } else if str_eq(m.as_str(), "tools/list") {
        McpAction::Respond(JsonRpcResponse::success(idv, tools_list_value(tools, role)))
    } else if str_eq(m.as_str(), "tools/call") {
        tool_call_action(idv, params, role, tools)
    } else if str_eq(m.as_str(), "ping") {
        McpAction::Respond(JsonRpcResponse::success(idv, empty_object()))
    } else {
        let mut msg = String::new();
        msg.append("Method not found: ");
        msg.append(m.as_str());
        McpAction::Respond(JsonRpcResponse::error(idv, -32601, msg))
    }
}

/// The response to a tool call: its text, flagged as an error when the tool failed.
pub fn tool_call_response(id: JsonValue, outcome: Result<String, String>) -> (r: JsonRpcResponse)
    ensures
        response_json(r) == success_json(
            id@,
            match outcome {
                Ok(t) => tool_result_json(t@, false),
                Err(e) => tool_result_json(e@, true),
            },
        ),
{
    match outcome {
        Ok(t) => JsonRpcResponse::success(id, tool_result(t.as_str(), false)),
        Err(e) => JsonRpcResponse::success(id, tool_result(e.as_str(), true)),
    }
}

/// The tools a call can name.
#[derive(Debug, Clone, Copy, PartialEq, Eq, Structural)]
pub enum ToolKind {
    ListJobs,
    GetJob,
    CreateJob,
    TriggerJob,
    ListExecutions,
    GetExecution,
    ListAgents,
    ListGroups,
    ListEvents,
    GetSystemStats,
}

/// The tool of that name.
pub open spec fn spec_tool_kind(name: Seq<char>) -> Option<ToolKind> {
    if name == "list_jobs"@ {
        Some(ToolKind::ListJobs)
    } else if name == "get_job"@ {
        Some(ToolKind::GetJob)
    } else if name == "create_job"@ {
        Some(ToolKind::CreateJob)
    } else if name == "trigger_job"@ {
        Some(ToolKind::TriggerJob)
    } else if name == "list_executions"@ {
        Some(ToolKind::ListExecutions)
    } else if name == "get_execution"@ {
        Some(ToolKind::GetExecution)
    } else if name == "list_agents"@ {
        Some(ToolKind::ListAgents)
    } else if name == "list_groups"@ {
        Some(ToolKind::ListGroups)
    } else if name == "list_events"@ {
        Some(ToolKind::ListEvents)
    } else if name == "get_system_stats"@ {
        Some(ToolKind::GetSystemStats)
    } else {
        None
    }
}

/// Which tool a call names, or the error for an unknown one.
pub fn tool_kind(name: &str) -> (r: Result<ToolKind, String>)
    ensures
        match spec_tool_kind(name@) {
            Some(k) => r == Ok::<ToolKind, String>(k),
            None => r matches Err(e) && e@ == "Unknown tool: "@ + name@,
        },
{
    if str_eq(name, "list_jobs") {
        Ok(ToolKind::ListJobs)
    } else if str_eq(name, "get_job") {
        Ok(ToolKind::GetJob)
    } else if str_eq(name, "create_job") {
        Ok(ToolKind::CreateJob)
    } else if str_eq(name, "trigger_job") {
        Ok(ToolKind::TriggerJob)
    } else if str_eq(name, "list_executions") {
        Ok(ToolKind::ListExecutions)
    } else if str_eq(name, "get_execution") {
        Ok(ToolKind::GetExecution)
    } else if str_eq(name, "list_agents") {
        Ok(ToolKind::ListAgents)
    } else if str_eq(name, "list_groups") {
        Ok(ToolKind::ListGroups)
    } else if str_eq(name, "list_events") {
        Ok(ToolKind::ListEvents)
    } else if str_eq(name, "get_system_stats") {
        Ok(ToolKind::GetSystemStats)
    } else {
        let mut m = String::new();
        m.append("Unknown tool: ");
        m.append(name);
        Err(m)
    }
}

/// The `limit` argument: a whole number, 20 when absent or not one, taken modulo
/// 2^32 as `as u32` does.
pub open spec fn spec_tool_limit(args: JsonView) -> u32 {
    (match json_get(args, "limit"@) {
        Some(v) => match json_as_u64(v) {
            Some(n) => n,
            None => 20,
        },
        None => 20,
    }) as u32
}

/// The `limit` argument of a listing tool.
pub fn tool_limit(args: &JsonValue) -> (r: u32)
    ensures
        r == spec_tool_limit(args@),
{
    let n: u64 = match get(args, "limit") {
        Some(v) => match as_u64(v) {
            Some(n) => n,
            None => 20,
        },
        None => 20,
    };
    n as u32
}

/// A string argument.
pub open spec fn spec_str_arg(args: JsonView, key: Seq<char>) -> Option<Seq<char>> {
    match json_get(args, key) {
        Some(JsonView::String(s)) => Some(s),
        _ => None,
    }
}

/// A string argument of a tool call.
pub fn str_arg(args: &JsonValue, key: &str) -> (r: Option<String>)
    ensures
        opt_string(r) == spec_str_arg(args@, key@),
{
    match get(args, key) {
        Some(JsonValue::String(s)) => Some(s.clone()),
        _ => None,
    }
}

/// A string argument that must be present, else the given error.
pub fn required_str(args: &JsonValue, key: &str, missing: &str) -> (r: Result<String, String>)
    ensures
        match spec_str_arg(args@, key@) {
            Some(s) => r matches Ok(x) && x@ == s,
            None => r matches Err(e) && e@ == missing@,
        },
{
    match str_arg(args, key) {
        Some(s) => Ok(s),
        None => Err(missing.to_string()),
    }
}

/// The UUID `uuid::Uuid::parse_str` reads from `s` (as its 128 bits), or the text
/// of the error it reports.
pub uninterp spec fn uuid_parse(s: Seq<char>) -> Result<u128, Seq<char>>;

/// `uuid::Uuid::parse_str(s)`, read as `as_u128`, the error as its display text.
/// The claim: the outcome depends on the text alone and is named [`uuid_parse`];
/// the accepted formats are left unsaid.
#[verifier::external_body]
fn parse_uuid(s: &str) -> (r: Result<u128, String>)
    ensures
        match r {
            Ok(u) => uuid_parse(s@) == Ok::<u128, Seq<char>>(u),
            Err(e) => uuid_parse(s@) == Err::<u128, Seq<char>>(e@),
        },
{
    uuid::Uuid::parse_str(s).map(|u| u.as_u128()).map_err(|e| e.to_string())
}

/// How a tool call names a job.
#[derive(Debug)]
pub enum JobRef {
    /// By id (the 128 bits of its UUID).
    Id(u128),
    /// By name.
    Name(String),
}

/// How the arguments name a job: an `id` (which must be a valid UUID) wins over a
/// `name`; one of them is required.
pub open spec fn spec_job_ref(args: JsonView) -> Result<Result<u128, Seq<char>>, Seq<char>> {
    match spec_str_arg(args, "id"@) {
        Some(id) => match uuid_parse(id) {
            Ok(u) => Ok(Ok(u)),
            Err(e) => Err("invalid UUID: "@ + e),
        },
        None => match spec_str_arg(args, "name"@) {
            Some(n) => Ok(Err(n)),
            None => Err("provide 'name' or 'id' argument"@),
        },
    }
}

/// Reads how a tool call names a job.
pub fn job_ref(args: &JsonValue) -> (r: Result<JobRef, String>)
    ensures
        match spec_job_ref(args@) {
            Ok(Ok(u)) => r matches Ok(JobRef::Id(x)) && x == u,
            Ok(Err(n)) => r matches Ok(JobRef::Name(x)) && x@ == n,
            Err(e) => r matches Err(x) && x@ == e,
        },
{
    match str_arg(args, "id") {
        Some(id) => match parse_uuid(id.as_str()) {
            Ok(u) => Ok(JobRef::Id(u)),
            Err(e) => {
                let mut m = String::new();
                m.append("invalid UUID: ");
                m.append(e.as_str());
                Err(m)
            },
        },
        None => match str_arg(args, "name") {
            Some(n) => Ok(JobRef::Name(n)),
            None => Err("provide 'name' or 'id' argument".to_string()),
        },
    }
}

} // verus!

verus! {

proof fn lemma_find_tool_found(tools: Seq<McpTool>, name: Seq<char>)
    ensures
        find_tool(tools, name) matches Some(i) ==> 0 <= i < tools.len() && tools[i].name@ == name,
    decreases tools.len(),
{
    if tools.len() > 0 && tools[0].name@ != name {
        lemma_find_tool_found(tools.drop_first(), name);
    }
}

/// A tool is only ever run for a key whose role may use it: whatever request
/// comes in, when the handler decides to call a tool, the tool of that name
/// allows the caller's role.
pub proof fn lemma_only_permitted_tools_run(
    accept: Seq<char>,
    role: ApiKeyRole,
    id: Option<JsonView>,
    method: Option<Seq<char>>,
    params: Option<JsonView>,
    tools: Seq<McpTool>,
)
    ensures
        spec_route(accept, role, id, method, params, tools) matches ActionView::CallTool(_, name, _)
            ==> exists|i: int|
            0 <= i < tools.len() && #[trigger] tools[i].name@ == name && tools[i].min_role.spec_allowed_for(role),
{
    if let ActionView::CallTool(_, name, _) = spec_route(accept, role, id, method, params, tools) {
        lemma_find_tool_found(tools, name);
        let i = find_tool(tools, name)->0;
        assert(tools[i].name@ == name);
    }
}

/// `tools/list` lists exactly the tools the caller's role may use, in order.
pub proof fn lemma_listed_tools_are_permitted(tools: Seq<McpTool>, role: ApiKeyRole)
    ensures
        listed_tools(tools, role) == tools.filter(|t: McpTool| t.min_role.spec_allowed_for(role)).map_values(
            |t: McpTool| tool_entry_json(t),
        ),
    decreases tools.len(),
{
    reveal_with_fuel(Seq::filter, 1);
    if tools.len() > 0 {
        lemma_listed_tools_are_permitted(tools.drop_last(), role);
        let f = tools.drop_last().filter(|t: McpTool| t.min_role.spec_allowed_for(role));
        if tools.last().min_role.spec_allowed_for(role) {
            assert(f.push(tools.last()).map_values(|t: McpTool| tool_entry_json(t)) =~= f.map_values(
                |t: McpTool| tool_entry_json(t),
            ).push(tool_entry_json(tools.last())));
        }
    }
}

} // verus!
