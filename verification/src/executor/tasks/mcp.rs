//! The MCP client side of an MCP task: the JSON-RPC messages it sends, and how a
//! tool's response becomes the task's result.
use crate::db::models::ExecutionStatus;
use crate::executor::runner::CommandResult;
use crate::executor::tasks::outcomes::{make_error, make_result, plain_result};
use crate::json::{clone_json, entries_view, get, items_view, jobj, jstr, json_get, JsonValue, JsonView};
use crate::text::{dec, join, join_strings, push_decimal, str_eq, texts};
use vstd::prelude::*;

verus! {

/// The error part of a JSON-RPC response.
pub struct McpError {
    pub code: i64,
    pub message: String,
}

/// A JSON-RPC response as the client reads it.
pub struct McpResponse {
    pub id: Option<u64>,
    pub result: Option<JsonValue>,
    pub error: Option<McpError>,
}

/// The JSON of a request: `jsonrpc`, `id`, `method`, then `params` where present.
pub open spec fn request_json(id: u64, method: Seq<char>, params: Option<JsonView>) -> JsonView {
    JsonView::Object(
        seq![
            ("jsonrpc"@, JsonView::String("2.0"@)),
            ("id"@, JsonView::Number(dec(id as nat))),
            ("method"@, JsonView::String(method)),
        ] + match params {
            Some(p) => seq![("params"@, p)],
            None => seq![],
        },
    )
}

fn request(id: u64, method: &str, params: Option<JsonValue>) -> (r: JsonValue)
    ensures
        r@ == request_json(id, method@, crate::json::opt_view(params)),
{
    let mut idt = String::new();
    push_decimal(&mut idt, id);
    let mut e = vec![
        ("jsonrpc".to_string(), jstr("2.0")),
        ("id".to_string(), JsonValue::Number(idt)),
        ("method".to_string(), jstr(method)),
    ];
    match params {
        Some(p) => e.push(("params".to_string(), p)),
        None => {},
    }
    proof {
        crate::json::lemma_entries_view(e@);
    }
    assert(entries_view(e@) =~= match request_json(id, method@, crate::json::opt_view(params)) {
        JsonView::Object(es) => es,
        _ => seq![],
    });
    jobj(e)
}

/// The parameters of the `initialize` request.
pub open spec fn initialize_params() -> JsonView {
    JsonView::Object(
        seq![
            ("capabilities"@, JsonView::Object(seq![])),
            (
                "clientInfo"@,
                JsonView::Object(
                    seq![("name"@, JsonView::String("kronforce"@)), ("version"@, JsonView::String("0.1.0"@))],
                ),
            ),
            ("protocolVersion"@, JsonView::String("2024-11-05"@)),
        ],
    )
}

/// The `initialize` request (id 1).
pub fn make_initialize_request() -> (r: JsonValue)
    ensures
        r@ == request_json(1, "initialize"@, Some(initialize_params())),
{
    let caps: Vec<(String, JsonValue)> = Vec::new();
    assert(entries_view(caps@) =~= Seq::<(Seq<char>, JsonView)>::empty());
    let info = vec![("name".to_string(), jstr("kronforce")), ("version".to_string(), jstr("0.1.0"))];
    proof {
        crate::json::lemma_entries_view(info@);
    }
    assert(entries_view(info@) =~= seq![
        ("name"@, JsonView::String("kronforce"@)),
        ("version"@, JsonView::String("0.1.0"@)),
    ]);
    let p = vec![
        ("capabilities".to_string(), jobj(caps)),
        ("clientInfo".to_string(), jobj(info)),
        ("protocolVersion".to_string(), jstr("2024-11-05")),
    ];
    proof {
        crate::json::lemma_entries_view(p@);
    }
    let ghost iv = p@[1].1@;
    assert(entries_view(p@) =~= seq![
        ("capabilities"@, JsonView::Object(seq![])),
        ("clientInfo"@, iv),
        ("protocolVersion"@, JsonView::String("2024-11-05"@)),
    ]);
    request(1, "initialize", Some(jobj(p)))
}

/// The `notifications/initialized` notification.
pub fn make_initialized_notification() -> (r: JsonValue)
    ensures
        r@ == JsonView::Object(
            seq![
                ("jsonrpc"@, JsonView::String("2.0"@)),
                ("method"@, JsonView::String("notifications/initialized"@)),
            ],
        ),
{
    let e = vec![
        ("jsonrpc".to_string(), jstr("2.0")),
        ("method".to_string(), jstr("notifications/initialized")),
    ];
    proof {
        crate::json::lemma_entries_view(e@);
    }
    assert(entries_view(e@) =~= seq![
        ("jsonrpc"@, JsonView::String("2.0"@)),
        ("method"@, JsonView::String("notifications/initialized"@)),
    ]);
    jobj(e)
}

/// The `tools/list` request (id 2).
pub fn make_tools_list_request() -> (r: JsonValue)
    ensures
        r@ == request_json(2, "tools/list"@, None),
{
    request(2, "tools/list", None)
}

/// The parameters of a `tools/call` request: the arguments (an empty object when
/// none are given) and the tool's name.
pub open spec fn tool_call_params(tool: Seq<char>, arguments: Option<JsonView>) -> JsonView {
    JsonView::Object(seq![("arguments"@, args_or_empty(arguments)), ("name"@, JsonView::String(tool))])
}

/// The arguments given, or an empty object.
pub open spec fn args_or_empty(arguments: Option<JsonView>) -> JsonView {
    match arguments {
        Some(a) => a,
        None => JsonView::Object(seq![]),
    }
}

/// The `tools/call` request (id 3) for `tool` with its arguments.
pub fn make_tool_call_request(tool: &str, arguments: Option<&JsonValue>) -> (r: JsonValue)
    ensures
        r@ == request_json(
            3,
            "tools/call"@,
            Some(
                tool_call_params(
                    tool@,
                    match arguments {
                        Some(a) => Some(a@),
                        None => None,
                    },
                ),
            ),
        ),
{
    let ghost av_opt = match arguments {
        Some(a) => Some(a@),
        None => None::<JsonView>,
    };
    let args = match arguments {
        Some(a) => clone_json(a),
        None => {
            let e: Vec<(String, JsonValue)> = Vec::new();
            assert(entries_view(e@) =~= Seq::<(Seq<char>, JsonView)>::empty());
            let o = jobj(e);
            assert(o@ == JsonView::Object(seq![]));
            o
        },
    };
    let ghost av = args@;
    assert(av == args_or_empty(av_opt));
    let p = vec![("arguments".to_string(), args), ("name".to_string(), jstr(tool))];
    proof {
        crate::json::lemma_entries_view(p@);
    }
    assert(entries_view(p@) =~= seq![("arguments"@, av), ("name"@, JsonView::String(tool@))]);
    let pj = jobj(p);
    assert(pj@ == tool_call_params(tool@, av_opt));
    request(3, "tools/call", Some(pj))
}

/// A string field of a content item, or `dflt`.
pub open spec fn field_or(item: JsonView, key: Seq<char>, dflt: Seq<char>) -> Seq<char> {
    match json_get(item, key) {
        Some(JsonView::String(s)) => s,
        _ => dflt,
    }
}

/// The URI a resource item names: its own `uri` field where it has one, else its
/// `resource`'s; `unknown` where that is not a string.
pub open spec fn resource_uri(item: JsonView) -> Seq<char> {
    let u = match json_get(item, "uri"@) {
        Some(x) => Some(x),
        None => match json_get(item, "resource"@) {
            Some(r) => json_get(r, "uri"@),
            None => None,
        },
    };
    match u {
        Some(JsonView::String(s)) => s,
        _ => "unknown"@,
    }
}

/// The text a content item contributes to the output, if any.
pub open spec fn content_part(item: JsonView) -> Option<Seq<char>> {
    let ty = field_or(item, "type"@, seq![]);
    if ty == "text"@ {
        match json_get(item, "text"@) {
            Some(JsonView::String(t)) => Some(t),
            _ => None,
        }
    } else if ty == "image"@ {
        Some("[image: "@ + field_or(item, "mimeType"@, "image/*"@) + "]"@)
    } else if ty == "audio"@ {
        Some("[audio: "@ + field_or(item, "mimeType"@, "audio/*"@) + "]"@)
    } else if ty == "resource"@ || ty == "resource_link"@ {
        Some("[resource: "@ + resource_uri(item) + "]"@)
    } else {
        Some("["@ + ty + ": ...]"@)
    }
}

/// The parts of the output, item by item.
pub open spec fn content_parts(items: Seq<JsonView>) -> Seq<Seq<char>>
    decreases items.len(),
{
    if items.len() == 0 {
        seq![]
    } else {
        let prev = content_parts(items.drop_last());
        match content_part(items.last()) {
            Some(p) => prev.push(p),
            None => prev,
        }
    }
}

/// What a tool's response comes to: status, exit code, stdout and stderr.
pub open spec fn spec_map_response(error: Option<Seq<char>>, result: Option<JsonView>) -> (
    ExecutionStatus,
    Option<i32>,
    Seq<char>,
    Seq<char>,
) {
    match error {
        Some(m) => (ExecutionStatus::Failed, Some(1), seq![], "tool error: "@ + m),
        None => match result {
            None => (ExecutionStatus::Failed, Some(1), seq![], "empty tool response"@),
            Some(r) => {
                let is_error = match json_get(r, "isError"@) {
                    Some(JsonView::Bool(b)) => b,
                    _ => false,
                };
                let items = match json_get(r, "content"@) {
                    Some(JsonView::Array(items)) => items,
                    _ => seq![],
                };
                let out = join(content_parts(items), seq!['\n']);
                if is_error {
                    (ExecutionStatus::Failed, Some(1), seq![], out)
                } else {
                    (ExecutionStatus::Succeeded, Some(0), out, seq![])
                }
            },
        },
    }
}

fn str_field_or(item: &JsonValue, key: &str, dflt: &str) -> (r: String)
    ensures
        r@ == field_or(item@, key@, dflt@),
{
    match get(item, key) {
        Some(JsonValue::String(s)) => s.clone(),
        _ => dflt.to_string(),
    }
}

fn bracketed(prefix: &str, middle: &str, suffix: &str) -> (r: String)
    ensures
        r@ == prefix@ + middle@ + suffix@,
{
    let mut s = String::new();
    s.append(prefix);
    s.append(middle);
    s.append(suffix);
    s
}

fn prefixed(prefix: &str, detail: &str) -> (r: String)
    ensures
        r@ == prefix@ + detail@,
{
    let mut s = String::new();
    s.append(prefix);
    s.append(detail);
    s
}

fn item_part(item: &JsonValue) -> (r: Option<String>)
    ensures
        match content_part(item@) {
            Some(p) => r matches Some(x) && x@ == p,
            None => r is None,
        },
{
    proof {
        reveal_strlit("");
    }
    let ty = str_field_or(item, "type", "");
    assert(""@ =~= Seq::<char>::empty());
    if str_eq(ty.as_str(), "text") {
        match get(item, "text") {
            Some(JsonValue::String(t)) => Some(t.clone()),
            _ => None,
        }
    } else if str_eq(ty.as_str(), "image") {
        Some(bracketed("[image: ", str_field_or(item, "mimeType", "image/*").as_str(), "]"))
    } else if str_eq(ty.as_str(), "audio") {
        Some(bracketed("[audio: ", str_field_or(item, "mimeType", "audio/*").as_str(), "]"))
    } else if str_eq(ty.as_str(), "resource") || str_eq(ty.as_str(), "resource_link") {
        let u = match get(item, "uri") {
            Some(x) => Some(x),
            None => match get(item, "resource") {
                Some(r) => get(r, "uri"),
                None => None,
            },
        };
        let uri = match u {
            Some(JsonValue::String(s)) => s.clone(),
            _ => "unknown".to_string(),
        };
        Some(bracketed("[resource: ", uri.as_str(), "]"))
    } else {
        Some(bracketed("[", ty.as_str(), ": ...]"))
    }
}

/// Turns a tool's response into the task's result.
pub fn map_response(resp: McpResponse) -> (r: CommandResult)
    ensures
        ({
            let o = spec_map_response(
                match resp.error {
                    Some(e) => Some(e.message@),
                    None => None,
                },
                crate::json::opt_view(resp.result),
            );
            plain_result(r, o.0, o.1, o.2, o.3)
        }),
{
    match resp.error {
        Some(err) => {
            return make_error(1, prefixed("tool error: ", err.message.as_str()));
        },
        None => {},
    }
    let result = match resp.result {
        Some(r) => r,
        None => return make_error(1, "empty tool response".to_string()),
    };
    let is_error = match get(&result, "isError") {
        Some(JsonValue::Bool(b)) => *b,
        _ => false,
    };
    let mut parts: Vec<String> = Vec::new();
    let ghost items = match json_get(result@, "content"@) {
        Some(JsonView::Array(items)) => items,
        _ => seq![],
    };
    match get(&result, "content") {
        Some(JsonValue::Array(content)) => {
            proof {
                crate::json::lemma_items_view(content@);
            }
            let mut i: usize = 0;
            while i < content.len()
                invariant
                    i <= content@.len(),
                    items == items_view(content@),
                    items.len() == content@.len(),
                    forall|k: int| 0 <= k < content@.len() ==> #[trigger] items[k] == content@[k]@,
                    texts(parts@) == content_parts(items.take(i as int)),
                decreases content.len() - i,
            {
                assert(items.take(i + 1).drop_last() =~= items.take(i as int));
                assert(items.take(i + 1).last() == content@[i as int]@);
                match item_part(&content[i]) {
                    Some(p) => {
                        let ghost before = texts(parts@);
                        parts.push(p);
                        assert(texts(parts@) =~= before.push(parts@.last()@));
                    },
                    None => {},
                }
                i = i + 1;
            }
            assert(items.take(content@.len() as int) =~= items);
        },
        _ => {},
    }
    proof {
        reveal_strlit("\n");
        assert("\n"@ =~= seq!['\n']);
    }
    let out = join_strings(&parts, "\n");
    if is_error {
        make_result(ExecutionStatus::Failed, Some(1), String::new(), out)
    } else {
        make_result(ExecutionStatus::Succeeded, Some(0), out, String::new())
    }
}

/// The tools a `tools/list` response lists, or why there are none.
pub fn tools_from_response(resp: McpResponse) -> (r: Result<Vec<JsonValue>, String>)
    ensures
        match resp.error {
            Some(e) => r matches Err(m) && m@ == "tools/list error: "@ + e.message@,
            None => match resp.result {
                None => r matches Err(m) && m@ == "empty tools/list response"@,
                Some(x) => r matches Ok(v) && items_view(v@) == match json_get(x@, "tools"@) {
                    Some(JsonView::Array(t)) => t,
                    _ => seq![],
                },
            },
        },
{
    match resp.error {
        Some(err) => {
            return Err(prefixed("tools/list error: ", err.message.as_str()));
        },
        None => {},
    }
    let result = match resp.result {
        Some(r) => r,
        None => return Err("empty tools/list response".to_string()),
    };
    match get(&result, "tools") {
        Some(JsonValue::Array(t)) => {
            let mut v: Vec<JsonValue> = Vec::new();
            let mut i: usize = 0;
            proof {
                crate::json::lemma_items_view(t@);
            }
            while i < t.len()
                invariant
                    i <= t@.len(),
                    items_view(v@) == items_view(t@).take(i as int),
                    items_view(t@).len() == t@.len(),
                    forall|k: int| 0 <= k < t@.len() ==> #[trigger] items_view(t@)[k] == t@[k]@,
                decreases t.len() - i,
            {
                let ghost before = v@;
                v.push(clone_json(&t[i]));
                assert(v@.drop_last() =~= before);
                assert(items_view(t@).take(i + 1) =~= items_view(t@).take(i as int).push(t@[i as int]@));
                i = i + 1;
            }
            assert(items_view(t@).take(t@.len() as int) =~= items_view(t@));
            Ok(v)
        },
        _ => {
            let v: Vec<JsonValue> = Vec::new();
            assert(items_view(v@) =~= Seq::<JsonView>::empty());
            Ok(v)
        },
    }
}

/// Whether the handshake's response reports an error, and which.
pub fn handshake_check(resp: &McpResponse) -> (r: Result<(), String>)
    ensures
        match resp.error {
            Some(e) => r matches Err(m) && m@ == "handshake error: "@ + e.message@,
            None => r is Ok,
        },
{
    match &resp.error {
        Some(e) => Err(prefixed("handshake error: ", e.message.as_str())),
        None => Ok(()),
    }
}

/// The result when the handshake failed.
pub fn handshake_failed(error: &str) -> (r: CommandResult)
    ensures
        plain_result(r, ExecutionStatus::Failed, Some(-1i32), seq![], "MCP handshake failed: "@ + error@),
{
    make_error(-1, prefixed("MCP handshake failed: ", error))
}

/// The result when the tool call could not be made.
pub fn tool_call_failed(error: &str) -> (r: CommandResult)
    ensures
        plain_result(r, ExecutionStatus::Failed, Some(1), seq![], "MCP tool call failed: "@ + error@),
{
    make_error(1, prefixed("MCP tool call failed: ", error))
}

/// The result when an MCP task ran out of time.
pub fn mcp_timed_out(timeout_secs: Option<u64>) -> (r: CommandResult)
    ensures
        plain_result(
            r,
            ExecutionStatus::TimedOut,
            None,
            seq![],
            "MCP task timed out after "@ + dec(
                match timeout_secs {
                    Some(t) => t as nat,
                    None => 0,
                },
            ) + "s"@,
        ),
{
    let mut m = String::new();
    m.append("MCP task timed out after ");
    push_decimal(
        &mut m,
        match timeout_secs {
            Some(t) => t,
            None => 0,
        },
    );
    m.append("s");
    make_result(ExecutionStatus::TimedOut, None, String::new(), m)
}

/// The result when an MCP task was cancelled.
pub fn mcp_cancelled() -> (r: CommandResult)
    ensures
        plain_result(r, ExecutionStatus::Cancelled, None, seq![], "MCP task cancelled by user"@),
{
    make_result(ExecutionStatus::Cancelled, None, String::new(), "MCP task cancelled by user".to_string())
}

/// What one line of a response body offers as a JSON-RPC response, trimmed: the
/// payload of a `data: ` line, or a bare line that starts with `{` (which counts
/// only when the response it holds has an id).
pub open spec fn sse_line_candidate(line: Seq<char>) -> Option<(Seq<char>, bool)> {
    let t = crate::text::trim_ws(line);
    if crate::text::is_prefix("data: "@, t) {
        Some((t.skip(6), false))
    } else if t.len() > 0 && t[0] == '{' {
        Some((t, true))
    } else {
        None
    }
}

/// The candidates of the lines, in order.
pub open spec fn sse_candidates_of(lines: Seq<Seq<char>>) -> Seq<(Seq<char>, bool)>
    decreases lines.len(),
{
    if lines.len() == 0 {
        seq![]
    } else {
        let prev = sse_candidates_of(lines.drop_last());
        match sse_line_candidate(lines.last()) {
            Some(c) => prev.push(c),
            None => prev,
        }
    }
}

/// A candidate as text and its flag.
pub open spec fn candidate_view(c: (String, bool)) -> (Seq<char>, bool) {
    (c.0@, c.1)
}

/// The texts to try, in order, as the JSON-RPC response in an event-stream body,
/// each flagged when it counts only with an id.
pub fn sse_candidates(body: &str) -> (r: Vec<(String, bool)>)
    ensures
        r@.map_values(|c: (String, bool)| candidate_view(c)) == sse_candidates_of(
            crate::executor::tasks::outcomes::spec_lines(body@),
        ),
{
    let lines = crate::executor::tasks::outcomes::text_lines(body);
    let ghost ls = texts(lines@);
    let prefix = crate::text::chars_of("data: ");
    proof {
        reveal_strlit("data: ");
    }
    assert(prefix@.len() == 6);
    let mut r: Vec<(String, bool)> = Vec::new();
    let mut i: usize = 0;
    while i < lines.len()
        invariant
            i <= lines@.len(),
            ls == texts(lines@),
            prefix@ == "data: "@,
            prefix@.len() == 6,
            r@.map_values(|c: (String, bool)| candidate_view(c)) == sse_candidates_of(ls.take(i as int)),
        decreases lines.len() - i,
    {
        let t = crate::text::trim_chars(crate::text::chars_of(lines[i].as_str()).as_slice());
        let ghost before = r@;
        assert(ls.take(i + 1).drop_last() =~= ls.take(i as int));
        assert(ls.take(i + 1).last() == lines@[i as int]@);
        if crate::text::starts_with(t.as_slice(), prefix.as_slice()) {
            let rest = crate::text::slice_chars(t.as_slice(), 6, t.len());
            assert(rest@ =~= t@.skip(6));
            r.push((crate::text::string_from_chars(rest.as_slice()), false));
        } else if t.len() > 0 && t[0] == '{' {
            r.push((crate::text::string_from_chars(t.as_slice()), true));
        }
        assert(r@.map_values(|c: (String, bool)| candidate_view(c)) =~= sse_candidates_of(
            ls.take(i + 1),
        ));
        i = i + 1;
    }
    assert(ls.take(lines@.len() as int) =~= ls);
    r
}

/// The non-empty lines of a body, trimmed, in order.
pub open spec fn filled_lines(lines: Seq<Seq<char>>) -> Seq<Seq<char>>
    decreases lines.len(),
{
    if lines.len() == 0 {
        seq![]
    } else {
        let prev = filled_lines(lines.drop_last());
        let t = crate::text::trim_ws(lines.last());
        if t.len() > 0 {
            prev.push(t)
        } else {
            prev
        }
    }
}

/// The texts to try, in order, as the JSON-RPC response of a plain JSON body, each
/// counting only with an id (before the whole body is read as one response).
pub fn json_line_candidates(body: &str) -> (r: Vec<String>)
    ensures
        texts(r@) == filled_lines(crate::executor::tasks::outcomes::spec_lines(body@)),
{
    let lines = crate::executor::tasks::outcomes::text_lines(body);
    let ghost ls = texts(lines@);
    let mut r: Vec<String> = Vec::new();
    let mut i: usize = 0;
    while i < lines.len()
        invariant
            i <= lines@.len(),
            ls == texts(lines@),
            texts(r@) == filled_lines(ls.take(i as int)),
        decreases lines.len() - i,
    {
        let t = crate::text::trim_chars(crate::text::chars_of(lines[i].as_str()).as_slice());
        assert(ls.take(i + 1).drop_last() =~= ls.take(i as int));
        assert(ls.take(i + 1).last() == lines@[i as int]@);
        if t.len() > 0 {
            let ghost before = texts(r@);
            r.push(crate::text::string_from_chars(t.as_slice()));
            assert(texts(r@) =~= before.push(t@));
        }
        i = i + 1;
    }
    assert(ls.take(lines@.len() as int) =~= ls);
    r
}

} // verus!
