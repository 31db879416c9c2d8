//! Connection resolution: a task that names a connection gets the connection's
//! settings merged into its fields at execution time; fields the task sets itself
//! win.
use crate::error::{AppError, ErrorKind};
use crate::json::{
    clone_json, entries_get, entries_view, get, get_entry, json_get, json_parse, object_insert,
    obj_insert, parse_json, JsonValue, JsonView,
};
use crate::text::{chars_of, contains_chars, contains_seq, is_prefix, str_eq};
use vstd::prelude::*;

verus! {

/// The character of the standard base64 alphabet for the six-bit value `d`:
/// `A`-`Z`, `a`-`z`, `0`-`9`, `+`, `/`.
pub open spec fn b64_char(d: int) -> char {
    if d < 26 {
        (65 + d) as char
    } else if d < 52 {
        (71 + d) as char
    } else if d < 62 {
        (d - 4) as char
    } else if d == 62 {
        '+'
    } else {
        '/'
    }
}

/// Standard base64 of `b`: each three bytes become four characters, and a last
/// group of one or two bytes is padded with `=` to four.
pub open spec fn base64_of(b: Seq<u8>) -> Seq<char>
    decreases b.len(),
{
    if b.len() == 0 {
        seq![]
    } else if b.len() == 1 {
        seq![b64_char(b[0] as int / 4), b64_char((b[0] as int % 4) * 16), '=', '=']
    } else if b.len() == 2 {
        seq![
            b64_char(b[0] as int / 4),
            b64_char((b[0] as int % 4) * 16 + b[1] as int / 16),
            b64_char((b[1] as int % 16) * 4),
            '=',
        ]
    } else {
        seq![
            b64_char(b[0] as int / 4),
            b64_char((b[0] as int % 4) * 16 + b[1] as int / 16),
            b64_char((b[1] as int % 16) * 4 + b[2] as int / 64),
            b64_char(b[2] as int % 64),
        ] + base64_of(b.skip(3))
    }
}

/// The standard-alphabet, padded base64 encoding of the UTF-8 bytes of `text`.
pub open spec fn base64_standard(text: Seq<char>) -> Seq<char> {
    base64_of(vstd::utf8::encode_utf8(text))
}

/// `base64::engine::general_purpose::STANDARD.encode(text)`: the claim is that it
/// writes the standard, padded base64 of the text's UTF-8 bytes.
#[verifier::external_body]
fn base64_encode(text: &str) -> (r: String)
    ensures
        r@ == base64_standard(text@),
{
    base64::Engine::encode(&base64::engine::general_purpose::STANDARD, text)
}

/// `s` without trailing `c` characters (what `trim_end_matches(c)` gives).
pub open spec fn trim_end_char(s: Seq<char>, c: char) -> Seq<char>
    decreases s.len(),
{
    if s.len() > 0 && s.last() == c {
        trim_end_char(s.drop_last(), c)
    } else {
        s
    }
}

fn trim_end_slashes(s: &str) -> (r: String)
    ensures
        r@ == trim_end_char(s@, '/'),
{
    let cs = chars_of(s);
    let mut n: usize = cs.len();
    assert(cs@.take(n as int) =~= cs@);
    while n > 0 && cs[n - 1] == '/'
        invariant
            n <= cs@.len(),
            cs@ == s@,
            trim_end_char(s@, '/') == trim_end_char(cs@.take(n as int), '/'),
        decreases n,
    {
        assert(cs@.take(n as int).drop_last() =~= cs@.take(n - 1));
        n = n - 1;
    }
    let r = crate::text::string_from_chars(crate::text::slice_chars(cs.as_slice(), 0, n).as_slice());
    assert(cs@.subrange(0, n as int) =~= cs@.take(n as int));
    r
}

/// Whether a task field counts as unset: absent, `null` or the empty string.
pub open spec fn is_blank(v: Option<JsonView>) -> bool {
    match v {
        None => true,
        Some(JsonView::Null) => true,
        Some(JsonView::String(s)) => s.len() == 0,
        _ => false,
    }
}

/// The connection settings that only feed the HTTP auth header.
pub open spec fn is_auth_field(k: Seq<char>) -> bool {
    k == "auth_type"@ || k == "token"@ || k == "header_name"@ || k == "header_value"@
}

/// The task's fields after one connection setting is merged in.
pub open spec fn merge_step(task: Seq<(Seq<char>, JsonView)>, key: Seq<char>, val: JsonView) -> Seq<
    (Seq<char>, JsonView),
> {
    if key == "base_url"@ {
        match entries_get(task, "url"@) {
            Some(JsonView::String(u)) => if is_prefix(seq!['/'], u) {
                match val {
                    JsonView::String(base) => obj_insert(
                        task,
                        "url"@,
                        JsonView::String(trim_end_char(base, '/') + u),
                    ),
                    _ => task,
                }
            } else {
                task
            },
            _ => task,
        }
    } else if is_auth_field(key) {
        task
    } else if is_blank(entries_get(task, key)) {
        obj_insert(task, key, val)
    } else {
        task
    }
}

/// The task's fields after every connection setting is merged in, in order.
pub open spec fn merge_all(task: Seq<(Seq<char>, JsonView)>, config: Seq<(Seq<char>, JsonView)>) -> Seq<
    (Seq<char>, JsonView),
>
    decreases config.len(),
{
    if config.len() == 0 {
        task
    } else {
        merge_step(merge_all(task, config.drop_last()), config.last().0, config.last().1)
    }
}

/// A string setting of the connection.
pub open spec fn str_setting(config: Seq<(Seq<char>, JsonView)>, key: Seq<char>) -> Option<Seq<char>> {
    match entries_get(config, key) {
        Some(JsonView::String(s)) => Some(s),
        _ => None,
    }
}

/// A string setting, or `dflt` where it is missing.
pub open spec fn str_setting_or(
    config: Seq<(Seq<char>, JsonView)>,
    key: Seq<char>,
    dflt: Seq<char>,
) -> Seq<char> {
    match str_setting(config, key) {
        Some(s) => s,
        None => dflt,
    }
}

/// The header an auth type adds, if any.
pub open spec fn auth_header(auth_type: Seq<char>, config: Seq<(Seq<char>, JsonView)>) -> Option<
    (Seq<char>, JsonView),
> {
    if auth_type == "bearer"@ {
        match str_setting(config, "token"@) {
            Some(t) => Some(("Authorization"@, JsonView::String("Bearer "@ + t))),
            None => None,
        }
    } else if auth_type == "basic"@ {
        let user = str_setting_or(config, "username"@, seq![]);
        let pass = str_setting_or(config, "password"@, seq![]);
        Some(
            (
                "Authorization"@,
                JsonView::String("Basic "@ + base64_standard(user + seq![':'] + pass)),
            ),
        )
    } else if auth_type == "header"@ {
        Some(
            (
                str_setting_or(config, "header_name"@, "X-API-Key"@),
                JsonView::String(str_setting_or(config, "header_value"@, seq![])),
            ),
        )
    } else {
        None
    }
}

/// The task's fields after the connection's HTTP auth is put into its headers: an
/// empty header map is created where there is none, and an existing
/// `Authorization` header is never replaced.
pub open spec fn spec_inject(task: Seq<(Seq<char>, JsonView)>, config: Seq<(Seq<char>, JsonView)>) -> Seq<
    (Seq<char>, JsonView),
> {
    let auth_type = str_setting_or(config, "auth_type"@, "none"@);
    if auth_type == "none"@ {
        task
    } else {
        let t2 = match entries_get(task, "headers"@) {
            None => obj_insert(task, "headers"@, JsonView::Object(seq![])),
            Some(_) => task,
        };
        match entries_get(t2, "headers"@) {
            Some(JsonView::Object(h)) => if entries_get(h, "Authorization"@) is Some || entries_get(
                h,
                "authorization"@,
            ) is Some {
                t2
            } else {
                match auth_header(auth_type, config) {
                    Some((k, v)) => obj_insert(t2, "headers"@, JsonView::Object(obj_insert(h, k, v))),
                    None => t2,
                }
            },
            _ => t2,
        }
    }
}

/// A task with a connection's settings applied.
pub open spec fn spec_apply_connection(task: JsonView, config: JsonView) -> JsonView {
    match (task, config) {
        (JsonView::Object(t), JsonView::Object(c)) => {
            let m = merge_all(t, c);
            JsonView::Object(
                if entries_get(c, "auth_type"@) is Some {
                    spec_inject(m, c)
                } else {
                    m
                },
            )
        },
        _ => task,
    }
}

fn str_field(config: &Vec<(String, JsonValue)>, key: &str) -> (r: Option<String>)
    ensures
        match str_setting(entries_view(config@), key@) {
            Some(s) => r matches Some(x) && x@ == s,
            None => r is None,
        },
{
    match get_entry(config, key) {
        Some(JsonValue::String(s)) => Some(s.clone()),
        _ => None,
    }
}

fn str_field_or(config: &Vec<(String, JsonValue)>, key: &str, dflt: &str) -> (r: String)
    ensures
        r@ == str_setting_or(entries_view(config@), key@, dflt@),
{
    match str_field(config, key) {
        Some(s) => s,
        None => dflt.to_string(),
    }
}

fn merge_field(t: &mut Vec<(String, JsonValue)>, key: &String, val: &JsonValue)
    ensures
        entries_view(final(t)@) == merge_step(entries_view(old(t)@), key@, val@),
{
    if str_eq(key.as_str(), "base_url") {
        let new_url: Option<String> = match get_entry(t, "url") {
            Some(JsonValue::String(u)) => {
                let uc = chars_of(u.as_str());
                let slash = vec!['/'];
                assert(slash@ =~= seq!['/']);
                if crate::text::starts_with(uc.as_slice(), slash.as_slice()) {
                    match val {
                        JsonValue::String(base) => {
                            let mut full = trim_end_slashes(base.as_str());
                            full.append(u.as_str());
                            Some(full)
                        },
                        _ => None,
                    }
                } else {
                    None
                }
            },
            _ => None,
        };
        match new_url {
            Some(full) => object_insert(t, "url".to_string(), JsonValue::String(full)),
            None => {},
        }
    } else if str_eq(key.as_str(), "auth_type") || str_eq(key.as_str(), "token") || str_eq(
        key.as_str(),
        "header_name",
    ) || str_eq(key.as_str(), "header_value") {
    } else {
        let blank = match get_entry(t, key.as_str()) {
            None => true,
            Some(JsonValue::Null) => true,
            Some(JsonValue::String(s)) => s.unicode_len() == 0,
            _ => false,
        };
        if blank {
            object_insert(t, key.clone(), clone_json(val));
        }
    }
}

fn auth_header_entry(auth_type: &str, config: &Vec<(String, JsonValue)>) -> (r: Option<
    (String, JsonValue),
>)
    ensures
        match auth_header(auth_type@, entries_view(config@)) {
            Some((k, v)) => r matches Some(x) && x.0@ == k && x.1@ == v,
            None => r is None,
        },
{
    if str_eq(auth_type, "bearer") {
        match str_field(config, "token") {
            Some(tok) => {
                let mut h = String::new();
                h.append("Bearer ");
                h.append(tok.as_str());
                Some(("Authorization".to_string(), JsonValue::String(h)))
            },
            None => None,
        }
    } else if str_eq(auth_type, "basic") {
        proof {
            reveal_strlit("");
            reveal_strlit(":");
            assert(""@ =~= Seq::<char>::empty());
            assert(":"@ =~= seq![':']);
        }
        let user = str_field_or(config, "username", "");
        let mut cred = user.clone();
        cred.append(":");
        let pass = str_field_or(config, "password", "");
        cred.append(pass.as_str());
        assert(cred@ =~= user@ + seq![':'] + pass@);
        let mut h = String::new();
        h.append("Basic ");
        h.append(base64_encode(cred.as_str()).as_str());
        Some(("Authorization".to_string(), JsonValue::String(h)))
    } else if str_eq(auth_type, "header") {
        proof {
            reveal_strlit("");
            assert(""@ =~= Seq::<char>::empty());
        }
        let name = str_field_or(config, "header_name", "X-API-Key");
        let value = str_field_or(config, "header_value", "");
        Some((name, JsonValue::String(value)))
    } else {
        None
    }
}

fn inject_http_auth(t: &mut Vec<(String, JsonValue)>, config: &Vec<(String, JsonValue)>)
    ensures
        entries_view(final(t)@) == spec_inject(entries_view(old(t)@), entries_view(config@)),
{
    let auth_type = str_field_or(config, "auth_type", "none");
    if str_eq(auth_type.as_str(), "none") {
        return;
    }
    let ghost t0 = entries_view(t@);
    if get_entry(t, "headers").is_none() {
        object_insert(t, "headers".to_string(), JsonValue::Object(Vec::new()));
    }
    let ghost t2 = entries_view(t@);
    let hv = match get_entry(t, "headers") {
        Some(v) => clone_json(v),
        None => return ,
    };
    match hv {
        JsonValue::Object(mut h) => {
            if get_entry(&h, "Authorization").is_some() || get_entry(&h, "authorization").is_some() {
                return ;
            }
            match auth_header_entry(auth_type.as_str(), config) {
                Some((k, v)) => {
                    object_insert(&mut h, k, v);
                    object_insert(t, "headers".to_string(), JsonValue::Object(h));
                },
                None => {},
            }
        },
        _ => {},
    }
}

/// Applies a connection's settings to a task's JSON: every setting fills a task
/// field that is unset, `base_url` prefixes a task `url` that is a path, and the
/// connection's HTTP auth becomes a header.
pub fn apply_connection(task: JsonValue, config: &JsonValue) -> (r: JsonValue)
    ensures
        r@ == spec_apply_connection(task@, config@),
{
    match task {
        JsonValue::Object(mut t) => match config {
            JsonValue::Object(c) => {
                proof {
                    crate::json::lemma_entries_view(c@);
                }
                let ghost cv = entries_view(c@);
                let ghost t0 = entries_view(t@);
                let mut i: usize = 0;
                while i < c.len()
                    invariant
                        i <= c@.len(),
                        cv == entries_view(c@),
                        cv.len() == c@.len(),
                        forall|j: int|
                            0 <= j < c@.len() ==> #[trigger] cv[j] == (
                                c@[j].0@,
                                crate::json::jv(c@[j].1),
                            ),
                        entries_view(t@) == merge_all(t0, cv.take(i as int)),
                    decreases c.len() - i,
                {
                    assert(cv.take(i + 1).drop_last() =~= cv.take(i as int));
                    assert(cv.take(i + 1).last() == cv[i as int]);
                    merge_field(&mut t, &c[i].0, &c[i].1);
                    i = i + 1;
                }
                assert(cv.take(c@.len() as int) =~= cv);
                if get_entry(c, "auth_type").is_some() {
                    inject_http_auth(&mut t, c);
                }
                JsonValue::Object(t)
            },
            _ => JsonValue::Object(t),
        },
        other => other,
    }
}

/// What a task's JSON says of a connection: the connection's name and the task's
/// parsed JSON when it names a non-empty one.
pub open spec fn spec_connection_reference(task_json: Seq<char>) -> Result<
    Option<(Seq<char>, JsonView)>,
    (ErrorKind, Seq<char>),
> {
    if !contains_seq(task_json, "\"connection\""@) {
        Ok(None)
    } else {
        match json_parse(task_json) {
            Err(e) => Err((ErrorKind::Internal, "json: "@ + e)),
            Ok(v) => match json_get(v, "connection"@) {
                Some(JsonView::String(name)) => if name.len() > 0 {
                    Ok(Some((name, v)))
                } else {
                    Ok(None)
                },
                _ => Ok(None),
            },
        }
    }
}

/// Reads which connection, if any, a task's JSON refers to, with the parsed task.
pub fn connection_reference(task_json: &str) -> (r: Result<Option<(String, JsonValue)>, AppError>)
    ensures
        match spec_connection_reference(task_json@) {
            Ok(None) => r matches Ok(None),
            Ok(Some((n, v))) => r matches Ok(Some(x)) && x.0@ == n && x.1@ == v,
            Err(e) => r matches Err(x) && x@ == e,
        },
{
    let needle = chars_of("\"connection\"");
    if !contains_chars(chars_of(task_json).as_slice(), needle.as_slice()) {
        return Ok(None);
    }
    let v = match parse_json(task_json) {
        Ok(v) => v,
        Err(e) => {
            let mut m = String::new();
            m.append("json: ");
            m.append(e.as_str());
            return Err(AppError::Internal(m));
        },
    };
    let name = match get(&v, "connection") {
        Some(JsonValue::String(s)) => s.clone(),
        _ => return Ok(None),
    };
    if name.unicode_len() == 0 {
        return Ok(None);
    }
    Ok(Some((name, v)))
}

/// The error for a task naming a connection that does not exist.
pub fn connection_not_found(name: &str) -> (r: AppError)
    ensures
        r@ == (ErrorKind::BadRequest, "connection '"@ + name@ + "' not found"@),
{
    let mut m = String::new();
    m.append("connection '");
    m.append(name);
    m.append("' not found");
    AppError::BadRequest(m)
}

} // verus!

verus! {

proof fn lemma_merge_step_other(
    t: Seq<(Seq<char>, JsonView)>,
    key: Seq<char>,
    val: JsonView,
    k: Seq<char>,
)
    requires
        k != "url"@,
    ensures
        key != k ==> entries_get(merge_step(t, key, val), k) == entries_get(t, k),
        !is_blank(entries_get(t, k)) ==> entries_get(merge_step(t, key, val), k) == entries_get(t, k),
        key == k && key != "base_url"@ && !is_auth_field(key) && is_blank(entries_get(t, k))
            ==> entries_get(merge_step(t, key, val), k) == Some(val),
{
    if key == "base_url"@ {
        if let Some(JsonView::String(u)) = entries_get(t, "url"@) {
            if let JsonView::String(base) = val {
                crate::json::lemma_obj_insert_get(
                    t,
                    "url"@,
                    JsonView::String(trim_end_char(base, '/') + u),
                    k,
                );
            }
        }
    } else if !is_auth_field(key) && is_blank(entries_get(t, key)) {
        crate::json::lemma_obj_insert_get(t, key, val, k);
    }
}

proof fn lemma_merge_all_keeps(t: Seq<(Seq<char>, JsonView)>, c: Seq<(Seq<char>, JsonView)>, k: Seq<char>)
    requires
        k != "url"@,
        !is_blank(entries_get(t, k)),
    ensures
        entries_get(merge_all(t, c), k) == entries_get(t, k),
    decreases c.len(),
{
    if c.len() > 0 {
        lemma_merge_all_keeps(t, c.drop_last(), k);
        lemma_merge_step_other(merge_all(t, c.drop_last()), c.last().0, c.last().1, k);
    }
}

proof fn lemma_merge_all_fills(t: Seq<(Seq<char>, JsonView)>, c: Seq<(Seq<char>, JsonView)>, k: Seq<char>)
    requires
        k != "url"@,
        k != "base_url"@,
        !is_auth_field(k),
        is_blank(entries_get(t, k)),
        crate::json::distinct_keys(c),
    ensures
        entries_get(merge_all(t, c), k) == (match entries_get(c, k) {
            Some(v) => Some(v),
            None => entries_get(t, k),
        }),
    decreases c.len(),
{
    if c.len() > 0 {
        let p = c.drop_last();
        let e = c.last();
        assert(crate::json::distinct_keys(p)) by {
            assert forall|i: int, j: int| 0 <= i < j < p.len() implies #[trigger] p[i].0
                != #[trigger] p[j].0 by {
                assert(p[i] == c[i] && p[j] == c[j]);
            }
        }
        lemma_merge_all_fills(t, p, k);
        let m = merge_all(t, p);
        lemma_merge_step_other(m, e.0, e.1, k);
        assert(p.push(e) =~= c);
        crate::json::lemma_entries_get_push(p, e, k);
        crate::json::lemma_entries_get_found(p, k);
        if let Some(v) = entries_get(p, k) {
            let i = choose|i: int| 0 <= i < p.len() && #[trigger] p[i] == (k, v);
            assert(c[i] == p[i]);
            assert(c[c.len() - 1] == e);
            assert(c[i].0 != c[c.len() - 1].0);
        }
    }
}

proof fn lemma_inject_other(t: Seq<(Seq<char>, JsonView)>, c: Seq<(Seq<char>, JsonView)>, k: Seq<char>)
    requires
        k != "headers"@,
    ensures
        entries_get(spec_inject(t, c), k) == entries_get(t, k),
{
    let auth_type = str_setting_or(c, "auth_type"@, "none"@);
    if auth_type != "none"@ {
        let t2 = match entries_get(t, "headers"@) {
            None => obj_insert(t, "headers"@, JsonView::Object(seq![])),
            Some(_) => t,
        };
        crate::json::lemma_obj_insert_get(t, "headers"@, JsonView::Object(seq![]), k);
        if let Some(JsonView::Object(h)) = entries_get(t2, "headers"@) {
            if let Some((hk, hv)) = auth_header(auth_type, c) {
                crate::json::lemma_obj_insert_get(
                    t2,
                    "headers"@,
                    JsonView::Object(obj_insert(h, hk, hv)),
                    k,
                );
            }
        }
    }
}

/// Fields the task sets itself win: a task field that is set (not absent, `null`
/// or empty) keeps its value when a connection is applied, except `url`, which
/// `base_url` may prefix, and `headers`, which the connection's auth extends.
pub proof fn lemma_task_fields_win(task: JsonView, config: JsonView, k: Seq<char>)
    requires
        task is Object,
        k != "url"@,
        k != "headers"@,
        !is_blank(json_get(task, k)),
    ensures
        json_get(spec_apply_connection(task, config), k) == json_get(task, k),
{
    if let (JsonView::Object(t), JsonView::Object(c)) = (task, config) {
        lemma_merge_all_keeps(t, c, k);
        lemma_inject_other(merge_all(t, c), c, k);
    }
}

/// Unset task fields are filled from the connection: where the task leaves a
/// field unset and the connection (a parsed object, so each setting named once)
/// has a setting of that name, the task gets that setting's value. `url`,
/// `headers`, `base_url` and the auth settings are the exceptions.
pub proof fn lemma_unset_fields_filled(task: JsonView, config: JsonView, k: Seq<char>)
    requires
        task is Object,
        config is Object,
        crate::json::json_wf(config),
        k != "url"@,
        k != "headers"@,
        k != "base_url"@,
        !is_auth_field(k),
        is_blank(json_get(task, k)),
    ensures
        json_get(spec_apply_connection(task, config), k) == (match json_get(config, k) {
            Some(v) => Some(v),
            None => json_get(task, k),
        }),
{
    if let (JsonView::Object(t), JsonView::Object(c)) = (task, config) {
        lemma_merge_all_fills(t, c, k);
        lemma_inject_other(merge_all(t, c), c, k);
    }
}

} // verus!
