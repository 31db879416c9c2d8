//! What the dashboard's charts and group lists are computed from: labels for
//! task, schedule and outcome kinds, their tallies, the list of groups, and the
//! per-minute execution timeline.
use crate::json::{entries_get, json_get, json_parse, parse_json, JsonValue, JsonView};
use crate::text::{lex_lt, lowercase, sort_dedup, sorted_distinct, str_eq, str_less, texts, to_lowercase};
use vstd::prelude::*;

verus! {

/// The key naming a task's kind in its JSON: its `type` when that is a string,
/// else the first key of the object.
pub open spec fn task_kind_key(v: JsonView) -> Option<Seq<char>> {
    match json_get(v, "type"@) {
        Some(JsonView::String(t)) => Some(t),
        _ => match v {
            JsonView::Object(es) => if es.len() > 0 {
                Some(es[0].0)
            } else {
                None
            },
            _ => None,
        },
    }
}

/// The chart label of a task kind: a display name for the known kinds (matched
/// ignoring case), else the key itself.
pub open spec fn task_label_of(key: Seq<char>) -> Seq<char> {
    let l = lowercase(key);
    if l == "shell"@ {
        "Shell Command"@
    } else if l == "http"@ {
        "HTTP Request"@
    } else if l == "script"@ {
        "Rhai Script"@
    } else if l == "sql"@ {
        "SQL Query"@
    } else if l == "ftp"@ {
        "FTP Transfer"@
    } else if l == "file_push"@ || l == "filepush"@ {
        "File Push"@
    } else if l == "kafka"@ {
        "Kafka"@
    } else if l == "rabbitmq"@ {
        "RabbitMQ"@
    } else if l == "mqtt"@ {
        "MQTT"@
    } else if l == "redis"@ {
        "Redis"@
    } else if l == "custom"@ {
        "Custom Agent"@
    } else {
        key
    }
}

/// The chart label of a stored task: `Unknown` when its JSON does not parse or
/// names no kind.
pub open spec fn spec_task_type_label(task_json: Seq<char>) -> Seq<char> {
    match json_parse(task_json) {
        Ok(v) => match task_kind_key(v) {
            Some(k) => task_label_of(k),
            None => "Unknown"@,
        },
        Err(_) => "Unknown"@,
    }
}

fn first_key(v: &JsonValue) -> (r: Option<String>)
    ensures
        match v@ {
            JsonView::Object(es) => if es.len() > 0 {
                r matches Some(k) && k@ == es[0].0
            } else {
                r is None
            },
            _ => r is None,
        },
{
    match v {
        JsonValue::Object(es) => {
            proof {
                crate::json::lemma_entries_view(es@);
            }
            if es.len() > 0 {
                Some(es[0].0.clone())
            } else {
                None
            }
        },
        _ => None,
    }
}

/// The kind key of a task's JSON value.
fn task_key(v: &JsonValue) -> (r: Option<String>)
    ensures
        match task_kind_key(v@) {
            Some(k) => r matches Some(x) && x@ == k,
            None => r is None,
        },
{
    match crate::json::get(v, "type") {
        Some(JsonValue::String(t)) => Some(t.clone()),
        _ => first_key(v),
    }
}

/// The chart label of a stored task's JSON.
pub fn task_type_label(task_json: &str) -> (r: String)
    ensures
        r@ == spec_task_type_label(task_json@),
{
    let key = match parse_json(task_json) {
        Ok(v) => match task_key(&v) {
            Some(k) => k,
            None => return "Unknown".to_string(),
        },
        Err(_) => return "Unknown".to_string(),
    };
    let l = to_lowercase(key.as_str());
    let s = l.as_str();
    if str_eq(s, "shell") {
        "Shell Command".to_string()
    } else if str_eq(s, "http") {
        "HTTP Request".to_string()
    } else if str_eq(s, "script") {
        "Rhai Script".to_string()
    } else if str_eq(s, "sql") {
        "SQL Query".to_string()
    } else if str_eq(s, "ftp") {
        "FTP Transfer".to_string()
    } else if str_eq(s, "file_push") || str_eq(s, "filepush") {
        "File Push".to_string()
    } else if str_eq(s, "kafka") {
        "Kafka".to_string()
    } else if str_eq(s, "rabbitmq") {
        "RabbitMQ".to_string()
    } else if str_eq(s, "mqtt") {
        "MQTT".to_string()
    } else if str_eq(s, "redis") {
        "Redis".to_string()
    } else if str_eq(s, "custom") {
        "Custom Agent".to_string()
    } else {
        key
    }
}

/// The first key of an object's entries other than `skip`.
pub open spec fn first_key_except(es: Seq<(Seq<char>, JsonView)>, skip: Seq<char>) -> Option<Seq<char>>
    decreases es.len(),
{
    if es.len() == 0 {
        None
    } else if es[0].0 != skip {
        Some(es[0].0)
    } else {
        first_key_except(es.drop_first(), skip)
    }
}

/// The key naming a schedule's kind in its JSON: its `type` when that is a
/// string, the value itself when it is a string, else the first key of the
/// object other than `value`.
pub open spec fn schedule_kind_key(v: JsonView) -> Option<Seq<char>> {
    match json_get(v, "type"@) {
        Some(JsonView::String(t)) => Some(t),
        _ => match v {
            JsonView::String(s) => Some(s),
            JsonView::Object(es) => first_key_except(es, "value"@),
            _ => None,
        },
    }
}

/// The chart label of a schedule kind: a display name for the known kinds
/// (matched ignoring case), else the key itself.
pub open spec fn schedule_label_of(key: Seq<char>) -> Seq<char> {
    let l = lowercase(key);
    if l == "cron"@ {
        "Cron Schedule"@
    } else if l == "on_demand"@ || l == "ondemand"@ {
        "On Demand"@
    } else if l == "one_shot"@ || l == "oneshot"@ {
        "One-Time"@
    } else if l == "event"@ {
        "Event Trigger"@
    } else {
        key
    }
}

/// The chart label of a stored schedule: `Unknown` when its JSON does not parse
/// or names no kind.
pub open spec fn spec_schedule_type_label(schedule_json: Seq<char>) -> Seq<char> {
    match json_parse(schedule_json) {
        Ok(v) => match schedule_kind_key(v) {
            Some(k) => schedule_label_of(k),
            None => "Unknown"@,
        },
        Err(_) => "Unknown"@,
    }
}

fn first_key_other_than(es: &Vec<(String, JsonValue)>, skip: &str) -> (r: Option<String>)
    ensures
        match first_key_except(crate::json::entries_view(es@), skip@) {
            Some(k) => r matches Some(x) && x@ == k,
            None => r is None,
        },
{
    proof {
        crate::json::lemma_entries_view(es@);
    }
    let ghost ev = crate::json::entries_view(es@);
    let mut i: usize = 0;
    assert(ev.skip(0) =~= ev);
    while i < es.len()
        invariant
            i <= es@.len(),
            ev == crate::json::entries_view(es@),
            ev.len() == es@.len(),
            forall|j: int| 0 <= j < es@.len() ==> #[trigger] ev[j].0 == es@[j].0@,
            first_key_except(ev, skip@) == first_key_except(ev.skip(i as int), skip@),
        decreases es.len() - i,
    {
        assert(ev.skip(i as int)[0] == ev[i as int]);
        if !str_eq(es[i].0.as_str(), skip) {
            return Some(es[i].0.clone());
        }
        assert(ev.skip(i as int).drop_first() =~= ev.skip(i + 1));
        i = i + 1;
    }
    assert(ev.skip(i as int).len() == 0);
    None
}

fn schedule_key(v: &JsonValue) -> (r: Option<String>)
    ensures
        match schedule_kind_key(v@) {
            Some(k) => r matches Some(x) && x@ == k,
            None => r is None,
        },
{
    match crate::json::get(v, "type") {
        Some(JsonValue::String(t)) => Some(t.clone()),
        _ => match v {
            JsonValue::String(s) => Some(s.clone()),
            JsonValue::Object(es) => first_key_other_than(es, "value"),
            _ => None,
        },
    }
}

/// The chart label of a stored schedule's JSON.
pub fn schedule_type_label(schedule_json: &str) -> (r: String)
    ensures
        r@ == spec_schedule_type_label(schedule_json@),
{
    let key = match parse_json(schedule_json) {
        Ok(v) => match schedule_key(&v) {
            Some(k) => k,
            None => return "Unknown".to_string(),
        },
        Err(_) => return "Unknown".to_string(),
    };
    let l = to_lowercase(key.as_str());
    let s = l.as_str();
    if str_eq(s, "cron") {
        "Cron Schedule".to_string()
    } else if str_eq(s, "on_demand") || str_eq(s, "ondemand") {
        "On Demand".to_string()
    } else if str_eq(s, "one_shot") || str_eq(s, "oneshot") {
        "One-Time".to_string()
    } else if str_eq(s, "event") {
        "Event Trigger".to_string()
    } else {
        key
    }
}

/// The chart label of a stored execution status.
pub open spec fn spec_outcome_label(status: Seq<char>) -> Seq<char> {
    if status == "succeeded"@ {
        "Succeeded"@
    } else if status == "failed"@ {
        "Failed"@
    } else if status == "timed_out"@ {
        "Timed Out"@
    } else if status == "cancelled"@ {
        "Cancelled"@
    } else if status == "running"@ {
        "Running"@
    } else if status == "pending"@ {
        "Pending"@
    } else {
        status
    }
}

/// The chart label of an execution status as it is stored.
pub fn outcome_label(status: &str) -> (r: String)
    ensures
        r@ == spec_outcome_label(status@),
{
    if str_eq(status, "succeeded") {
        "Succeeded".to_string()
    } else if str_eq(status, "failed") {
        "Failed".to_string()
    } else if str_eq(status, "timed_out") {
        "Timed Out".to_string()
    } else if str_eq(status, "cancelled") {
        "Cancelled".to_string()
    } else if str_eq(status, "running") {
        "Running".to_string()
    } else if str_eq(status, "pending") {
        "Pending".to_string()
    } else {
        status.to_string()
    }
}

/// How many entries of `s` are `x`.
pub open spec fn occurrences(s: Seq<Seq<char>>, x: Seq<char>) -> nat
    decreases s.len(),
{
    if s.len() == 0 {
        0
    } else {
        occurrences(s.drop_last(), x) + if s.last() == x {
            1nat
        } else {
            0nat
        }
    }
}

proof fn lemma_occurrences_bound(s: Seq<Seq<char>>, x: Seq<char>)
    ensures
        occurrences(s, x) <= s.len(),
    decreases s.len(),
{
    if s.len() > 0 {
        lemma_occurrences_bound(s.drop_last(), x);
    }
}

proof fn lemma_occurrences_absent(s: Seq<Seq<char>>, x: Seq<char>)
    requires
        forall|q: int| 0 <= q < s.len() ==> #[trigger] s[q] != x,
    ensures
        occurrences(s, x) == 0,
    decreases s.len(),
{
    if s.len() > 0 {
        lemma_occurrences_absent(s.drop_last(), x);
    }
}

/// Whether `x` has an entry in a tally.
pub open spec fn counted(r: Seq<(String, u32)>, x: Seq<char>) -> bool {
    exists|i: int| 0 <= i < r.len() && #[trigger] r[i].0@ == x
}

/// Counts each distinct label: one entry per label, with the number of times it
/// occurs (what counting into a map by `entry(..).or_insert(0) += 1` leaves).
pub fn tally(labels: &Vec<String>) -> (r: Vec<(String, u32)>)
    requires
        labels@.len() <= u32::MAX,
    ensures
        forall|i: int, j: int| 0 <= i < j < r@.len() ==> #[trigger] r@[i].0@ != #[trigger] r@[j].0@,
        forall|i: int|
            0 <= i < r@.len() ==> #[trigger] r@[i].1 as nat == occurrences(texts(labels@), r@[i].0@)
                && r@[i].1 > 0,
        forall|j: int|
            0 <= j < labels@.len() ==> counted(r@, #[trigger] labels@[j]@),
{
    let ghost all = texts(labels@);
    let mut r: Vec<(String, u32)> = Vec::new();
    let mut j: usize = 0;
    while j < labels.len()
        invariant
            j <= labels@.len(),
            labels@.len() <= u32::MAX,
            all == texts(labels@),
            forall|a: int, b: int| 0 <= a < b < r@.len() ==> #[trigger] r@[a].0@ != #[trigger] r@[b].0@,
            forall|i: int|
                0 <= i < r@.len() ==> #[trigger] r@[i].1 as nat == occurrences(all.take(j as int), r@[i].0@)
                    && r@[i].1 > 0,
            forall|q: int| 0 <= q < j ==> counted(r@, #[trigger] labels@[q]@),
        decreases labels.len() - j,
    {
        let x = &labels[j];
        let ghost pre = all.take(j as int);
        let ghost post = all.take(j + 1);
        assert(post.drop_last() =~= pre);
        assert(post.last() == x@);
        let mut k: usize = 0;
        while k < r.len() && !str_eq(r[k].0.as_str(), x.as_str())
            invariant
                k <= r@.len(),
                forall|i: int| 0 <= i < k ==> #[trigger] r@[i].0@ != x@,
            decreases r.len() - k,
        {
            k = k + 1;
        }
        proof {
            lemma_occurrences_bound(pre, x@);
        }
        let ghost before = r@;
        if k < r.len() {
            let c = r[k].1;
            let key = r[k].0.clone();
            r.set(k, (key, c + 1));
            assert forall|i: int| 0 <= i < r@.len() implies #[trigger] r@[i].1 as nat == occurrences(
                post,
                r@[i].0@,
            ) && r@[i].1 > 0 by {
                assert(occurrences(post, r@[i].0@) == occurrences(pre, r@[i].0@) + if x@ == r@[i].0@ {
                    1nat
                } else {
                    0nat
                });
                if i != k {
                    assert(before[i].0@ != before[k as int].0@);
                }
            }
            assert forall|q: int| 0 <= q < j + 1 implies counted(r@, #[trigger] labels@[q]@) by {
                if q < j {
                    let i = choose|i: int| 0 <= i < before.len() && #[trigger] before[i].0@ == labels@[q]@;
                    assert(r@[i].0@ == labels@[q]@);
                } else {
                    assert(r@[k as int].0@ == labels@[q]@);
                }
            }
        } else {
            r.push((x.clone(), 1));
            assert forall|i: int| 0 <= i < r@.len() implies #[trigger] r@[i].1 as nat == occurrences(
                post,
                r@[i].0@,
            ) && r@[i].1 > 0 by {
                assert(occurrences(post, r@[i].0@) == occurrences(pre, r@[i].0@) + if x@ == r@[i].0@ {
                    1nat
                } else {
                    0nat
                });
                if i < before.len() {
                    assert(before[i].0@ != x@);
                } else {
                    assert(occurrences(pre, x@) == 0) by {
                        assert forall|q: int| 0 <= q < pre.len() implies #[trigger] pre[q] != x@ by {
                            assert(pre[q] == labels@[q]@);
                            let w = choose|w: int| 0 <= w < before.len() && #[trigger] before[w].0@ == labels@[q]@;
                            assert(before[w].0@ != x@);
                        }
                        lemma_occurrences_absent(pre, x@);
                    }
                }
            }
            assert forall|q: int| 0 <= q < j + 1 implies counted(r@, #[trigger] labels@[q]@) by {
                if q < j {
                    let i = choose|i: int| 0 <= i < before.len() && #[trigger] before[i].0@ == labels@[q]@;
                    assert(r@[i].0@ == labels@[q]@);
                } else {
                    assert(r@[before.len() as int].0@ == labels@[q]@);
                }
            }
        }
        j = j + 1;
    }
    assert(all.take(labels@.len() as int) =~= all);
    r
}

/// The text of a string value (empty for any other value).
pub open spec fn text_of(v: JsonView) -> Seq<char> {
    match v {
        JsonView::String(t) => t,
        _ => seq![],
    }
}

/// The names a stored list holds: the strings of a JSON array of strings;
/// nothing when the text is empty or is not such an array.
pub open spec fn stored_names(text: Seq<char>) -> Seq<Seq<char>> {
    if text.len() == 0 {
        seq![]
    } else {
        match json_parse(text) {
            Ok(JsonView::Array(items)) => if forall|i: int| 0 <= i < items.len() ==> #[trigger] items[i] is String {
                items.map_values(|v: JsonView| text_of(v))
            } else {
                seq![]
            },
            _ => seq![],
        }
    }
}

fn stored_name_list(text: &str) -> (r: Vec<String>)
    ensures
        texts(r@) == stored_names(text@),
{
    let empty: Vec<String> = Vec::new();
    assert(texts(empty@) =~= Seq::<Seq<char>>::empty());
    if crate::text::chars_of(text).len() == 0 {
        return empty;
    }
    let parsed = parse_json(text);
    let ghost pv = crate::json::parsed_view(parsed);
    let items = match parsed {
        Ok(JsonValue::Array(items)) => items,
        _ => return empty,
    };
    proof {
        crate::json::lemma_items_view(items@);
        assert(pv == Ok::<JsonView, Seq<char>>(JsonView::Array(crate::json::items_view(items@))));
    }
    let ghost iv = crate::json::items_view(items@);
    let mut names: Vec<String> = Vec::new();
    let mut i: usize = 0;
    while i < items.len()
        invariant
            i <= items@.len(),
            iv == crate::json::items_view(items@),
            iv.len() == items@.len(),
            forall|k: int| 0 <= k < items@.len() ==> #[trigger] iv[k] == items@[k]@,
            forall|k: int| 0 <= k < i ==> #[trigger] iv[k] is String,
            texts(names@) == iv.take(i as int).map_values(|v: JsonView| text_of(v)),
            text@.len() > 0,
            json_parse(text@) == Ok::<JsonView, Seq<char>>(JsonView::Array(iv)),
        decreases items.len() - i,
    {
        match &items[i] {
            JsonValue::String(t) => {
                let ghost before = names@;
                names.push(t.clone());
                assert(texts(names@) =~= texts(before).push(t@));
                assert(iv.take(i + 1).map_values(|v: JsonView| text_of(v)) =~= iv.take(
                    i as int,
                ).map_values(|v: JsonView| text_of(v)).push(text_of(iv[i as int])));
            },
            _ => {
                assert(!(iv[i as int] is String));
                assert(!(forall|k: int| 0 <= k < iv.len() ==> #[trigger] iv[k] is String));
                let none: Vec<String> = Vec::new();
                assert(texts(none@) =~= stored_names(text@));
                return none;
            },
        }
        i = i + 1;
    }
    assert(iv.take(items@.len() as int) =~= iv);
    names
}

/// The groups listed for jobs: `Default`, every group a job is in, and the
/// custom groups stored as a JSON list, each once, in ascending order.
pub open spec fn spec_group_names(job_groups: Seq<Seq<char>>, custom: Seq<char>) -> Seq<Seq<char>> {
    sort_dedup(seq!["Default"@] + job_groups + stored_names(custom))
}

/// The distinct group names: `Default`, the groups of the jobs and the stored
/// custom groups, sorted.
pub fn group_names(job_groups: &Vec<String>, custom: &str) -> (r: Vec<String>)
    ensures
        texts(r@) == spec_group_names(texts(job_groups@), custom@),
{
    let mut all: Vec<String> = vec!["Default".to_string()];
    let mut i: usize = 0;
    while i < job_groups.len()
        invariant
            i <= job_groups@.len(),
            texts(all@) == seq!["Default"@] + texts(job_groups@).take(i as int),
        decreases job_groups.len() - i,
    {
        let ghost before = all@;
        all.push(job_groups[i].clone());
        assert(texts(all@) =~= texts(before).push(job_groups@[i as int]@));
        assert(texts(job_groups@).take(i + 1) =~= texts(job_groups@).take(i as int).push(
            job_groups@[i as int]@,
        ));
        i = i + 1;
    }
    assert(texts(job_groups@).take(job_groups@.len() as int) =~= texts(job_groups@));
    let custom_names = stored_name_list(custom);
    let mut k: usize = 0;
    let ghost base = texts(all@);
    while k < custom_names.len()
        invariant
            k <= custom_names@.len(),
            texts(all@) == base + texts(custom_names@).take(k as int),
        decreases custom_names.len() - k,
    {
        let ghost before = all@;
        all.push(custom_names[k].clone());
        assert(texts(all@) =~= texts(before).push(custom_names@[k as int]@));
        assert(texts(custom_names@).take(k + 1) =~= texts(custom_names@).take(k as int).push(
            custom_names@[k as int]@,
        ));
        k = k + 1;
    }
    assert(texts(custom_names@).take(custom_names@.len() as int) =~= texts(custom_names@));
    assert(texts(all@) =~= seq!["Default"@] + texts(job_groups@) + stored_names(custom@));
    sorted_distinct(&all)
}

/// `r` with `x` put before the first element that sorts after it.
pub open spec fn insert_sorted(r: Seq<Seq<char>>, x: Seq<char>) -> Seq<Seq<char>>
    decreases r.len(),
{
    if r.len() == 0 {
        seq![x]
    } else if lex_lt(x, r[0]) {
        seq![x] + r
    } else {
        seq![r[0]] + insert_sorted(r.drop_first(), x)
    }
}

/// `s` in ascending order, duplicates kept (what `sort` leaves).
pub open spec fn sort_texts(s: Seq<Seq<char>>) -> Seq<Seq<char>>
    decreases s.len(),
{
    if s.len() == 0 {
        seq![]
    } else {
        insert_sorted(sort_texts(s.drop_last()), s.last())
    }
}

proof fn lemma_insert_sorted_at(r: Seq<Seq<char>>, x: Seq<char>, k: int)
    requires
        0 <= k <= r.len(),
        forall|j: int| 0 <= j < k ==> !lex_lt(x, #[trigger] r[j]),
        k < r.len() ==> lex_lt(x, r[k]),
    ensures
        insert_sorted(r, x) == r.insert(k, x),
    decreases k,
{
    if k == 0 {
        if r.len() == 0 {
            assert(r.insert(0, x) =~= seq![x]);
        } else {
            assert(r.insert(0, x) =~= seq![x] + r);
        }
    } else {
        let t = r.drop_first();
        assert forall|j: int| 0 <= j < k - 1 implies !lex_lt(x, #[trigger] t[j]) by {
            assert(t[j] == r[j + 1]);
        }
        lemma_insert_sorted_at(t, x, k - 1);
        assert(!lex_lt(x, r[0]));
        assert(seq![r[0]] + t.insert(k - 1, x) =~= r.insert(k, x));
    }
}

fn sort_strings(v: &Vec<String>) -> (r: Vec<String>)
    ensures
        texts(r@) == sort_texts(texts(v@)),
{
    let mut r: Vec<String> = Vec::new();
    let mut i: usize = 0;
    while i < v.len()
        invariant
            i <= v@.len(),
            texts(r@) == sort_texts(texts(v@.take(i as int))),
        decreases v.len() - i,
    {
        let x = &v[i];
        let mut k: usize = 0;
        while k < r.len() && !str_less(x.as_str(), r[k].as_str())
            invariant
                k <= r@.len(),
                forall|j: int| 0 <= j < k ==> !lex_lt(x@, #[trigger] texts(r@)[j]),
            decreases r.len() - k,
        {
            k = k + 1;
        }
        let ghost before = texts(r@);
        proof {
            lemma_insert_sorted_at(before, x@, k as int);
            assert(texts(v@.take(i + 1)).drop_last() =~= texts(v@.take(i as int)));
            assert(texts(v@.take(i + 1)).last() == x@);
        }
        r.insert(k, x.clone());
        assert(texts(r@) =~= before.insert(k as int, x@));
        i = i + 1;
    }
    assert(v@.take(v@.len() as int) =~= v@);
    r
}

/// The stored custom-group list after adding `name`: `None` when it is already
/// there (nothing is stored), else the list with it, sorted, as JSON text.
pub open spec fn spec_add_custom_group(existing: Seq<char>, name: Seq<char>) -> Option<Seq<char>> {
    let names = stored_names(existing);
    if names.contains(name) {
        None
    } else {
        Some(
            crate::json::json_text(
                JsonView::Array(sort_texts(names.push(name)).map_values(|t: Seq<char>| JsonView::String(t))),
            ),
        )
    }
}

/// The text to store for the custom groups once `name` is added, if it changes.
pub fn add_custom_group(existing: &str, name: &str) -> (r: Option<String>)
    ensures
        match spec_add_custom_group(existing@, name@) {
            Some(t) => r matches Some(x) && x@ == t,
            None => r is None,
        },
{
    let mut names = stored_name_list(existing);
    let mut i: usize = 0;
    while i < names.len()
        invariant
            i <= names@.len(),
            forall|k: int| 0 <= k < i ==> #[trigger] names@[k]@ != name@,
            texts(names@) == stored_names(existing@),
        decreases names.len() - i,
    {
        if str_eq(names[i].as_str(), name) {
            assert(texts(names@)[i as int] == name@);
            return None;
        }
        i = i + 1;
    }
    assert(!texts(names@).contains(name@)) by {
        if texts(names@).contains(name@) {
            let k = choose|k: int| 0 <= k < texts(names@).len() && texts(names@)[k] == name@;
            assert(names@[k]@ == name@);
        }
    }
    let ghost before = texts(names@);
    names.push(name.to_string());
    assert(texts(names@) =~= before.push(name@));
    let sorted = sort_strings(&names);
    let mut items: Vec<JsonValue> = Vec::new();
    let mut j: usize = 0;
    while j < sorted.len()
        invariant
            j <= sorted@.len(),
            crate::json::items_view(items@) == texts(sorted@).take(j as int).map_values(
                |t: Seq<char>| JsonView::String(t),
            ),
        decreases sorted.len() - j,
    {
        let ghost b = items@;
        let t = sorted[j].clone();
        let ghost tv = t@;
        items.push(JsonValue::String(t));
        assert(items@.drop_last() =~= b);
        assert(items@.last()@ == JsonView::String(tv));
        assert(tv == texts(sorted@)[j as int]);
        assert(texts(sorted@).take(j + 1).map_values(|t: Seq<char>| JsonView::String(t))
            =~= texts(sorted@).take(j as int).map_values(|t: Seq<char>| JsonView::String(t)).push(
            JsonView::String(sorted@[j as int]@),
        ));
        j = j + 1;
    }
    assert(texts(sorted@).take(sorted@.len() as int) =~= texts(sorted@));
    Some(crate::json::to_json_string(&JsonValue::Array(items)))
}

/// The column of the timeline an execution status counts in: succeeded (0),
/// failed or timed out (1), anything else (2).
pub open spec fn spec_timeline_column(status: Seq<char>) -> int {
    if status == "succeeded"@ {
        0
    } else if status == "failed"@ || status == "timed_out"@ {
        1
    } else {
        2
    }
}

/// The timeline column of an execution status.
pub fn timeline_column(status: &str) -> (r: usize)
    ensures
        r as int == spec_timeline_column(status@),
{
    if str_eq(status, "succeeded") {
        0
    } else if str_eq(status, "failed") || str_eq(status, "timed_out") {
        1
    } else {
        2
    }
}

/// A counted row of executions: its minute, its status and how many there are.
pub open spec fn row_view(t: (String, String, u32)) -> (Seq<char>, Seq<char>, u32) {
    (t.0@, t.1@, t.2)
}

/// The rows as text.
pub open spec fn row_views(rows: Seq<(String, String, u32)>) -> Seq<(Seq<char>, Seq<char>, u32)> {
    rows.map_values(|t: (String, String, u32)| row_view(t))
}

/// How many executions `rows` count for minute `key` in column `col`.
pub open spec fn bucket_total(rows: Seq<(Seq<char>, Seq<char>, u32)>, key: Seq<char>, col: int) -> nat
    decreases rows.len(),
{
    if rows.len() == 0 {
        0
    } else {
        bucket_total(rows.drop_last(), key, col) + if rows.last().0 == key && spec_timeline_column(
            rows.last().1,
        ) == col {
            rows.last().2 as nat
        } else {
            0nat
        }
    }
}

proof fn lemma_bucket_total_prefix(rows: Seq<(Seq<char>, Seq<char>, u32)>, j: int, key: Seq<char>, col: int)
    requires
        0 <= j <= rows.len(),
    ensures
        bucket_total(rows.take(j), key, col) <= bucket_total(rows, key, col),
    decreases rows.len() - j,
{
    if j < rows.len() {
        lemma_bucket_total_prefix(rows, j + 1, key, col);
        assert(rows.take(j + 1).drop_last() =~= rows.take(j));
    } else {
        assert(rows.take(j) =~= rows);
    }
}

/// The minutes of the timeline: the ones asked for and the ones with rows, each
/// once, in ascending order.
pub open spec fn timeline_keys(prefill: Seq<Seq<char>>, rows: Seq<(Seq<char>, Seq<char>, u32)>) -> Seq<Seq<char>> {
    sort_dedup(prefill + rows.map_values(|t: (Seq<char>, Seq<char>, u32)| t.0))
}

/// Whether a timeline entry holds the totals of `rows` for its minute.
pub open spec fn totals_of(e: (String, u32, u32, u32), rows: Seq<(Seq<char>, Seq<char>, u32)>) -> bool {
    &&& e.1 as nat == bucket_total(rows, e.0@, 0)
    &&& e.2 as nat == bucket_total(rows, e.0@, 1)
    &&& e.3 as nat == bucket_total(rows, e.0@, 2)
}

/// The per-minute execution timeline: for every minute asked for or counted,
/// in ascending order, the succeeded, failed (or timed out) and other executions.
pub fn timeline(prefill: &Vec<String>, rows: &Vec<(String, String, u32)>) -> (r: Vec<(String, u32, u32, u32)>)
    requires
        forall|key: Seq<char>, col: int| #[trigger] bucket_total(row_views(rows@), key, col) <= u32::MAX,
    ensures
        r@.map_values(|e: (String, u32, u32, u32)| e.0@) == timeline_keys(texts(prefill@), row_views(rows@)),
        forall|i: int| 0 <= i < r@.len() ==> #[trigger] totals_of(r@[i], row_views(rows@)),
{
    let ghost rv = row_views(rows@);
    let mut all: Vec<String> = Vec::new();
    let mut i: usize = 0;
    while i < prefill.len()
        invariant
            i <= prefill@.len(),
            texts(all@) == texts(prefill@).take(i as int),
        decreases prefill.len() - i,
    {
        let ghost before = all@;
        all.push(prefill[i].clone());
        assert(texts(all@) =~= texts(before).push(prefill@[i as int]@));
        assert(texts(prefill@).take(i + 1) =~= texts(prefill@).take(i as int).push(prefill@[i as int]@));
        i = i + 1;
    }
    assert(texts(prefill@).take(prefill@.len() as int) =~= texts(prefill@));
    let ghost base = texts(all@);
    let ghost buckets = rv.map_values(|t: (Seq<char>, Seq<char>, u32)| t.0);
    let mut j: usize = 0;
    while j < rows.len()
        invariant
            j <= rows@.len(),
            rv == row_views(rows@),
            buckets == rv.map_values(|t: (Seq<char>, Seq<char>, u32)| t.0),
            texts(all@) == base + buckets.take(j as int),
        decreases rows.len() - j,
    {
        let ghost before = all@;
        all.push(rows[j].0.clone());
        assert(texts(all@) =~= texts(before).push(rows@[j as int].0@));
        assert(buckets.take(j + 1) =~= buckets.take(j as int).push(rows@[j as int].0@));
        j = j + 1;
    }
    assert(buckets.take(rows@.len() as int) =~= buckets);
    let keys = sorted_distinct(&all);
    let mut r: Vec<(String, u32, u32, u32)> = Vec::new();
    let mut k: usize = 0;
    while k < keys.len()
        invariant
            k <= keys@.len(),
            r@.len() == k,
            forall|q: int| 0 <= q < k ==> #[trigger] r@[q].0@ == keys@[q]@,
            forall|q: int| 0 <= q < k ==> #[trigger] totals_of(r@[q], rv.take(0)),
        decreases keys.len() - k,
    {
        r.push((keys[k].clone(), 0, 0, 0));
        k = k + 1;
    }
    assert(r@.map_values(|e: (String, u32, u32, u32)| e.0@) =~= texts(keys@));
    let ghost names = texts(keys@);
    let mut n: usize = 0;
    while n < rows.len()
        invariant
            n <= rows@.len(),
            rv == row_views(rows@),
            forall|key: Seq<char>, col: int| #[trigger] bucket_total(rv, key, col) <= u32::MAX,
            r@.map_values(|e: (String, u32, u32, u32)| e.0@) == names,
            forall|q: int| 0 <= q < r@.len() ==> #[trigger] totals_of(r@[q], rv.take(n as int)),
        decreases rows.len() - n,
    {
        let row = &rows[n];
        let col = timeline_column(row.1.as_str());
        let ghost pre = rv.take(n as int);
        let ghost post = rv.take(n + 1);
        proof {
            assert(post.drop_last() =~= pre);
            assert(post.last() == row_view(rows@[n as int]));
        }
        let mut m: usize = 0;
        while m < r.len()
            invariant
                m <= r@.len(),
                n < rows@.len(),
                rv == row_views(rows@),
                forall|key: Seq<char>, col: int| #[trigger] bucket_total(rv, key, col) <= u32::MAX,
                pre == rv.take(n as int),
                post == rv.take(n + 1),
                post.drop_last() == pre,
                post.last() == row_view(rows@[n as int]),
                row == &rows@[n as int],
                col as int == spec_timeline_column(row.1@),
                r@.map_values(|e: (String, u32, u32, u32)| e.0@) == names,
                forall|q: int| 0 <= q < m ==> #[trigger] totals_of(r@[q], post),
                forall|q: int| m <= q < r@.len() ==> #[trigger] totals_of(r@[q], pre),
            decreases r.len() - m,
        {
            let ghost old_r = r@;
            assert(old_r.map_values(|e: (String, u32, u32, u32)| e.0@)[m as int] == old_r[m as int].0@);
            if str_eq(r[m].0.as_str(), row.0.as_str()) {
                let e = &r[m];
                let key = e.0.clone();
                proof {
                    lemma_bucket_total_prefix(rv, n + 1, key@, col as int);
                    assert(totals_of(old_r[m as int], pre));
                }
                let (a, b, c) = if col == 0 {
                    (e.1 + row.2, e.2, e.3)
                } else if col == 1 {
                    (e.1, e.2 + row.2, e.3)
                } else {
                    (e.1, e.2, e.3 + row.2)
                };
                r.set(m, (key, a, b, c));
            } else {
                proof {
                    assert(totals_of(old_r[m as int], pre));
                }
            }
            assert(r@.map_values(|e: (String, u32, u32, u32)| e.0@) =~= old_r.map_values(
                |e: (String, u32, u32, u32)| e.0@,
            ));
            m = m + 1;
        }
        n = n + 1;
    }
    assert(rv.take(rows@.len() as int) =~= rv);
    assert(texts(all@) =~= texts(prefill@) + buckets);
    r
}

} // verus!
