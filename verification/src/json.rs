//! JSON values as plain data, key lookup, and their compact text form.
use crate::text::push_char;
use vstd::prelude::*;

verus! {

/// A JSON value. Numbers keep the text `serde_json` writes for them; objects
/// keep their entries in order, each key at most once.
#[derive(Debug)]
pub enum JsonValue {
    Null,
    Bool(bool),
    Number(String),
    String(String),
    Array(Vec<JsonValue>),
    Object(Vec<(String, JsonValue)>),
}

/// The meaning of a JSON value, with text as character sequences.
#[verifier::ext_equal]
pub enum JsonView {
    Null,
    Bool(bool),
    Number(Seq<char>),
    String(Seq<char>),
    Array(Seq<JsonView>),
    Object(Seq<(Seq<char>, JsonView)>),
}

/// The meaning of `v`.
pub open spec fn jv(v: JsonValue) -> JsonView
    decreases v,
{
    match v {
        JsonValue::Null => JsonView::Null,
        JsonValue::Bool(b) => JsonView::Bool(b),
        JsonValue::Number(n) => JsonView::Number(n@),
        JsonValue::String(s) => JsonView::String(s@),
        JsonValue::Array(items) => JsonView::Array(items_view(items@)),
        JsonValue::Object(entries) => JsonView::Object(entries_view(entries@)),
    }
}

/// The meanings of array elements.
pub open spec fn items_view(items: Seq<JsonValue>) -> Seq<JsonView>
    decreases items,
{
    if items.len() == 0 {
        seq![]
    } else {
        items_view(items.drop_last()).push(jv(items.last()))
    }
}

/// The meanings of object entries.
pub open spec fn entries_view(entries: Seq<(String, JsonValue)>) -> Seq<(Seq<char>, JsonView)>
    decreases entries,
{
    if entries.len() == 0 {
        seq![]
    } else {
        entries_view(entries.drop_last()).push((entries.last().0@, jv(entries.last().1)))
    }
}

impl View for JsonValue {
    type V = JsonView;

    open spec fn view(&self) -> JsonView {
        jv(*self)
    }
}

pub proof fn lemma_items_view(items: Seq<JsonValue>)
    ensures
        items_view(items).len() == items.len(),
        forall|i: int| 0 <= i < items.len() ==> #[trigger] items_view(items)[i] == jv(items[i]),
    decreases items.len(),
{
    if items.len() > 0 {
        lemma_items_view(items.drop_last());
    }
}

pub proof fn lemma_entries_view(entries: Seq<(String, JsonValue)>)
    ensures
        entries_view(entries).len() == entries.len(),
        forall|i: int|
            0 <= i < entries.len() ==> #[trigger] entries_view(entries)[i] == (
                entries[i].0@,
                jv(entries[i].1),
            ),
    decreases entries.len(),
{
    if entries.len() > 0 {
        lemma_entries_view(entries.drop_last());
    }
}

/// The value under `key` in an object's entries (the first entry with that key).
pub open spec fn entries_get(entries: Seq<(Seq<char>, JsonView)>, key: Seq<char>) -> Option<
    JsonView,
>
    decreases entries.len(),
{
    if entries.len() == 0 {
        None
    } else if entries[0].0 == key {
        Some(entries[0].1)
    } else {
        entries_get(entries.drop_first(), key)
    }
}

/// What `Value::get(key)` gives: the entry of an object, `None` for anything else.
pub open spec fn json_get(v: JsonView, key: Seq<char>) -> Option<JsonView> {
    match v {
        JsonView::Object(entries) => entries_get(entries, key),
        _ => None,
    }
}

/// The text of `v` when it is a string (what `Value::as_str` gives).
pub open spec fn json_as_str(v: JsonView) -> Option<Seq<char>> {
    match v {
        JsonView::String(s) => Some(s),
        _ => None,
    }
}

/// Looks up `key` in the entries of an object.
pub fn get_entry<'a>(entries: &'a Vec<(String, JsonValue)>, key: &str) -> (r: Option<&'a JsonValue>)
    ensures
        match entries_get(entries_view(entries@), key@) {
            Some(v) => r matches Some(x) && x@ == v,
            None => r is None,
        },
{
    proof {
        lemma_entries_view(entries@);
    }
    let ghost ev = entries_view(entries@);
    let mut i: usize = 0;
    assert(ev.skip(0) =~= ev);
    while i < entries.len()
        invariant
            i <= entries@.len(),
            ev == entries_view(entries@),
            ev.len() == entries@.len(),
            forall|k: int| 0 <= k < entries@.len() ==> #[trigger] ev[k] == (entries@[k].0@, jv(entries@[k].1)),
            entries_get(ev, key@) == entries_get(ev.skip(i as int), key@),
        decreases entries.len() - i,
    {
        assert(ev.skip(i as int).drop_first() =~= ev.skip(i + 1));
        assert(ev.skip(i as int)[0] == ev[i as int]);
        if crate::text::str_eq(entries[i].0.as_str(), key) {
            return Some(&entries[i].1);
        }
        i = i + 1;
    }
    assert(ev.skip(i as int).len() == 0);
    None
}

/// What `Value::get(key)` does: the entry of an object, `None` for anything else.
pub fn get<'a>(v: &'a JsonValue, key: &str) -> (r: Option<&'a JsonValue>)
    ensures
        match json_get(v@, key@) {
            Some(x) => r matches Some(y) && y@ == x,
            None => r is None,
        },
{
    match v {
        JsonValue::Object(entries) => get_entry(entries, key),
        _ => None,
    }
}

/// `Value::as_str`: the text of a string value.
pub fn as_str(v: &JsonValue) -> (r: Option<&str>)
    ensures
        match json_as_str(v@) {
            Some(s) => r matches Some(x) && x@ == s,
            None => r is None,
        },
{
    match v {
        JsonValue::String(s) => Some(s.as_str()),
        _ => None,
    }
}

/// What `Value::as_u64` gives: the value of a number written as digits alone that
/// fits in a `u64`.
pub open spec fn json_as_u64(v: JsonView) -> Option<u64> {
    match v {
        JsonView::Number(t) => crate::text::digits_u64(t),
        _ => None,
    }
}

/// `Value::as_u64`.
pub fn as_u64(v: &JsonValue) -> (r: Option<u64>)
    ensures
        r == json_as_u64(v@),
{
    match v {
        JsonValue::Number(t) => crate::text::parse_digits_u64(crate::text::chars_of(t.as_str()).as_slice()),
        _ => None,
    }
}

/// A string value.
pub fn jstr(s: &str) -> (r: JsonValue)
    ensures
        r@ == JsonView::String(s@),
{
    JsonValue::String(s.to_string())
}

/// An object from its entries.
pub fn jobj(entries: Vec<(String, JsonValue)>) -> (r: JsonValue)
    ensures
        r@ == JsonView::Object(entries_view(entries@)),
{
    JsonValue::Object(entries)
}

/// The lowercase hexadecimal digit for `d < 16`.
pub open spec fn hex_lower(d: int) -> char {
    if d < 10 {
        (48 + d) as char
    } else {
        (87 + d) as char
    }
}

/// How `serde_json` writes one character inside a string literal.
pub open spec fn escape_char(c: char) -> Seq<char> {
    if c == '"' {
        seq!['\\', '"']
    } else if c == '\\' {
        seq!['\\', '\\']
    } else if c == '\u{8}' {
        seq!['\\', 'b']
    } else if c == '\t' {
        seq!['\\', 't']
    } else if c == '\n' {
        seq!['\\', 'n']
    } else if c == '\u{c}' {
        seq!['\\', 'f']
    } else if c == '\r' {
        seq!['\\', 'r']
    } else if (c as u32) < 0x20 {
        seq!['\\', 'u', '0', '0', hex_lower((c as u32) as int / 16), hex_lower((c as u32) as int % 16)]
    } else {
        seq![c]
    }
}

/// The escaped body of a string literal.
pub open spec fn escape_str(s: Seq<char>) -> Seq<char>
    decreases s.len(),
{
    if s.len() == 0 {
        seq![]
    } else {
        escape_str(s.drop_last()) + escape_char(s.last())
    }
}

/// A quoted, escaped string literal.
pub open spec fn quote_str(s: Seq<char>) -> Seq<char> {
    seq!['"'] + escape_str(s) + seq!['"']
}

/// `serde_json::Value::String(s)` written by its `Display` (what
/// `serde_json::to_string` gives for `s`). The claim: the text is `s` between two
/// quotes, with `"` and `\` escaped by a backslash, the controls that have a short
/// escape (`\b`, `\t`, `\n`, `\f`, `\r`) given it, every other control below
/// U+0020 written `\u00` and two lowercase hex digits, and all else as it is (the
/// serializer's `ESCAPE` table and `write_char_escape`).
#[verifier::external_body]
pub(crate) fn string_literal(s: &str) -> (r: String)
    ensures
        r@ == quote_str(s@),
{
    serde_json::Value::String(s.to_string()).to_string()
}

/// The compact JSON text of `v`: entries in their order, strings as `serde_json`
/// writes their literals.
pub open spec fn json_text(v: JsonView) -> Seq<char>
    decreases v,
{
    match v {
        JsonView::Null => seq!['n', 'u', 'l', 'l'],
        JsonView::Bool(b) => if b {
            seq!['t', 'r', 'u', 'e']
        } else {
            seq!['f', 'a', 'l', 's', 'e']
        },
        JsonView::Number(n) => n,
        JsonView::String(s) => quote_str(s),
        JsonView::Array(items) => seq!['['] + items_text(items) + seq![']'],
        JsonView::Object(entries) => seq!['{'] + entries_text(entries) + seq!['}'],
    }
}

/// The elements of an array, comma-separated.
pub open spec fn items_text(items: Seq<JsonView>) -> Seq<char>
    decreases items,
{
    if items.len() == 0 {
        seq![]
    } else if items.len() == 1 {
        json_text(items[0])
    } else {
        items_text(items.drop_last()) + seq![','] + json_text(items.last())
    }
}

/// The entries of an object as `"key":value`, comma-separated.
pub open spec fn entries_text(entries: Seq<(Seq<char>, JsonView)>) -> Seq<char>
    decreases entries,
{
    if entries.len() == 0 {
        seq![]
    } else if entries.len() == 1 {
        quote_str(entries[0].0) + seq![':'] + json_text(entries[0].1)
    } else {
        entries_text(entries.drop_last()) + seq![','] + quote_str(entries.last().0) + seq![':']
            + json_text(entries.last().1)
    }
}

/// A deep copy of `v`.
pub fn clone_json(v: &JsonValue) -> (r: JsonValue)
    ensures
        r@ == v@,
    decreases v,
{
    match v {
        JsonValue::Null => JsonValue::Null,
        JsonValue::Bool(b) => JsonValue::Bool(*b),
        JsonValue::Number(n) => JsonValue::Number(n.clone()),
        JsonValue::String(s) => JsonValue::String(s.clone()),
        JsonValue::Array(items) => {
            let mut out: Vec<JsonValue> = Vec::new();
            let mut i: usize = 0;
            proof {
                lemma_items_view(items@);
            }
            while i < items.len()
                invariant
                    i <= items@.len(),
                    items_view(items@).len() == items@.len(),
                    forall|k: int| 0 <= k < items@.len() ==> #[trigger] items_view(items@)[k] == jv(items@[k]),
                    items_view(out@) == items_view(items@.take(i as int)),
                    *v == JsonValue::Array(*items),
                decreases items.len() - i,
            {
                proof {
                    assert(decreases_to!(*v => (*v)->Array_0));
                    assert(decreases_to!(*items => items@));
                    assert(decreases_to!(items@ => items@[i as int]));
                    assert(decreases_to!(*v => items@[i as int]));
                }
                let c = clone_json(&items[i]);
                let ghost before = out@;
                out.push(c);
                assert(out@.drop_last() =~= before);
                assert(items@.take(i + 1).drop_last() =~= items@.take(i as int));
                i = i + 1;
            }
            assert(items@.take(i as int) =~= items@);
            JsonValue::Array(out)
        },
        JsonValue::Object(entries) => {
            let mut out: Vec<(String, JsonValue)> = Vec::new();
            let mut i: usize = 0;
            proof {
                lemma_entries_view(entries@);
            }
            while i < entries.len()
                invariant
                    i <= entries@.len(),
                    entries_view(out@) == entries_view(entries@.take(i as int)),
                    *v == JsonValue::Object(*entries),
                decreases entries.len() - i,
            {
                proof {
                    assert(decreases_to!(*v => (*v)->Object_0));
                    assert(decreases_to!(*entries => entries@));
                    assert(decreases_to!(entries@ => entries@[i as int]));
                    assert(decreases_to!(entries@[i as int] => entries@[i as int].1));
                    assert(decreases_to!(*v => entries@[i as int].1));
                }
                let k = entries[i].0.clone();
                let c = clone_json(&entries[i].1);
                let ghost before = out@;
                out.push((k, c));
                assert(out@.drop_last() =~= before);
                assert(entries@.take(i + 1).drop_last() =~= entries@.take(i as int));
                i = i + 1;
            }
            assert(entries@.take(i as int) =~= entries@);
            JsonValue::Object(out)
        },
    }
}

/// Appends `s` as a quoted JSON string literal.
pub fn push_quoted(out: &mut String, s: &str)
    ensures
        final(out)@ == old(out)@ + quote_str(s@),
{
    out.append(string_literal(s).as_str());
}

/// Appends the compact JSON text of `v`.
pub fn write_json(v: &JsonValue, out: &mut String)
    ensures
        final(out)@ == old(out)@ + json_text(v@),
    decreases v,
{
    match v {
        JsonValue::Null => {
            out.append("null");
            proof {
                reveal_strlit("null");
            }
            assert(out@ =~= old(out)@ + json_text(v@));
        },
        JsonValue::Bool(b) => {
            if *b {
                out.append("true");
                proof {
                    reveal_strlit("true");
                }
            } else {
                out.append("false");
                proof {
                    reveal_strlit("false");
                }
            }
            assert(out@ =~= old(out)@ + json_text(v@));
        },
        JsonValue::Number(n) => {
            out.append(n.as_str());
        },
        JsonValue::String(s) => {
            push_quoted(out, s.as_str());
        },
        JsonValue::Array(items) => {
            proof {
                lemma_items_view(items@);
            }
            let ghost iv = items_view(items@);
            let ghost start = out@;
            push_char(out, '[');
            let mut i: usize = 0;
            assert(iv.take(0) =~= Seq::<JsonView>::empty());
            while i < items.len()
                invariant
                    i <= items@.len(),
                    iv == items_view(items@),
                    iv.len() == items@.len(),
                    forall|k: int| 0 <= k < items@.len() ==> #[trigger] iv[k] == jv(items@[k]),
                    out@ == start + seq!['['] + items_text(iv.take(i as int)),
                    *v == JsonValue::Array(*items),
                decreases items.len() - i,
            {
                proof {
                    assert(decreases_to!(*v => (*v)->Array_0));
                    assert(decreases_to!(*items => items@));
                    assert(decreases_to!(items@ => items@[i as int]));
                }
                let ghost before = out@;
                if i > 0 {
                    push_char(out, ',');
                }
                write_json(&items[i], out);
                assert(iv.take(i + 1).drop_last() =~= iv.take(i as int));
                assert(iv.take(i + 1).last() == items@[i as int]@);
                if i > 0 {
                    assert(out@ =~= start + seq!['['] + items_text(iv.take(i + 1)));
                } else {
                    assert(iv.take(i + 1) =~= seq![iv[0]]);
                    assert(out@ =~= start + seq!['['] + items_text(iv.take(i + 1)));
                }
                i = i + 1;
            }
            push_char(out, ']');
            assert(iv.take(i as int) =~= iv);
            assert(out@ =~= start + json_text(v@));
        },
        JsonValue::Object(entries) => {
            proof {
                lemma_entries_view(entries@);
            }
            let ghost ev = entries_view(entries@);
            let ghost start = out@;
            push_char(out, '{');
            let mut i: usize = 0;
            assert(ev.take(0) =~= Seq::<(Seq<char>, JsonView)>::empty());
            while i < entries.len()
                invariant
                    i <= entries@.len(),
                    ev == entries_view(entries@),
                    ev.len() == entries@.len(),
                    forall|k: int|
                        0 <= k < entries@.len() ==> #[trigger] ev[k] == (
                            entries@[k].0@,
                            jv(entries@[k].1),
                        ),
                    out@ == start + seq!['{'] + entries_text(ev.take(i as int)),
                    *v == JsonValue::Object(*entries),
                decreases entries.len() - i,
            {
                proof {
                    assert(decreases_to!(*v => (*v)->Object_0));
                    assert(decreases_to!(*entries => entries@));
                    assert(decreases_to!(entries@ => entries@[i as int]));
                    assert(decreases_to!(entries@[i as int] => entries@[i as int].1));
                }
                if i > 0 {
                    push_char(out, ',');
                }
                push_quoted(out, entries[i].0.as_str());
                push_char(out, ':');
                write_json(&entries[i].1, out);
                assert(ev.take(i + 1).drop_last() =~= ev.take(i as int));
                assert(ev.take(i + 1).last() == ev[i as int]);
                if i > 0 {
                    assert(out@ =~= start + seq!['{'] + entries_text(ev.take(i + 1)));
                } else {
                    assert(ev.take(i + 1) =~= seq![ev[0]]);
                    assert(out@ =~= start + seq!['{'] + entries_text(ev.take(i + 1)));
                }
                i = i + 1;
            }
            push_char(out, '}');
            assert(ev.take(i as int) =~= ev);
            assert(out@ =~= start + json_text(v@));
        },
    }
}

/// The compact JSON text of `v`.
pub fn to_json_string(v: &JsonValue) -> (r: String)
    ensures
        r@ == json_text(v@),
{
    let mut out = String::new();
    write_json(v, &mut out);
    assert(out@ =~= json_text(v@));
    out
}

/// The entries after setting `key` to `val` the way a sorted map does: an entry of
/// that key is replaced where it stands, else the new entry goes before the first
/// key that sorts after it.
pub open spec fn obj_insert(entries: Seq<(Seq<char>, JsonView)>, key: Seq<char>, val: JsonView) -> Seq<
    (Seq<char>, JsonView),
>
    decreases entries.len(),
{
    if entries.len() == 0 {
        seq![(key, val)]
    } else if entries[0].0 == key {
        seq![(key, val)] + entries.drop_first()
    } else if crate::text::lex_lt(entries[0].0, key) {
        seq![entries[0]] + obj_insert(entries.drop_first(), key, val)
    } else {
        seq![(key, val)] + entries
    }
}

proof fn lemma_obj_insert_at(
    e: Seq<(Seq<char>, JsonView)>,
    key: Seq<char>,
    val: JsonView,
    k: int,
)
    requires
        0 <= k <= e.len(),
        forall|j: int|
            0 <= j < k ==> #[trigger] e[j].0 != key && crate::text::lex_lt(e[j].0, key),
        k < e.len() ==> e[k].0 == key || !crate::text::lex_lt(e[k].0, key),
    ensures
        obj_insert(e, key, val) == (if k < e.len() && e[k].0 == key {
            e.update(k, (key, val))
        } else {
            e.insert(k, (key, val))
        }),
    decreases k,
{
    if k == 0 {
        if e.len() == 0 {
            assert(e.insert(0, (key, val)) =~= seq![(key, val)]);
        } else if e[0].0 == key {
            assert(e.update(0, (key, val)) =~= seq![(key, val)] + e.drop_first());
        } else {
            assert(e.insert(0, (key, val)) =~= seq![(key, val)] + e);
        }
    } else {
        let t = e.drop_first();
        assert forall|j: int| 0 <= j < k - 1 implies #[trigger] t[j].0 != key
            && crate::text::lex_lt(t[j].0, key) by {
            assert(t[j] == e[j + 1]);
        }
        lemma_obj_insert_at(t, key, val, k - 1);
        assert(e[0].0 != key && crate::text::lex_lt(e[0].0, key));
        if k < e.len() && e[k].0 == key {
            assert(seq![e[0]] + t.update(k - 1, (key, val)) =~= e.update(k, (key, val)));
        } else {
            assert(seq![e[0]] + t.insert(k - 1, (key, val)) =~= e.insert(k, (key, val)));
        }
    }
}

/// A lookup in entries with one more entry at the end finds what it found before,
/// or the new entry where nothing was found.
pub proof fn lemma_entries_get_push(
    es: Seq<(Seq<char>, JsonView)>,
    e: (Seq<char>, JsonView),
    k: Seq<char>,
)
    ensures
        entries_get(es.push(e), k) == (match entries_get(es, k) {
            Some(v) => Some(v),
            None => if e.0 == k {
                Some(e.1)
            } else {
                None
            },
        }),
    decreases es.len(),
{
    if es.len() == 0 {
        assert(es.push(e).drop_first() =~= es);
    } else {
        lemma_entries_get_push(es.drop_first(), e, k);
        assert(es.push(e).drop_first() =~= es.drop_first().push(e));
    }
}

/// A lookup that finds a value finds it in an entry of that key.
pub proof fn lemma_entries_get_found(es: Seq<(Seq<char>, JsonView)>, k: Seq<char>)
    ensures
        entries_get(es, k) matches Some(v) ==> exists|i: int|
            0 <= i < es.len() && #[trigger] es[i] == (k, v),
    decreases es.len(),
{
    if es.len() > 0 && es[0].0 != k {
        lemma_entries_get_found(es.drop_first(), k);
        if let Some(v) = entries_get(es, k) {
            let i = choose|i: int| 0 <= i < es.drop_first().len() && #[trigger] es.drop_first()[i] == (k, v);
            assert(es[i + 1] == (k, v));
        }
    } else if es.len() > 0 {
        assert(es[0] == (k, es[0].1));
    }
}

/// After setting `key`, a lookup of `key` finds the new value and a lookup of any
/// other key finds what it found before.
pub proof fn lemma_obj_insert_get(
    es: Seq<(Seq<char>, JsonView)>,
    key: Seq<char>,
    val: JsonView,
    k: Seq<char>,
)
    ensures
        entries_get(obj_insert(es, key, val), k) == (if k == key {
            Some(val)
        } else {
            entries_get(es, k)
        }),
    decreases es.len(),
{
    let r = obj_insert(es, key, val);
    if es.len() == 0 {
        assert(r.drop_first() =~= Seq::<(Seq<char>, JsonView)>::empty());
    } else if es[0].0 == key {
        assert(r.drop_first() =~= es.drop_first());
    } else if crate::text::lex_lt(es[0].0, key) {
        lemma_obj_insert_get(es.drop_first(), key, val, k);
        assert(r.drop_first() =~= obj_insert(es.drop_first(), key, val));
    } else {
        assert(r.drop_first() =~= es);
    }
}

/// Sets `key` to `val` in an object's entries, as a sorted map does.
pub fn object_insert(entries: &mut Vec<(String, JsonValue)>, key: String, val: JsonValue)
    ensures
        entries_view(final(entries)@) == obj_insert(entries_view(old(entries)@), key@, val@),
{
    proof {
        lemma_entries_view(entries@);
    }
    let ghost ev = entries_view(entries@);
    let mut k: usize = 0;
    while k < entries.len() && !crate::text::str_eq(entries[k].0.as_str(), key.as_str())
        && crate::text::str_less(entries[k].0.as_str(), key.as_str())
        invariant
            k <= entries@.len(),
            ev == entries_view(entries@),
            ev.len() == entries@.len(),
            forall|i: int|
                0 <= i < entries@.len() ==> #[trigger] ev[i] == (entries@[i].0@, jv(entries@[i].1)),
            forall|j: int|
                0 <= j < k ==> #[trigger] ev[j].0 != key@ && crate::text::lex_lt(ev[j].0, key@),
        decreases entries.len() - k,
    {
        k = k + 1;
    }
    proof {
        lemma_obj_insert_at(ev, key@, val@, k as int);
    }
    let ghost kv = key@;
    let ghost vv = val@;
    if k < entries.len() && crate::text::str_eq(entries[k].0.as_str(), key.as_str()) {
        entries.set(k, (key, val));
    } else {
        entries.insert(k, (key, val));
    }
    proof {
        lemma_entries_view(entries@);
    }
    assert(entries_view(entries@) =~= obj_insert(ev, kv, vv));
}

/// `serde_json`'s dynamic value, carried only to be converted.
#[verifier::external_type_specification]
#[verifier::external_body]
pub struct ExValue(serde_json::Value);

/// No two entries of an object share a key.
pub open spec fn distinct_keys(es: Seq<(Seq<char>, JsonView)>) -> bool {
    forall|i: int, j: int| 0 <= i < j < es.len() ==> #[trigger] es[i].0 != #[trigger] es[j].0
}

/// No object inside `v`, at any depth, has two entries with one key: what a
/// `serde_json` map, and so every parsed value, holds.
pub open spec fn json_wf(v: JsonView) -> bool
    decreases v,
{
    match v {
        JsonView::Array(items) => forall|i: int| 0 <= i < items.len() ==> json_wf(#[trigger] items[i]),
        JsonView::Object(es) => distinct_keys(es) && forall|i: int|
            0 <= i < es.len() ==> json_wf(#[trigger] es[i].1),
        _ => true,
    }
}

/// The meaning of an optional value.
pub open spec fn opt_view(v: Option<JsonValue>) -> Option<JsonView> {
    match v {
        Some(x) => Some(x@),
        None => None,
    }
}

/// The value `serde_json::from_str` reads from `text`, or the text of the error it
/// reports.
pub uninterp spec fn json_parse(text: Seq<char>) -> Result<JsonView, Seq<char>>;

/// The meaning of a parse outcome.
pub open spec fn parsed_view(r: Result<JsonValue, String>) -> Result<JsonView, Seq<char>> {
    match r {
        Ok(v) => Ok(v@),
        Err(e) => Err(e@),
    }
}

/// Converts `serde_json::Value` into [`JsonValue`], variant for variant; number
/// texts are `Number`'s own display form and object entries keep the map's order.
#[verifier::external_body]
fn from_serde_value(v: &serde_json::Value) -> JsonValue {
    match v {
        serde_json::Value::Null => JsonValue::Null,
        serde_json::Value::Bool(b) => JsonValue::Bool(*b),
        serde_json::Value::Number(n) => JsonValue::Number(n.to_string()),
        serde_json::Value::String(t) => JsonValue::String(t.clone()),
        serde_json::Value::Array(a) => JsonValue::Array(a.iter().map(from_serde_value).collect()),
        serde_json::Value::Object(o) => JsonValue::Object(
            o.iter().map(|(k, x)| (k.clone(), from_serde_value(x))).collect(),
        ),
    }
}

/// `serde_json::from_str::<serde_json::Value>`, the error read as its display text.
/// The claim: the outcome depends on the text alone, and it is named
/// [`json_parse`]; a parsed value has no object with a repeated key, since
/// `serde_json`'s map keeps one entry per key; JSON's grammar is left unsaid.
#[verifier::external_body]
pub(crate) fn parse_json(text: &str) -> (r: Result<JsonValue, String>)
    ensures
        parsed_view(r) == json_parse(text@),
        r matches Ok(v) ==> json_wf(v@),
{
    match serde_json::from_str::<serde_json::Value>(text) {
        Ok(v) => Ok(from_serde_value(&v)),
        Err(e) => Err(e.to_string()),
    }
}

} // verus!
