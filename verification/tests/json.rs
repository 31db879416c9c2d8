use kronforce::json::{as_str, as_u64, get, jobj, jstr, object_insert, to_json_string, JsonValue};

fn n(t: &str) -> JsonValue {
    JsonValue::Number(t.to_string())
}

#[test]
fn compact_text_escapes_strings() {
    let v = JsonValue::Array(vec![
        JsonValue::Null,
        JsonValue::Bool(true),
        n("-1.5"),
        jstr("a\"b\\c\n\u{1}"),
        jobj(vec![("k".to_string(), JsonValue::Array(vec![]))]),
    ]);
    assert_eq!(to_json_string(&v), r#"[null,true,-1.5,"a\"b\\c\n\u0001",{"k":[]}]"#);
    assert_eq!(to_json_string(&jstr("tab\there")), r#""tab\there""#);
    assert_eq!(to_json_string(&jobj(vec![("b".to_string(), n("1")), ("a".to_string(), n("2"))])), r#"{"b":1,"a":2}"#);
}

#[test]
fn lookups() {
    let v = jobj(vec![("a".to_string(), n("7")), ("b".to_string(), jstr("x"))]);
    assert_eq!(as_u64(get(&v, "a").unwrap()), Some(7));
    assert_eq!(as_str(get(&v, "b").unwrap()), Some("x"));
    assert!(get(&v, "c").is_none());
    assert!(get(&jstr("a"), "a").is_none());
    assert_eq!(as_u64(&n("-3")), None);
    assert_eq!(as_u64(&n("1.0")), None);
    assert_eq!(as_u64(&n("18446744073709551615")), Some(u64::MAX));
    assert_eq!(as_u64(&n("18446744073709551616")), None);
}

#[test]
fn insert_keeps_keys_sorted() {
    let mut es = vec![("b".to_string(), n("1")), ("d".to_string(), n("2"))];
    object_insert(&mut es, "c".to_string(), n("3"));
    object_insert(&mut es, "a".to_string(), n("4"));
    object_insert(&mut es, "d".to_string(), n("5"));
    object_insert(&mut es, "e".to_string(), n("6"));
    assert_eq!(to_json_string(&JsonValue::Object(es)), r#"{"a":4,"b":1,"c":3,"d":5,"e":6}"#);
}
