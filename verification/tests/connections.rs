use kronforce::db::models::connection::{mask_config, merge_config_preserving_secrets, ConnectionType};
use kronforce::error::AppError;
use kronforce::executor::connections::{apply_connection, connection_not_found, connection_reference};
use kronforce::json::{to_json_string, JsonValue};

fn s(x: &str) -> JsonValue {
    JsonValue::String(x.to_string())
}

fn obj(pairs: Vec<(&str, JsonValue)>) -> JsonValue {
    JsonValue::Object(pairs.into_iter().map(|(k, v)| (k.to_string(), v)).collect())
}

#[test]
fn mask_hides_non_empty_secrets() {
    let c = obj(vec![
        ("host", s("db")),
        ("password", s("hunter2")),
        ("token", s("")),
        ("secret_key", JsonValue::Number("5".to_string())),
    ]);
    assert_eq!(
        to_json_string(&mask_config(&c)),
        r#"{"host":"db","password":"********","token":"","secret_key":5}"#
    );
    assert_eq!(to_json_string(&mask_config(&s("x"))), r#""x""#);
}

#[test]
fn merge_keeps_secret_behind_sentinel() {
    let old = obj(vec![("password", s("hunter2")), ("user", s("a"))]);
    let new = obj(vec![("password", s("********")), ("token", s("********")), ("user", s("b"))]);
    assert_eq!(
        to_json_string(&merge_config_preserving_secrets(&old, &new)),
        r#"{"password":"hunter2","token":"********","user":"b"}"#
    );
    assert_eq!(to_json_string(&merge_config_preserving_secrets(&old, &s("y"))), r#""y""#);
}

#[test]
fn connection_type_text() {
    assert_eq!(ConnectionType::Rabbitmq.as_str(), "rabbitmq");
    assert_eq!(ConnectionType::S3.as_str(), "s3");
}

#[test]
fn reference_is_read_from_task_json() {
    let r = connection_reference(r#"{"type":"sql","connection":"main","query":"select 1"}"#).unwrap();
    let (name, v) = r.unwrap();
    assert_eq!(name, "main");
    assert_eq!(to_json_string(&v), r#"{"connection":"main","query":"select 1","type":"sql"}"#);
    assert!(connection_reference(r#"{"type":"shell","command":"ls"}"#).unwrap().is_none());
    assert!(connection_reference(r#"{"type":"sql","connection":""}"#).unwrap().is_none());
    assert!(matches!(connection_reference(r#"{"connection": oops"#), Err(AppError::Internal(_))));
}

#[test]
fn unset_task_fields_are_filled_and_set_ones_kept() {
    let task = obj(vec![("host", s("")), ("port", JsonValue::Null), ("type", s("ftp")), ("username", s("me"))]);
    let config = obj(vec![
        ("host", s("ftp.example.com")),
        ("password", s("pw")),
        ("port", JsonValue::Number("21".to_string())),
        ("username", s("other")),
    ]);
    let r = apply_connection(task, &config);
    assert_eq!(
        to_json_string(&r),
        r#"{"host":"ftp.example.com","password":"pw","port":21,"type":"ftp","username":"me"}"#
    );
}

#[test]
fn base_url_prefixes_a_path() {
    let task = obj(vec![("type", s("http")), ("url", s("/health"))]);
    let config = obj(vec![("base_url", s("https://api.example.com//"))]);
    assert_eq!(
        to_json_string(&apply_connection(task, &config)),
        r#"{"type":"http","url":"https://api.example.com/health"}"#
    );
}

#[test]
fn bearer_and_basic_auth_headers() {
    let task = obj(vec![("type", s("http")), ("url", s("https://x"))]);
    let config = obj(vec![("auth_type", s("bearer")), ("token", s("abc"))]);
    assert_eq!(
        to_json_string(&apply_connection(task, &config)),
        r#"{"headers":{"Authorization":"Bearer abc"},"type":"http","url":"https://x"}"#
    );
    let task = obj(vec![("type", s("http"))]);
    let config = obj(vec![("auth_type", s("basic")), ("password", s("pass")), ("username", s("user"))]);
    assert_eq!(
        to_json_string(&apply_connection(task, &config)),
        r#"{"headers":{"Authorization":"Basic dXNlcjpwYXNz"},"password":"pass","type":"http","username":"user"}"#
    );
}

#[test]
fn custom_header_and_existing_authorization() {
    let task = obj(vec![("type", s("http"))]);
    let config = obj(vec![("auth_type", s("header")), ("header_value", s("k1"))]);
    assert_eq!(
        to_json_string(&apply_connection(task, &config)),
        r#"{"headers":{"X-API-Key":"k1"},"type":"http"}"#
    );
    let task = obj(vec![("headers", obj(vec![("authorization", s("mine"))])), ("type", s("http"))]);
    let config = obj(vec![("auth_type", s("bearer")), ("token", s("abc"))]);
    assert_eq!(
        to_json_string(&apply_connection(task, &config)),
        r#"{"headers":{"authorization":"mine"},"type":"http"}"#
    );
}

#[test]
fn missing_connection_error() {
    match connection_not_found("db1") {
        AppError::BadRequest(m) => assert_eq!(m, "connection 'db1' not found"),
        _ => panic!("expected a bad request"),
    }
}

#[test]
fn masked_config_sent_back_restores_secrets() {
    let c = obj(vec![
        ("host", s("db")),
        ("password", s("hunter2")),
        ("token", s("")),
        ("access_key", s("AKIA")),
    ]);
    let shown = mask_config(&c);
    assert_eq!(
        to_json_string(&merge_config_preserving_secrets(&c, &shown)),
        to_json_string(&c)
    );
    assert_eq!(to_json_string(&mask_config(&shown)), to_json_string(&shown));
}
