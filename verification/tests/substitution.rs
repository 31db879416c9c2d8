use kronforce::error::AppError;
use kronforce::executor::substitution::substitute_variables;
use kronforce::json::JsonValue;

fn vars(pairs: &[(&str, &str)]) -> Vec<(String, String)> {
    pairs.iter().map(|(k, v)| (k.to_string(), v.to_string())).collect()
}

fn params(pairs: Vec<(&str, JsonValue)>) -> JsonValue {
    JsonValue::Object(pairs.into_iter().map(|(k, v)| (k.to_string(), v)).collect())
}

#[test]
fn no_placeholder_gives_none() {
    let r = substitute_variables(r#"{"type":"shell","command":"echo hi"}"#, &vars(&[]), None);
    assert!(matches!(r, Ok(None)));
}

#[test]
fn global_variable_is_substituted() {
    let r = substitute_variables(
        r#"{"type":"shell","command":"echo {{GREETING}}"}"#,
        &vars(&[("GREETING", "hello")]),
        None,
    )
    .unwrap()
    .unwrap();
    assert_eq!(r, r#"{"type":"shell","command":"echo hello"}"#);
}

#[test]
fn values_are_json_escaped() {
    let r = substitute_variables(
        r#"{"command":"echo {{X}}"}"#,
        &vars(&[("X", "a\"b\\c\nd")]),
        None,
    )
    .unwrap()
    .unwrap();
    assert_eq!(r, r#"{"command":"echo a\"b\\c\nd"}"#);
}

#[test]
fn params_are_substituted_first() {
    let p = params(vec![
        ("env", JsonValue::String("prod".to_string())),
        ("n", JsonValue::Number("3".to_string())),
    ]);
    let r = substitute_variables(
        r#"{"command":"deploy {{params.env}} x{{params.n}} {{V}}"}"#,
        &vars(&[("V", "v1")]),
        Some(&p),
    )
    .unwrap()
    .unwrap();
    assert_eq!(r, r#"{"command":"deploy prod x3 v1"}"#);
}

#[test]
fn unresolved_names_are_reported_sorted_and_once() {
    let r = substitute_variables(
        r#"{"command":"{{B}} {{A}} {{B}} {{params.p}}"}"#,
        &vars(&[]),
        None,
    );
    match r {
        Err(AppError::BadRequest(m)) => {
            assert_eq!(m, "unresolved variable reference(s): {{A}}, {{B}}, {{params.p}}")
        }
        _ => panic!("expected a bad request"),
    }
}

#[test]
fn braces_without_placeholder_give_none() {
    let r = substitute_variables(r#"{"command":"echo {{ not a name }}"}"#, &vars(&[("X", "1")]), None);
    assert!(matches!(r, Ok(None)));
}
