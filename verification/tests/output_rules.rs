use kronforce::db::models::{ExtractionRule, OutputTrigger};
use kronforce::executor::output_rules::{run_extractions, run_triggers};

fn rule(name: &str, pattern: &str, rule_type: &str) -> ExtractionRule {
    ExtractionRule {
        name: name.to_string(),
        pattern: pattern.to_string(),
        rule_type: rule_type.to_string(),
        write_to_variable: None,
    }
}

fn lookup<'a>(pairs: &'a [(String, String)], key: &str) -> Option<&'a str> {
    pairs.iter().find(|(k, _)| k == key).map(|(_, v)| v.as_str())
}

#[test]
fn regex_rule_takes_group_one() {
    let out = run_extractions("count=42 items", &[rule("count", r"count=(\d+)", "regex")]);
    assert_eq!(lookup(&out, "count"), Some("42"));
    assert_eq!(out.len(), 1);
}

#[test]
fn regex_rule_prefers_named_group() {
    let out = run_extractions(
        "a=1 b=2",
        &[rule("v", r"a=(\d) b=(?P<second>\d)", "regex")],
    );
    assert_eq!(lookup(&out, "v"), Some("2"));
}

#[test]
fn regex_rule_without_match_extracts_nothing() {
    let out = run_extractions("nothing here", &[rule("x", r"id=(\d+)", "regex")]);
    assert!(out.is_empty());
}

#[test]
fn invalid_regex_extracts_nothing() {
    let out = run_extractions("abc", &[rule("x", r"(unclosed", "regex")]);
    assert!(out.is_empty());
}

#[test]
fn jsonpath_rule_walks_objects() {
    let stdout = "  {\"results\": {\"count\": 7, \"name\": \"job\", \"list\": [1, 2]}}\n";
    let out = run_extractions(
        stdout,
        &[
            rule("count", "$.results.count", "jsonpath"),
            rule("name", "results.name", "jsonpath"),
            rule("list", "$.results.list", "jsonpath"),
            rule("missing", "$.results.nope", "jsonpath"),
        ],
    );
    assert_eq!(lookup(&out, "count"), Some("7"));
    assert_eq!(lookup(&out, "name"), Some("job"));
    assert_eq!(lookup(&out, "list"), Some("[1,2]"));
    assert_eq!(lookup(&out, "missing"), None);
}

#[test]
fn jsonpath_null_and_invalid_json_extract_nothing() {
    let out = run_extractions("{\"a\": null}", &[rule("a", "$.a", "jsonpath")]);
    assert!(out.is_empty());
    let out = run_extractions("not json", &[rule("a", "$.a", "jsonpath")]);
    assert!(out.is_empty());
}

#[test]
fn unknown_rule_type_extracts_nothing() {
    let out = run_extractions("x=1", &[rule("x", r"x=(\d)", "xpath")]);
    assert!(out.is_empty());
}

#[test]
fn later_rule_of_same_name_wins() {
    let out = run_extractions(
        "a=1 b=2",
        &[rule("v", r"a=(\d)", "regex"), rule("w", r"a=(\d)", "regex"), rule("v", r"b=(\d)", "regex")],
    );
    assert_eq!(out.len(), 2);
    assert_eq!(lookup(&out, "v"), Some("2"));
    assert_eq!(lookup(&out, "w"), Some("1"));
}

fn trig(pattern: &str, severity: &str) -> OutputTrigger {
    OutputTrigger { pattern: pattern.to_string(), severity: severity.to_string() }
}

#[test]
fn triggers_match_stdout_or_stderr() {
    let out = run_triggers(
        "all good",
        "ERROR: disk full",
        &[trig("ERROR", "error"), trig("good$", "success"), trig("warn", "warning")],
    );
    assert_eq!(
        out,
        vec![
            ("ERROR".to_string(), "error".to_string()),
            ("good$".to_string(), "success".to_string())
        ]
    );
}

#[test]
fn invalid_trigger_pattern_falls_back_to_substring() {
    let out = run_triggers("value (x", "", &[trig("(x", "info"), trig("(y", "info")]);
    assert_eq!(out, vec![("(x".to_string(), "info".to_string())]);
}
