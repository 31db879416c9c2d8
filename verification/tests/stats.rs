use kronforce::db::stats::{
    add_custom_group, group_names, outcome_label, schedule_type_label, tally, task_type_label,
    timeline, timeline_column,
};

fn strings(v: &[&str]) -> Vec<String> {
    v.iter().map(|s| s.to_string()).collect()
}

#[test]
fn task_labels() {
    assert_eq!(task_type_label(r#"{"type":"shell","command":"ls"}"#), "Shell Command");
    assert_eq!(task_type_label(r#"{"type":"FILE_PUSH"}"#), "File Push");
    assert_eq!(task_type_label(r#"{"Http":{"url":"x"}}"#), "HTTP Request");
    assert_eq!(task_type_label(r#"{"type":"docker_build"}"#), "docker_build");
    assert_eq!(task_type_label(r#"{"type":7,"Sql":{}}"#), "SQL Query");
    assert_eq!(task_type_label("not json"), "Unknown");
    assert_eq!(task_type_label("{}"), "Unknown");
    assert_eq!(task_type_label("[1]"), "Unknown");
}

#[test]
fn schedule_labels() {
    assert_eq!(schedule_type_label(r#"{"type":"cron","value":"* * * * * *"}"#), "Cron Schedule");
    assert_eq!(schedule_type_label(r#""OnDemand""#), "On Demand");
    assert_eq!(schedule_type_label(r#"{"value":"x","OneShot":"2024"}"#), "One-Time");
    assert_eq!(schedule_type_label(r#"{"type":"calendar"}"#), "calendar");
    assert_eq!(schedule_type_label(r#"{"value":1}"#), "Unknown");
    assert_eq!(schedule_type_label("{"), "Unknown");
}

#[test]
fn outcome_labels_and_columns() {
    assert_eq!(outcome_label("timed_out"), "Timed Out");
    assert_eq!(outcome_label("skipped"), "skipped");
    assert_eq!(timeline_column("succeeded"), 0);
    assert_eq!(timeline_column("timed_out"), 1);
    assert_eq!(timeline_column("cancelled"), 2);
}

#[test]
fn tallies_count_each_label() {
    let mut t = tally(&strings(&["Kafka", "MQTT", "Kafka", "Kafka"]));
    t.sort();
    assert_eq!(t, vec![("Kafka".to_string(), 3), ("MQTT".to_string(), 1)]);
    assert!(tally(&vec![]).is_empty());
}

#[test]
fn groups_are_merged_sorted_and_distinct() {
    assert_eq!(
        group_names(&strings(&["ops", "Default", "billing"]), r#"["zeta","ops"]"#),
        strings(&["Default", "billing", "ops", "zeta"])
    );
    assert_eq!(group_names(&vec![], ""), strings(&["Default"]));
    assert_eq!(group_names(&strings(&["b"]), r#"["x",1]"#), strings(&["Default", "b"]));
    assert_eq!(group_names(&strings(&["b"]), "garbage"), strings(&["Default", "b"]));
}

#[test]
fn custom_groups_are_added_once() {
    assert_eq!(add_custom_group(r#"["b","a"]"#, "c"), Some(r#"["a","b","c"]"#.to_string()));
    assert_eq!(add_custom_group(r#"["b","a"]"#, "a"), None);
    assert_eq!(add_custom_group("", "x"), Some(r#"["x"]"#.to_string()));
    assert_eq!(add_custom_group("{bad", "x"), Some(r#"["x"]"#.to_string()));
    assert_eq!(add_custom_group(r#"["b","b"]"#, "a"), Some(r#"["a","b","b"]"#.to_string()));
}

#[test]
fn timeline_buckets() {
    let prefill = strings(&["2024-01-01T10:02", "2024-01-01T10:01"]);
    let rows = vec![
        ("2024-01-01T10:01".to_string(), "succeeded".to_string(), 3),
        ("2024-01-01T10:01".to_string(), "failed".to_string(), 1),
        ("2024-01-01T10:01".to_string(), "timed_out".to_string(), 2),
        ("2024-01-01T09:59".to_string(), "running".to_string(), 4),
    ];
    assert_eq!(
        timeline(&prefill, &rows),
        vec![
            ("2024-01-01T09:59".to_string(), 0, 0, 4),
            ("2024-01-01T10:01".to_string(), 3, 3, 0),
            ("2024-01-01T10:02".to_string(), 0, 0, 0),
        ]
    );
}
