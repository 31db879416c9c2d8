use kronforce::datetime::UtcDateTime;
use kronforce::db::models::{AgentStatus, AgentType, EventSeverity, ExecutionRecord, ExecutionStatus, TriggerSource};
use kronforce::error::AppError;
use kronforce::executor::dispatch::{
    agent_not_found, callback_url, check_agent_online, completion_message, completion_severity,
    dependents_of, dispatch_answer, dispatch_by_queue, eligible_agents, first_dispatched,
    group_all_succeeded, group_completed_message, job_group, no_agents_error, pick_index,
    required_agent_type,
};
use kronforce::executor::runner::{CapturedOutput, CommandResult};
use kronforce::executor::scripts::{
    is_valid_script_name, script_not_found, script_type_of, sort_by_name, ScriptInfo, ScriptStore,
};
use kronforce::json::to_json_string;
use kronforce::text::sorted_order;

fn msg(e: AppError) -> String {
    e.message().clone()
}

#[test]
fn agent_choice() {
    assert!(required_agent_type(true) == AgentType::Custom);
    assert_eq!(msg(agent_not_found("abc")), "agent abc not found");
    assert!(check_agent_online("a1", AgentStatus::Online).is_ok());
    assert_eq!(msg(check_agent_online("a1", AgentStatus::Draining).unwrap_err()), "agent a1 is draining");
    let types = vec![AgentType::Standard, AgentType::Custom, AgentType::Standard];
    assert_eq!(eligible_agents(&types, AgentType::Standard), vec![0, 2]);
    assert_eq!(msg(no_agents_error(AgentType::Custom, Some("gpu"))), "no online custom agents with tag 'gpu'");
    assert_eq!(msg(no_agents_error(AgentType::Standard, None)), "no online standard agents available");
    assert_eq!(pick_index(3, 10), 1);
    assert_eq!(callback_url("http://c:8080"), "http://c:8080/api/callbacks/execution-result");
    assert!(dispatch_by_queue(AgentType::Custom));
}

#[test]
fn dispatch_outcomes() {
    assert!(dispatch_answer(true, None).is_ok());
    let (stderr, e) = dispatch_answer(false, None).unwrap_err();
    assert_eq!(stderr, "agent rejected: rejected");
    assert!(matches!(e, AppError::AgentError(ref m) if m == "rejected"));
    let (stderr, _) = dispatch_answer(false, Some("busy".to_string())).unwrap_err();
    assert_eq!(stderr, "agent rejected: busy");
    assert_eq!(first_dispatched(&vec![None, Some(5), Some(6)]).unwrap(), 5);
    assert_eq!(msg(first_dispatched(&vec![None, None]).unwrap_err()), "failed to dispatch to any agent");
}

#[test]
fn completion_reports() {
    assert!(completion_severity(ExecutionStatus::TimedOut) == EventSeverity::Error);
    assert!(completion_severity(ExecutionStatus::Cancelled) == EventSeverity::Warning);
    assert!(completion_severity(ExecutionStatus::Skipped) == EventSeverity::Info);
    assert_eq!(completion_message("backup", "e1", ExecutionStatus::TimedOut), "Job 'backup' execution e1 finished: TimedOut");
    assert_eq!(group_completed_message("etl"), "All jobs in group 'etl' have succeeded");
    assert_eq!(job_group(None), "Default");
    assert!(group_all_succeeded(&vec![Some(ExecutionStatus::Succeeded), Some(ExecutionStatus::Succeeded)]));
    assert!(!group_all_succeeded(&vec![Some(ExecutionStatus::Succeeded)]));
    assert!(!group_all_succeeded(&vec![Some(ExecutionStatus::Succeeded), None]));
    assert_eq!(dependents_of(&vec![vec![1, 2], vec![3], vec![2]], 2), vec![0, 2]);
}

#[test]
fn execution_record_lifecycle() {
    let now = UtcDateTime::from_ymd_hms(2024, 1, 1, 0, 0, 0).unwrap();
    let rec = ExecutionRecord::new(1, 2, TriggerSource::Api)
        .with_status(ExecutionStatus::Running)
        .with_agent_id(9)
        .with_started_at(now);
    assert!(rec.status == ExecutionStatus::Running);
    assert_eq!(rec.agent_id, Some(9));
    let result = CommandResult {
        status: ExecutionStatus::Succeeded,
        exit_code: Some(0),
        stdout: CapturedOutput { text: "ok".to_string(), truncated: false },
        stderr: CapturedOutput { text: String::new(), truncated: false },
    };
    let done = rec.completed(result, now);
    assert!(done.status == ExecutionStatus::Succeeded);
    assert_eq!(done.stdout, "ok");
    assert_eq!(done.finished_at, Some(now));
    let failed = ExecutionRecord::new(3, 4, TriggerSource::Scheduler).failed("dispatch failed: x".to_string(), now);
    assert!(failed.status == ExecutionStatus::Failed);
    assert_eq!(failed.stderr, "dispatch failed: x");
}

#[test]
fn scripts_store_paths() {
    let store = ScriptStore::new("/srv/scripts");
    assert_eq!(store.path_for("job", "rhai"), "/srv/scripts/job.rhai");
    let c = store.candidates("x");
    assert_eq!(c[1], ("/srv/scripts/x.dockerfile".to_string(), "dockerfile".to_string()));
    assert_eq!(store.save_path("build-1", Some("dockerfile")).unwrap(), "/srv/scripts/build-1.dockerfile");
    assert_eq!(ScriptStore::new("/s/").save_path("a_b", None).unwrap(), "/s/a_b.rhai");
    assert!(store.save_path("../etc", None).is_err());
    assert!(is_valid_script_name("héllo_1"));
    assert!(!is_valid_script_name("a b"));
    assert_eq!(script_type_of("rhai"), Some("rhai"));
    assert_eq!(script_type_of("txt"), None);
    assert_eq!(msg(script_not_found("zz")), "script 'zz' not found");
}

#[test]
fn name_order_is_stable() {
    let names = vec!["b".to_string(), "a".to_string(), "b".to_string(), "Z".to_string()];
    assert_eq!(sorted_order(&names), vec![3, 1, 0, 2]);
}

#[test]
fn error_response_bodies() {
    assert_eq!(to_json_string(&AppError::NotFound("gone".to_string()).response_body()), r#"{"error":"gone"}"#);
    assert_eq!(to_json_string(&AppError::Db("disk".to_string()).response_body()), r#"{"error":"internal error"}"#);
    assert_eq!(AppError::AgentUnavailable(String::new()).http_status(), 503);
}

fn info(name: &str, script_type: &str, size: u64) -> ScriptInfo {
    ScriptInfo { name: name.to_string(), script_type: script_type.to_string(), size, modified: None }
}

#[test]
fn script_listing_is_ordered_by_name() {
    let scripts = vec![
        info("deploy", "rhai", 3),
        info("build", "dockerfile", 7),
        info("deploy", "dockerfile", 5),
        info("Zed", "rhai", 1),
    ];
    let sorted = sort_by_name(&scripts);
    let seen: Vec<(String, u64)> = sorted.iter().map(|s| (s.name.clone(), s.size)).collect();
    assert_eq!(
        seen,
        vec![
            ("Zed".to_string(), 1),
            ("build".to_string(), 7),
            ("deploy".to_string(), 3),
            ("deploy".to_string(), 5),
        ]
    );
    assert_eq!(sorted[1].script_type, "dockerfile");
    assert!(sort_by_name(&Vec::new()).is_empty());
}

#[test]
fn retries_track_the_first_run_and_attempt() {
    let first = ExecutionRecord::new(10, 2, TriggerSource::Api).with_retry_tracking();
    assert_eq!(first.retry_of, None);
    assert_eq!(first.attempt_number, 1);
    assert!(first.params.is_none());
    let t = first.next_retry();
    assert!(t == TriggerSource::Retry { original_execution_id: 10, attempt: 2 });
    let second = ExecutionRecord::new(11, 2, t).with_retry_tracking();
    assert_eq!(second.retry_of, Some(10));
    assert_eq!(second.attempt_number, 2);
    assert!(second.next_retry() == TriggerSource::Retry { original_execution_id: 10, attempt: 3 });
    let with = ExecutionRecord::new(12, 2, TriggerSource::Scheduler).with_params(Some(kronforce::json::jstr("p")));
    assert_eq!(kronforce::json::to_json_string(with.params.as_ref().unwrap()), r#""p""#);
}
