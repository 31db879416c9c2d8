use kronforce::datetime::UtcDateTime;
use kronforce::db::models::auth::ApiKey;
use kronforce::db::models::{ApiKeyRole, Event, EventSeverity, EventTriggerConfig};
use kronforce::error::{AppError, ErrorKind};
use kronforce::json::to_json_string;
use kronforce::scheduler::events::{event_matches, pattern_matches};
use std::collections::HashMap;

#[test]
fn error_status_codes_and_bodies() {
    assert_eq!(AppError::NotFound("x".into()).http_status(), 404);
    assert_eq!(AppError::Conflict("x".into()).http_status(), 409);
    assert_eq!(AppError::BadRequest("x".into()).http_status(), 400);
    assert_eq!(AppError::Internal("x".into()).http_status(), 500);
    assert_eq!(AppError::Unauthorized("x".into()).http_status(), 401);
    assert_eq!(AppError::Forbidden("x".into()).http_status(), 403);
    assert_eq!(AppError::AgentError("x".into()).http_status(), 502);
    assert_eq!(AppError::AgentUnavailable("x".into()).http_status(), 503);
    assert_eq!(AppError::Db("disk I/O".into()).http_status(), 500);
    assert_eq!(AppError::Db("disk I/O".into()).response_message(), "internal error");
    assert_eq!(AppError::Forbidden("no".into()).response_message(), "no");
    assert!(AppError::Conflict("c".into()).kind() == ErrorKind::Conflict);
    assert_eq!(to_json_string(&AppError::NotFound("job 7".into()).response_body()), r#"{"error":"job 7"}"#);
    assert_eq!(to_json_string(&AppError::Db("locked".into()).response_body()), r#"{"error":"internal error"}"#);
}

fn key(role: ApiKeyRole, groups: Option<Vec<&str>>) -> ApiKey {
    ApiKey {
        id: 1,
        key_prefix: "kf_abc".into(),
        key_hash: "h".into(),
        name: "k".into(),
        role,
        created_at: UtcDateTime::from_ymd_hms(2024, 1, 1, 0, 0, 0).unwrap(),
        last_used_at: None,
        active: true,
        allowed_groups: groups.map(|g| g.into_iter().map(String::from).collect()),
        ip_allowlist: None,
        expires_at: None,
    }
}

#[test]
fn role_permissions() {
    assert!(ApiKeyRole::Admin.can_write() && ApiKeyRole::Operator.can_write());
    assert!(!ApiKeyRole::Viewer.can_write() && !ApiKeyRole::Agent.can_write());
    assert!(ApiKeyRole::Admin.can_manage_keys() && !ApiKeyRole::Operator.can_manage_keys());
    assert!(ApiKeyRole::Agent.is_agent() && !ApiKeyRole::Viewer.is_agent());
    assert_eq!(ApiKeyRole::from_str("viewer"), Some(ApiKeyRole::Viewer));
    assert_eq!(ApiKeyRole::from_str("root"), None);
    assert_eq!(ApiKeyRole::Operator.as_str(), "operator");
}

#[test]
fn group_restrictions() {
    let k = key(ApiKeyRole::Operator, Some(vec!["ops", "Default"]));
    assert!(k.can_access_group(Some("ops")));
    assert!(!k.can_access_group(Some("finance")));
    assert!(k.can_access_group(None));
    let k = key(ApiKeyRole::Viewer, Some(vec!["ops"]));
    assert!(!k.can_access_group(None));
    assert!(key(ApiKeyRole::Admin, Some(vec![])).can_access_group(Some("finance")));
    assert!(key(ApiKeyRole::Viewer, None).can_access_group(Some("finance")));
}

#[test]
fn kind_patterns() {
    assert!(pattern_matches("*", "anything.at.all"));
    assert!(pattern_matches("execution.*", "execution.failed"));
    assert!(pattern_matches("execution.*", "execution.a.b"));
    assert!(!pattern_matches("execution.*", "execution"));
    assert!(pattern_matches("execution.*", "execution."));
    assert!(pattern_matches("*", ""));
    assert!(!pattern_matches("execution.*", "executions.x"));
    assert!(pattern_matches("agent*", "agent_offline"));
    assert!(pattern_matches("job.created", "job.created"));
    assert!(!pattern_matches("job.created", "job.deleted"));
}

fn event(kind: &str, severity: EventSeverity, message: &str, job_id: Option<u128>) -> Event {
    Event {
        id: 9,
        kind: kind.into(),
        severity,
        message: message.into(),
        job_id,
        agent_id: None,
        api_key_id: None,
        api_key_name: None,
        execution_id: None,
        details: None,
        timestamp: UtcDateTime::from_ymd_hms(2024, 5, 1, 12, 0, 0).unwrap(),
    }
}

#[test]
fn events_fire_matching_triggers() {
    let mut names = HashMap::new();
    names.insert(5u128, "Nightly-Backup".to_string());
    let cfg = EventTriggerConfig {
        kind_pattern: "execution.*".into(),
        severity: Some(EventSeverity::Error),
        job_name_filter: Some("BACKUP".into()),
    };
    assert!(event_matches(&event("execution.failed", EventSeverity::Error, "x", Some(5)), &cfg, &names));
    assert!(!event_matches(&event("execution.failed", EventSeverity::Warning, "x", Some(5)), &cfg, &names));
    assert!(!event_matches(&event("agent.offline", EventSeverity::Error, "x", Some(5)), &cfg, &names));
    assert!(event_matches(&event("execution.failed", EventSeverity::Error, "the backup broke", None), &cfg, &names));
    assert!(!event_matches(&event("execution.failed", EventSeverity::Error, "other", Some(6)), &cfg, &names));
    let any = EventTriggerConfig { kind_pattern: "*".into(), severity: None, job_name_filter: None };
    assert!(event_matches(&event("x", EventSeverity::Info, "", None), &any, &names));
}

#[test]
fn errors_display_with_their_kind() {
    assert_eq!(AppError::NotFound("job x".to_string()).display_text(), "not found: job x");
    assert_eq!(AppError::BadRequest("bad".to_string()).display_text(), "bad request: bad");
    assert_eq!(AppError::AgentUnavailable("a1".to_string()).display_text(), "agent unavailable: a1");
    assert_eq!(AppError::Db("disk I/O error".to_string()).display_text(), "disk I/O error");
}
