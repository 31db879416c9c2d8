use kronforce::db::models::{ExecutionStatus, JobNotificationConfig};
use kronforce::executor::notifications::{
    choose_recipients, failed_message, notification_body, notification_subject, sent_message,
    should_notify, test_report, ChannelTest, NotificationRecipients,
};

fn cfg(on_failure: bool, on_success: bool, on_assertion_failure: bool) -> JobNotificationConfig {
    JobNotificationConfig { on_failure, on_success, on_assertion_failure, recipients: None }
}

#[test]
fn which_outcomes_notify() {
    assert!(should_notify(&cfg(true, false, false), ExecutionStatus::Failed));
    assert!(should_notify(&cfg(false, false, true), ExecutionStatus::TimedOut));
    assert!(!should_notify(&cfg(true, false, false), ExecutionStatus::Succeeded));
    assert!(should_notify(&cfg(false, true, false), ExecutionStatus::Succeeded));
    assert!(!should_notify(&cfg(true, true, true), ExecutionStatus::Cancelled));
}

#[test]
fn subject_and_body() {
    assert_eq!(notification_subject("backup", ExecutionStatus::TimedOut), "[Kronforce] Job 'backup' timed out");
    assert_eq!(notification_subject("backup", ExecutionStatus::Cancelled), "[Kronforce] Job 'backup' completed");
    assert_eq!(
        notification_body("backup", ExecutionStatus::Failed, "1234abcd", "2024-01-01 00:00:00 UTC", "disk full"),
        "Job: backup\nStatus: Failed\nExecution: 1234abcd\nTime: 2024-01-01 00:00:00 UTC\n\nError output:\ndisk full"
    );
    assert_eq!(
        notification_body("b", ExecutionStatus::Succeeded, "x", "t", ""),
        "Job: b\nStatus: Succeeded\nExecution: x\nTime: t\n"
    );
}

#[test]
fn recipients_override_only_when_non_empty() {
    let global = NotificationRecipients { emails: vec!["g@x".to_string()], phones: vec![] };
    let empty = NotificationRecipients { emails: vec![], phones: vec![] };
    let own = NotificationRecipients { emails: vec![], phones: vec!["+1".to_string()] };
    assert_eq!(choose_recipients(Some(&empty), &global).emails, vec!["g@x".to_string()]);
    assert_eq!(choose_recipients(None, &global).emails, vec!["g@x".to_string()]);
    let r = choose_recipients(Some(&own), &global);
    assert!(r.emails.is_empty());
    assert_eq!(r.phones, vec!["+1".to_string()]);
}

#[test]
fn log_and_report_texts() {
    assert_eq!(sent_message("Email", 2, "subj"), "Email sent to 2 recipient(s): subj");
    assert_eq!(failed_message("SMS", "subj", "timeout"), "SMS failed: subj — timeout");
    assert_eq!(
        test_report(&ChannelTest::Sent("a@b".to_string()), &ChannelTest::Disabled),
        "Email sent to a@b; SMS channel not enabled"
    );
    assert_eq!(
        test_report(&ChannelTest::NoRecipients, &ChannelTest::Failed("x".to_string())),
        "Email enabled but no recipients configured; SMS failed: x"
    );
}
