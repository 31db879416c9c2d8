use kronforce::db::models::connection::is_sensitive_field;
use kronforce::db::models::{ExecutionStatus, FtpProtocol};
use kronforce::executor::dispatch::dispatch_failed_stderr;
use kronforce::executor::scripts::script_full;

#[test]
fn status_names_and_schemes() {
    assert_eq!(ExecutionStatus::TimedOut.debug_name(), "TimedOut");
    assert_eq!(ExecutionStatus::TimedOut.as_str(), "timed_out");
    assert_eq!(FtpProtocol::Sftp.scheme(), "sftp");
    assert_eq!(FtpProtocol::Ftps.scheme(), "ftps");
}

#[test]
fn small_builders() {
    assert_eq!(dispatch_failed_stderr("agent gone"), "dispatch failed: agent gone");
    let f = script_full("hello", "rhai", "print(\"é\")".to_string());
    assert_eq!(f.name, "hello");
    assert_eq!(f.script_type, "rhai");
    assert_eq!(f.size, 11);
    assert!(is_sensitive_field("password") && is_sensitive_field("header_value"));
    assert!(!is_sensitive_field("username"));
}
