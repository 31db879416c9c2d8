use kronforce::db::models::ExecutionStatus;
use kronforce::executor::runner::{
    cancelled_result, command_line, custom_task_result, empty_output, exit_status, failed_result,
    is_valid_run_as_user, shell_command, timed_out_result, truncate_output, MAX_OUTPUT_BYTES,
};

#[test]
fn short_output_is_kept_whole() {
    let c = truncate_output(b"hello\n".to_vec());
    assert_eq!(c.text, "hello\n");
    assert!(!c.truncated);
    let c = truncate_output(vec![0x66, 0xff, 0x6f]);
    assert_eq!(c.text, "f\u{fffd}o");
}

#[test]
fn long_output_keeps_the_tail() {
    let mut bytes = vec![b'a'; 5];
    bytes.extend(vec![b'b'; MAX_OUTPUT_BYTES]);
    let c = truncate_output(bytes);
    assert!(c.truncated);
    assert!(c.text.starts_with("[...truncated 5 bytes...]\nbbb"));
    assert_eq!(c.text.len(), "[...truncated 5 bytes...]\n".len() + MAX_OUTPUT_BYTES);
}

#[test]
fn fixed_results() {
    let r = failed_result("boom".to_string());
    assert_eq!(r.status, ExecutionStatus::Failed);
    assert_eq!(r.exit_code, None);
    assert_eq!(r.stderr.text, "boom");
    assert_eq!(r.stdout.text, "");
    let r = custom_task_result();
    assert_eq!(r.stderr.text, "custom tasks require a custom agent — cannot run locally");
    let r = timed_out_result(Some(30), empty_output());
    assert_eq!(r.status, ExecutionStatus::TimedOut);
    assert_eq!(r.stderr.text, "job timed out after 30s");
    assert_eq!(timed_out_result(None, empty_output()).stderr.text, "job timed out after 0s");
    let r = cancelled_result(truncate_output(b"partial".to_vec()));
    assert_eq!(r.status, ExecutionStatus::Cancelled);
    assert_eq!(r.stdout.text, "partial");
    assert_eq!(r.stderr.text, "job cancelled by user");
    assert_eq!(exit_status(true), ExecutionStatus::Succeeded);
    assert_eq!(exit_status(false), ExecutionStatus::Failed);
}

#[test]
fn run_as_users() {
    assert!(is_valid_run_as_user("deploy-user_1.x"));
    assert!(!is_valid_run_as_user("root; rm -rf /"));
    assert!(is_valid_run_as_user(""));
}

#[test]
fn command_lines() {
    assert_eq!(command_line("ls", None, false).unwrap(), vec!["sh", "-c", "ls"]);
    assert_eq!(command_line("dir", None, true).unwrap(), vec!["cmd", "/C", "dir"]);
    assert_eq!(
        command_line("id", Some("bob"), false).unwrap(),
        vec!["sudo", "-n", "-u", "bob", "sh", "-c", "id"]
    );
    match command_line("id", Some("bob"), true) {
        Err(r) => assert_eq!(r.stderr.text, "run_as is not supported on Windows"),
        Ok(_) => panic!("run_as on windows accepted"),
    }
    match command_line("id", Some("b b"), false) {
        Err(r) => {
            assert_eq!(r.status, ExecutionStatus::Failed);
            assert_eq!(r.stderr.text, "invalid run_as user: b b");
        }
        Ok(_) => panic!("bad user accepted"),
    }
}

#[test]
fn shell_commands_with_working_dir() {
    assert_eq!(shell_command("make", Some("/srv/it's"), false), "cd '/srv/it'\\''s' && make");
    assert_eq!(shell_command("make", None, false), "make");
    assert_eq!(shell_command("nmake", Some("C:\\b"), true), "cd \"C:\\b\" && nmake");
}
