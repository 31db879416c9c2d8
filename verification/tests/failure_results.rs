use kronforce::db::models::ExecutionStatus;
use kronforce::executor::runner::{truncate_output, CommandResult};
use kronforce::executor::tasks::outcomes::{
    dir_create_failed, docker_dir_name, docker_store_missing, docker_tag, dockerfile_read_failed,
    dockerfile_write_failed, file_write_failed, http_request_failed, http_timeout, make_error,
    make_result, process_error_result, script_cancelled, script_panicked, script_read_failed,
    script_store_missing, script_timeout, spawn_failed, temp_dir_failed,
};

fn check(r: CommandResult, status: ExecutionStatus, code: Option<i32>, stderr: &str) {
    assert_eq!(r.status, status);
    assert_eq!(r.exit_code, code);
    assert_eq!(r.stderr.text, stderr);
    assert_eq!(r.stdout.text, "");
}

#[test]
fn script_failures() {
    check(script_store_missing(), ExecutionStatus::Failed, None, "script store not available on agent");
    check(script_read_failed("nope"), ExecutionStatus::Failed, None, "script error: nope");
    check(script_panicked("oops"), ExecutionStatus::Failed, None, "script task panicked: oops");
    check(script_cancelled(), ExecutionStatus::Cancelled, None, "script cancelled");
    assert_eq!(script_timeout(None), 60);
    assert_eq!(script_timeout(Some(5)), 5);
}

#[test]
fn http_and_file_failures() {
    assert_eq!(http_timeout(None), 30);
    assert_eq!(http_timeout(Some(2)), 2);
    check(http_request_failed("refused"), ExecutionStatus::Failed, None, "HTTP request failed: refused");
    check(dir_create_failed("/x", "denied"), ExecutionStatus::Failed, Some(1), "failed to create directory /x: denied");
    check(file_write_failed("full"), ExecutionStatus::Failed, Some(1), "failed to write file: full");
    check(make_error(3, "m".to_string()), ExecutionStatus::Failed, Some(3), "m");
    let r = make_result(ExecutionStatus::Succeeded, Some(0), "out".to_string(), String::new());
    assert_eq!(r.stdout.text, "out");
    assert_eq!(r.status, ExecutionStatus::Succeeded);
}

#[test]
fn docker_and_process_failures() {
    assert_eq!(docker_tag(Some("img:1"), "build"), "img:1");
    assert_eq!(docker_tag(None, "build"), "build");
    assert_eq!(docker_dir_name("abc"), "kf-docker-abc");
    check(docker_store_missing(), ExecutionStatus::Failed, None, "script store not available");
    check(dockerfile_read_failed("web", "gone"), ExecutionStatus::Failed, None, "failed to read Dockerfile script 'web': gone");
    check(temp_dir_failed("ro"), ExecutionStatus::Failed, None, "failed to create temp dir: ro");
    check(dockerfile_write_failed("ro"), ExecutionStatus::Failed, None, "failed to write Dockerfile: ro");
    check(spawn_failed("ENOENT"), ExecutionStatus::Failed, None, "failed to spawn process: ENOENT");
    let r = process_error_result(truncate_output(b"half".to_vec()), "broken pipe");
    assert_eq!(r.status, ExecutionStatus::Failed);
    assert_eq!(r.stdout.text, "half");
    assert_eq!(r.stderr.text, "process error: broken pipe");
}
