use kronforce::db::models::ExecutionStatus;
use kronforce::executor::runner::CapturedOutput;
use kronforce::executor::tasks::http::{private_ipv6_host, read_ipv4, read_mapped_ipv4, validate_url};
use kronforce::executor::tasks::outcomes::{
    broadcast_lines, exited_result, file_exists_result, file_push_content, file_written,
    http_outcome, parse_permissions, script_outcome, script_timed_out, streamed_output,
};

fn lines(v: &[&str]) -> Vec<String> {
    v.iter().map(|s| s.to_string()).collect()
}

#[test]
fn script_value_and_printed_lines() {
    let r = script_outcome(&lines(&["a", "b"]), &lines(&[]), None, Ok("42".to_string()));
    assert!(r.status == ExecutionStatus::Succeeded);
    assert_eq!(r.exit_code, Some(0));
    assert_eq!(r.stdout.text, "a\nb\n42");
    let r = script_outcome(&lines(&[]), &lines(&["dbg"]), Some("bad input".to_string()), Ok("()".to_string()));
    assert!(r.status == ExecutionStatus::Failed);
    assert_eq!(r.exit_code, None);
    assert_eq!(r.stdout.text, "()");
    assert_eq!(r.stderr.text, "dbg\nbad input");
    let r = script_outcome(&lines(&["x"]), &lines(&[]), None, Err("syntax error".to_string()));
    assert_eq!(r.exit_code, Some(1));
    assert_eq!(r.stdout.text, "x");
    assert_eq!(r.stderr.text, "syntax error");
    assert_eq!(script_timed_out(None).stderr.text, "script timed out after 60s");
}

#[test]
fn http_status_decides() {
    let r = http_outcome(204, "".to_string(), None);
    assert!(r.status == ExecutionStatus::Succeeded);
    let r = http_outcome(500, "oops".to_string(), None);
    assert!(r.status == ExecutionStatus::Failed);
    assert_eq!(r.exit_code, Some(500));
    let r = http_outcome(200, "ok".to_string(), Some(201));
    assert!(r.status == ExecutionStatus::Failed);
    assert_eq!(r.stderr.text, "expected status 201, got 200");
    assert_eq!(r.stdout.text, "ok");
    let r = http_outcome(404, "".to_string(), Some(404));
    assert!(r.status == ExecutionStatus::Failed);
}

#[test]
fn url_guard() {
    assert!(validate_url("https://example.com/x").is_ok());
    assert_eq!(validate_url("http://localhost:8080/").unwrap_err(), "URL targets a local address: localhost");
    assert_eq!(validate_url("http://printer.local/").unwrap_err(), "URL targets a local address: printer.local");
    assert_eq!(
        validate_url("http://169.254.169.254/latest").unwrap_err(),
        "URL targets a cloud metadata endpoint: 169.254.169.254"
    );
    assert_eq!(validate_url("http://10.1.2.3/").unwrap_err(), "URL targets a private IP: 10.1.2.3");
    assert_eq!(validate_url("http://172.20.0.1/").unwrap_err(), "URL targets a private IP: 172.20.0.1");
    assert!(validate_url("http://172.32.0.1/").is_ok());
    assert!(validate_url("not a url").unwrap_err().starts_with("invalid URL: "));
    assert_eq!(read_ipv4("1.2.3.4"), Some((1, 2, 3, 4)));
    assert_eq!(read_ipv4("01.2.3.4"), None);
    assert_eq!(read_ipv4("256.2.3.4"), None);
    assert_eq!(read_ipv4("1.2.3"), None);
}

#[test]
fn file_push_steps() {
    assert_eq!(file_push_content("aGVsbG8=").unwrap(), b"hello".to_vec());
    let e = file_push_content("!!!").unwrap_err();
    assert_eq!(e.exit_code, Some(1));
    assert!(e.stderr.text.starts_with("base64 decode error: "));
    assert_eq!(file_exists_result("/x").stderr.text, "file already exists: /x (overwrite=false)");
    assert_eq!(file_written("a.txt", "/d/a.txt", 5).stdout.text, "File 'a.txt' written to /d/a.txt (5 bytes)");
    assert_eq!(parse_permissions("755"), Some(0o755));
    assert_eq!(parse_permissions("+644"), Some(0o644));
    assert_eq!(parse_permissions("8"), None);
    assert_eq!(parse_permissions(""), None);
}

#[test]
fn process_results_and_lines() {
    let out = CapturedOutput { text: "o".to_string(), truncated: false };
    let err = CapturedOutput { text: "e".to_string(), truncated: false };
    let r = exited_result(false, Some(2), out, err);
    assert!(r.status == ExecutionStatus::Failed);
    assert_eq!(r.exit_code, Some(2));
    let s = streamed_output(&lines(&["one", "two"]));
    assert_eq!(s.text, "one\ntwo");
    assert!(!s.truncated);
    let r = exited_result(
        true,
        Some(0),
        CapturedOutput { text: "a\r\nb\n".to_string(), truncated: false },
        CapturedOutput { text: "warn".to_string(), truncated: false },
    );
    assert_eq!(broadcast_lines(&r), lines(&["a", "b", "[stderr] warn"]));
}

#[test]
fn validate_url_refuses_ipv6_internal_hosts() {
    assert_eq!(validate_url("http://[::1]:8080/").unwrap_err(), "URL targets a local address: [::1]");
    assert_eq!(validate_url("http://[::]/").unwrap_err(), "URL targets a local address: [::]");
    assert_eq!(validate_url("http://[fd12:3456::1]/").unwrap_err(), "URL targets a private IP: [fd12:3456::1]");
    assert_eq!(validate_url("http://[FC00::2]/").unwrap_err(), "URL targets a private IP: [fc00::2]");
    assert_eq!(validate_url("http://[fe80::1]/").unwrap_err(), "URL targets a private IP: [fe80::1]");
    assert_eq!(validate_url("http://[febf::1]/").unwrap_err(), "URL targets a private IP: [febf::1]");
    assert!(validate_url("http://[fec0::1]/").is_ok());
    assert!(validate_url("http://[2001:db8::1]/").is_ok());
    assert_eq!(
        validate_url("http://[::ffff:127.0.0.1]/").unwrap_err(),
        "URL targets a private IP: [::ffff:7f00:1]"
    );
    assert_eq!(validate_url("http://[::ffff:10.0.0.1]/").unwrap_err(), "URL targets a private IP: [::ffff:a00:1]");
    assert!(validate_url("http://[::ffff:8.8.8.8]/").is_ok());
    assert_eq!(read_mapped_ipv4("[::ffff:c0a8:101]"), Some((192, 168, 1, 1)));
    assert_eq!(read_mapped_ipv4("[::fffe:c0a8:101]"), None);
    assert_eq!(read_mapped_ipv4("[::ffff:12345:1]"), None);
    assert!(private_ipv6_host("[fd00::]"));
    assert!(!private_ipv6_host("fd00.example.com"));
}
