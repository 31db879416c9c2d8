//! How task runs are reported: the results of script, HTTP, file-push, Docker and
//! process runs, built from what the run came to.
use crate::db::models::ExecutionStatus;
use crate::executor::runner::{
    empty_output, failed_result, spec_truncated_text, truncate_output, CapturedOutput, CommandResult,
};
use crate::executor::utils::DEFAULT_SCRIPT_TIMEOUT_SECS;
use crate::text::{chars_of, dec, join, join_strings, push_decimal, texts, trim_chars, trim_ws};
use vstd::prelude::*;
use vstd::utf8::encode_utf8;

verus! {

/// A result of `status` with an exit code, and the two streams untruncated.
pub open spec fn plain_result(
    r: CommandResult,
    status: ExecutionStatus,
    exit_code: Option<i32>,
    stdout: Seq<char>,
    stderr: Seq<char>,
) -> bool {
    &&& r.status == status
    &&& r.exit_code == exit_code
    &&& r.stdout.text@ == stdout && !r.stdout.truncated
    &&& r.stderr.text@ == stderr && !r.stderr.truncated
}

/// A result built from its parts, both streams untruncated.
pub fn make_result(status: ExecutionStatus, exit_code: Option<i32>, stdout: String, stderr: String) -> (r: CommandResult)
    ensures
        plain_result(r, status, exit_code, stdout@, stderr@),
{
    CommandResult {
        status,
        exit_code,
        stdout: CapturedOutput { text: stdout, truncated: false },
        stderr: CapturedOutput { text: stderr, truncated: false },
    }
}

/// `prefix` followed by `detail`.
fn message(prefix: &str, detail: &str) -> (r: String)
    ensures
        r@ == prefix@ + detail@,
{
    let mut m = String::new();
    m.append(prefix);
    m.append(detail);
    m
}

/// A failure reported with exit code 1 and `message` on stderr.
pub fn make_error(exit_code: i32, message: String) -> (r: CommandResult)
    ensures
        plain_result(r, ExecutionStatus::Failed, Some(exit_code), seq![], message@),
{
    make_result(ExecutionStatus::Failed, Some(exit_code), String::new(), message)
}

// ---- scripts ----

/// The time limit of a script: the job's own, else the default.
pub fn script_timeout(timeout_secs: Option<u64>) -> (r: u64)
    ensures
        r == (match timeout_secs {
            Some(t) => t,
            None => DEFAULT_SCRIPT_TIMEOUT_SECS,
        }),
{
    match timeout_secs {
        Some(t) => t,
        None => DEFAULT_SCRIPT_TIMEOUT_SECS,
    }
}

/// The result when no script store is available on the agent.
pub fn script_store_missing() -> (r: CommandResult)
    ensures
        plain_result(r, ExecutionStatus::Failed, None, seq![], "script store not available on agent"@),
{
    failed_result("script store not available on agent".to_string())
}

/// The result when a script cannot be read.
pub fn script_read_failed(error: &str) -> (r: CommandResult)
    ensures
        plain_result(r, ExecutionStatus::Failed, None, seq![], "script error: "@ + error@),
{
    failed_result(message("script error: ", error))
}

/// `a`, a line break and `b`, without surrounding whitespace.
pub open spec fn trimmed_pair(a: Seq<char>, b: Seq<char>) -> Seq<char> {
    trim_ws(a + seq!['\n'] + b)
}

fn trimmed_lines(a: &str, b: &str) -> (r: String)
    ensures
        r@ == trimmed_pair(a@, b@),
{
    proof {
        reveal_strlit("\n");
        assert("\n"@ =~= seq!['\n']);
    }
    let mut s = String::new();
    s.append(a);
    s.append("\n");
    s.append(b);
    assert(s@ =~= a@ + seq!['\n'] + b@);
    crate::text::string_from_chars(trim_chars(chars_of(s.as_str()).as_slice()).as_slice())
}

/// What a finished script reports. `printed` and `debugged` are the lines it
/// printed and logged, `fail` the message it failed with, if any, and `value` the
/// display text of its final value or of its error.
pub open spec fn spec_script_outcome(
    printed: Seq<char>,
    debugged: Seq<char>,
    fail: Option<Seq<char>>,
    value: Result<Seq<char>, Seq<char>>,
) -> (ExecutionStatus, Option<i32>, Seq<char>, Seq<char>) {
    match value {
        Ok(v) => {
            let out = if printed.len() == 0 {
                v
            } else {
                printed + seq!['\n'] + v
            };
            match fail {
                Some(m) => (ExecutionStatus::Failed, None, out, trimmed_pair(debugged, m)),
                None => (ExecutionStatus::Succeeded, Some(0), out, debugged),
            }
        },
        Err(e) => (ExecutionStatus::Failed, Some(1), printed, trimmed_pair(debugged, e)),
    }
}

/// Reports a finished script run.
pub fn script_outcome(
    printed: &Vec<String>,
    debugged: &Vec<String>,
    fail: Option<String>,
    value: Result<String, String>,
) -> (r: CommandResult)
    ensures
        ({
            let o = spec_script_outcome(
                join(texts(printed@), seq!['\n']),
                join(texts(debugged@), seq!['\n']),
                match fail {
                    Some(m) => Some(m@),
                    None => None,
                },
                match value {
                    Ok(v) => Ok(v@),
                    Err(e) => Err(e@),
                },
            );
            plain_result(r, o.0, o.1, o.2, o.3)
        }),
{
    proof {
        reveal_strlit("\n");
        assert("\n"@ =~= seq!['\n']);
    }
    let out_lines = join_strings(printed, "\n");
    let err_lines = join_strings(debugged, "\n");
    match value {
        Ok(v) => {
            let out = if out_lines.unicode_len() == 0 {
                v
            } else {
                let mut o = out_lines.clone();
                o.append("\n");
                o.append(v.as_str());
                o
            };
            match fail {
                Some(m) => make_result(
                    ExecutionStatus::Failed,
                    None,
                    out,
                    trimmed_lines(err_lines.as_str(), m.as_str()),
                ),
                None => make_result(ExecutionStatus::Succeeded, Some(0), out, err_lines),
            }
        },
        Err(e) => make_result(
            ExecutionStatus::Failed,
            Some(1),
            out_lines,
            trimmed_lines(err_lines.as_str(), e.as_str()),
        ),
    }
}

/// The result when the script's worker stopped abnormally.
pub fn script_panicked(error: &str) -> (r: CommandResult)
    ensures
        plain_result(r, ExecutionStatus::Failed, None, seq![], "script task panicked: "@ + error@),
{
    failed_result(message("script task panicked: ", error))
}

/// The result when a script ran out of time.
pub fn script_timed_out(timeout_secs: Option<u64>) -> (r: CommandResult)
    ensures
        plain_result(
            r,
            ExecutionStatus::TimedOut,
            None,
            seq![],
            "script timed out after "@ + dec(
                match timeout_secs {
                    Some(t) => t as nat,
                    None => DEFAULT_SCRIPT_TIMEOUT_SECS as nat,
                },
            ) + "s"@,
        ),
{
    let mut m = String::new();
    m.append("script timed out after ");
    push_decimal(&mut m, script_timeout(timeout_secs));
    m.append("s");
    make_result(ExecutionStatus::TimedOut, None, String::new(), m)
}

/// The result when a script was cancelled.
pub fn script_cancelled() -> (r: CommandResult)
    ensures
        plain_result(r, ExecutionStatus::Cancelled, None, seq![], "script cancelled"@),
{
    make_result(ExecutionStatus::Cancelled, None, String::new(), "script cancelled".to_string())
}

// ---- HTTP ----

/// The time limit of an HTTP request: the job's own, else 30 seconds.
pub fn http_timeout(timeout_secs: Option<u64>) -> (r: u64)
    ensures
        r == (match timeout_secs {
            Some(t) => t,
            None => 30u64,
        }),
{
    match timeout_secs {
        Some(t) => t,
        None => 30,
    }
}

/// What an HTTP response comes to: a failure when it has not the expected status,
/// else success exactly for a 2xx status; the body goes to stdout either way.
pub open spec fn spec_http_outcome(status_code: u16, body: Seq<char>, expect_status: Option<u16>) -> (
    ExecutionStatus,
    Option<i32>,
    Seq<char>,
    Seq<char>,
) {
    match expect_status {
        Some(e) if e != status_code => (
            ExecutionStatus::Failed,
            Some(status_code as i32),
            body,
            "expected status "@ + dec(e as nat) + ", got "@ + dec(status_code as nat),
        ),
        _ => (
            if 200 <= status_code < 300 {
                ExecutionStatus::Succeeded
            } else {
                ExecutionStatus::Failed
            },
            Some(status_code as i32),
            body,
            seq![],
        ),
    }
}

/// Reports an HTTP response.
pub fn http_outcome(status_code: u16, body: String, expect_status: Option<u16>) -> (r: CommandResult)
    ensures
        ({
            let o = spec_http_outcome(status_code, body@, expect_status);
            plain_result(r, o.0, o.1, o.2, o.3)
        }),
{
    match expect_status {
        Some(e) => {
            if e != status_code {
                let mut m = String::new();
                m.append("expected status ");
                push_decimal(&mut m, e as u64);
                m.append(", got ");
                push_decimal(&mut m, status_code as u64);
                return make_result(ExecutionStatus::Failed, Some(status_code as i32), body, m);
            }
        },
        None => {},
    }
    let status = if 200 <= status_code && status_code < 300 {
        ExecutionStatus::Succeeded
    } else {
        ExecutionStatus::Failed
    };
    make_result(status, Some(status_code as i32), body, String::new())
}

/// The result when an HTTP request could not be made.
pub fn http_request_failed(error: &str) -> (r: CommandResult)
    ensures
        plain_result(r, ExecutionStatus::Failed, None, seq![], "HTTP request failed: "@ + error@),
{
    failed_result(message("HTTP request failed: ", error))
}

// ---- file push ----

/// The standard-alphabet base64 decoding `text` gives, or the text of the error.
pub uninterp spec fn base64_decoded(text: Seq<char>) -> Result<Seq<u8>, Seq<char>>;

/// `base64::engine::general_purpose::STANDARD.decode(text)`, the error as its
/// display text. The claim: the outcome depends on the text alone and is named
/// [`base64_decoded`]; the alphabet and padding rules are left unsaid.
#[verifier::external_body]
fn base64_decode(text: &str) -> (r: Result<Vec<u8>, String>)
    ensures
        match r {
            Ok(b) => base64_decoded(text@) == Ok::<Seq<u8>, Seq<char>>(b@),
            Err(e) => base64_decoded(text@) == Err::<Seq<u8>, Seq<char>>(e@),
        },
{
    base64::Engine::decode(&base64::engine::general_purpose::STANDARD, text).map_err(|e| e.to_string())
}

/// Decodes a file push's content, or gives the failed result for bad base64.
pub fn file_push_content(content_base64: &str) -> (r: Result<Vec<u8>, CommandResult>)
    ensures
        match base64_decoded(content_base64@) {
            Ok(b) => r matches Ok(v) && v@ == b,
            Err(e) => r matches Err(x) && plain_result(
                x,
                ExecutionStatus::Failed,
                Some(1),
                seq![],
                "base64 decode error: "@ + e,
            ),
        },
{
    match base64_decode(content_base64) {
        Ok(b) => Ok(b),
        Err(e) => Err(make_error(1, message("base64 decode error: ", e.as_str()))),
    }
}

/// The result when the destination exists and may not be overwritten.
pub fn file_exists_result(destination: &str) -> (r: CommandResult)
    ensures
        plain_result(
            r,
            ExecutionStatus::Failed,
            Some(1),
            seq![],
            "file already exists: "@ + destination@ + " (overwrite=false)"@,
        ),
{
    let mut m = message("file already exists: ", destination);
    m.append(" (overwrite=false)");
    make_error(1, m)
}

/// The result when the destination's directory cannot be created.
pub fn dir_create_failed(parent: &str, error: &str) -> (r: CommandResult)
    ensures
        plain_result(
            r,
            ExecutionStatus::Failed,
            Some(1),
            seq![],
            "failed to create directory "@ + parent@ + ": "@ + error@,
        ),
{
    let mut m = message("failed to create directory ", parent);
    m.append(": ");
    m.append(error);
    make_error(1, m)
}

/// The result when the file cannot be written.
pub fn file_write_failed(error: &str) -> (r: CommandResult)
    ensures
        plain_result(r, ExecutionStatus::Failed, Some(1), seq![], "failed to write file: "@ + error@),
{
    make_error(1, message("failed to write file: ", error))
}

/// The result of a file written.
pub fn file_written(filename: &str, destination: &str, size: usize) -> (r: CommandResult)
    ensures
        plain_result(
            r,
            ExecutionStatus::Succeeded,
            Some(0),
            "File '"@ + filename@ + "' written to "@ + destination@ + " ("@ + dec(size as nat)
                + " bytes)"@,
            seq![],
        ),
{
    let mut m = message("File '", filename);
    m.append("' written to ");
    m.append(destination);
    m.append(" (");
    push_decimal(&mut m, size as u64);
    m.append(" bytes)");
    make_result(ExecutionStatus::Succeeded, Some(0), m, String::new())
}

/// Whether `c` is an octal digit.
pub open spec fn is_octal(c: char) -> bool {
    '0' <= c && c <= '7'
}

/// The value of a sequence of octal digits.
pub open spec fn octal_value(s: Seq<char>) -> nat
    decreases s.len(),
{
    if s.len() == 0 {
        0
    } else {
        octal_value(s.drop_last()) * 8 + ((s.last() as u32) - ('0' as u32)) as nat
    }
}

/// What `u32::from_str_radix(s, 8)` gives: an optional `+`, then one or more
/// octal digits whose value fits in a `u32`.
pub open spec fn spec_octal_u32(s: Seq<char>) -> Option<u32> {
    let d = crate::text::unsigned_digits(s);
    if d.len() > 0 && (forall|i: int| 0 <= i < d.len() ==> is_octal(#[trigger] d[i]))
        && octal_value(d) <= u32::MAX {
        Some(octal_value(d) as u32)
    } else {
        None
    }
}

proof fn lemma_octal_mono(s: Seq<char>, i: int)
    requires
        0 <= i <= s.len(),
        forall|k: int| 0 <= k < s.len() ==> is_octal(#[trigger] s[k]),
    ensures
        octal_value(s.take(i)) <= octal_value(s),
    decreases s.len() - i,
{
    if i < s.len() {
        lemma_octal_mono(s, i + 1);
        assert(s.take(i + 1).drop_last() =~= s.take(i));
    } else {
        assert(s.take(i) =~= s);
    }
}

/// The file mode a permission text sets, read as octal.
pub fn parse_permissions(perm: &str) -> (r: Option<u32>)
    ensures
        r == spec_octal_u32(perm@),
{
    let s = chars_of(perm);
    let start: usize = if s.len() > 0 && s[0] == '+' {
        1
    } else {
        0
    };
    let ghost d = crate::text::unsigned_digits(s@);
    assert(d =~= s@.subrange(start as int, s@.len() as int));
    if start >= s.len() {
        return None;
    }
    let mut i = start;
    let mut acc: u64 = 0;
    while i < s.len()
        invariant
            start <= i <= s.len(),
            d == s@.subrange(start as int, s@.len() as int),
            d == crate::text::unsigned_digits(perm@),
            s@ == perm@,
            forall|k: int| start <= k < i ==> is_octal(s@[k]),
            acc as nat == octal_value(d.take(i - start)),
            acc <= u32::MAX,
        decreases s.len() - i,
    {
        let c = s[i];
        if !('0' <= c && c <= '7') {
            assert(!is_octal(d[i - start]));
            return None;
        }
        let v = (c as u32 - '0' as u32) as u64;
        assert(d.take(i - start + 1).drop_last() =~= d.take(i - start));
        assert(d.take(i - start + 1).last() == c);
        let next = acc * 8 + v;
        if next > 0xFFFF_FFFF {
            proof {
                if forall|k: int| 0 <= k < d.len() ==> is_octal(#[trigger] d[k]) {
                    lemma_octal_mono(d, i - start + 1);
                }
            }
            return None;
        }
        acc = next;
        i = i + 1;
    }
    assert(d.take(i - start) =~= d);
    Some(acc as u32)
}

// ---- Docker ----

/// The image tag of a Docker build: the one given, else the script's name.
pub fn docker_tag<'a>(image_tag: Option<&'a str>, script_name: &'a str) -> (r: &'a str)
    ensures
        r@ == (match image_tag {
            Some(t) => t@,
            None => script_name@,
        }),
{
    match image_tag {
        Some(t) => t,
        None => script_name,
    }
}

/// The result when no script store is available for a Docker build.
pub fn docker_store_missing() -> (r: CommandResult)
    ensures
        plain_result(r, ExecutionStatus::Failed, None, seq![], "script store not available"@),
{
    failed_result("script store not available".to_string())
}

/// The result when the Dockerfile script cannot be read.
pub fn dockerfile_read_failed(script_name: &str, error: &str) -> (r: CommandResult)
    ensures
        plain_result(
            r,
            ExecutionStatus::Failed,
            None,
            seq![],
            "failed to read Dockerfile script '"@ + script_name@ + "': "@ + error@,
        ),
{
    let mut m = message("failed to read Dockerfile script '", script_name);
    m.append("': ");
    m.append(error);
    failed_result(m)
}

/// The result when the build directory cannot be created.
pub fn temp_dir_failed(error: &str) -> (r: CommandResult)
    ensures
        plain_result(r, ExecutionStatus::Failed, None, seq![], "failed to create temp dir: "@ + error@),
{
    failed_result(message("failed to create temp dir: ", error))
}

/// The result when the Dockerfile cannot be written.
pub fn dockerfile_write_failed(error: &str) -> (r: CommandResult)
    ensures
        plain_result(r, ExecutionStatus::Failed, None, seq![], "failed to write Dockerfile: "@ + error@),
{
    failed_result(message("failed to write Dockerfile: ", error))
}

/// The name of a build directory: `kf-docker-` and a unique id.
pub fn docker_dir_name(unique: &str) -> (r: String)
    ensures
        r@ == "kf-docker-"@ + unique@,
{
    message("kf-docker-", unique)
}

// ---- processes ----

/// The result when a process cannot be started.
pub fn spawn_failed(error: &str) -> (r: CommandResult)
    ensures
        plain_result(r, ExecutionStatus::Failed, None, seq![], "failed to spawn process: "@ + error@),
{
    failed_result(message("failed to spawn process: ", error))
}

/// The result of a process that exited: success exactly when it reported success.
pub fn exited_result(
    success: bool,
    exit_code: Option<i32>,
    stdout: CapturedOutput,
    stderr: CapturedOutput,
) -> (r: CommandResult)
    ensures
        r.status == (if success {
            ExecutionStatus::Succeeded
        } else {
            ExecutionStatus::Failed
        }),
        r.exit_code == exit_code,
        r.stdout == stdout,
        r.stderr == stderr,
{
    CommandResult {
        status: crate::executor::runner::exit_status(success),
        exit_code,
        stdout,
        stderr,
    }
}

/// The result when waiting for the process failed.
pub fn process_error_result(stdout: CapturedOutput, error: &str) -> (r: CommandResult)
    ensures
        r.status == ExecutionStatus::Failed,
        r.exit_code is None,
        r.stdout == stdout,
        r.stderr.text@ == "process error: "@ + error@,
        !r.stderr.truncated,
{
    CommandResult {
        status: ExecutionStatus::Failed,
        exit_code: None,
        stdout,
        stderr: CapturedOutput { text: message("process error: ", error), truncated: false },
    }
}

/// Output collected line by line: the lines joined with line breaks, then kept as
/// [`truncate_output`] keeps bytes.
pub fn streamed_output(lines: &Vec<String>) -> (r: CapturedOutput)
    ensures
        r.text@ == spec_truncated_text(encode_utf8(join(texts(lines@), seq!['\n']))),
        r.truncated == (encode_utf8(join(texts(lines@), seq!['\n'])).len() > crate::executor::runner::MAX_OUTPUT_BYTES),
{
    proof {
        reveal_strlit("\n");
        assert("\n"@ =~= seq!['\n']);
    }
    let text = join_strings(lines, "\n");
    let b = text.as_str().as_bytes();
    let mut bytes: Vec<u8> = Vec::new();
    let mut i: usize = 0;
    while i < b.len()
        invariant
            i <= b@.len(),
            bytes@ == b@.take(i as int),
        decreases b.len() - i,
    {
        bytes.push(b[i]);
        assert(bytes@ =~= b@.take(i + 1));
        i = i + 1;
    }
    assert(bytes@ =~= b@);
    truncate_output(bytes)
}

/// The lines of `s` as `str::lines` yields them: split at line breaks, a final
/// empty piece dropped, and one trailing carriage return removed from each.
pub open spec fn spec_lines(s: Seq<char>) -> Seq<Seq<char>> {
    let parts = crate::text::split_on(s, '\n');
    let kept = if parts.len() > 0 && parts.last().len() == 0 {
        parts.drop_last()
    } else {
        parts
    };
    kept.map_values(|p: Seq<char>| strip_cr(p))
}

/// `p` without one trailing carriage return.
pub open spec fn strip_cr(p: Seq<char>) -> Seq<char> {
    if p.len() > 0 && p.last() == '\r' {
        p.drop_last()
    } else {
        p
    }
}

fn push_lines(out: &mut Vec<String>, s: &str, prefix: &str)
    ensures
        texts(final(out)@) == texts(old(out)@) + spec_lines(s@).map_values(
            |l: Seq<char>| prefix@ + l,
        ),
{
    let parts = crate::text::split_char(chars_of(s).as_slice(), '\n');
    let ghost ps = crate::text::split_on(s@, '\n');
    let n = if parts.len() > 0 && parts[parts.len() - 1].len() == 0 {
        parts.len() - 1
    } else {
        parts.len()
    };
    let ghost kept = if ps.len() > 0 && ps.last().len() == 0 {
        ps.drop_last()
    } else {
        ps
    };
    assert(kept.len() == n);
    let ghost start = texts(out@);
    let mut i: usize = 0;
    while i < n
        invariant
            i <= n,
            n <= parts@.len(),
            kept.len() == n,
            parts@.len() == ps.len(),
            forall|k: int| 0 <= k < parts@.len() ==> #[trigger] parts@[k]@ == ps[k],
            forall|k: int| 0 <= k < n ==> #[trigger] kept[k] == ps[k],
            texts(out@) == start + kept.take(i as int).map_values(|p: Seq<char>| strip_cr(p)).map_values(
                |l: Seq<char>| prefix@ + l,
            ),
        decreases n - i,
    {
        let p = &parts[i];
        let m = p.len();
        let line = if m > 0 && p[m - 1] == '\r' {
            crate::text::slice_chars(p.as_slice(), 0, m - 1)
        } else {
            crate::text::slice_chars(p.as_slice(), 0, m)
        };
        assert(line@ == strip_cr(kept[i as int]));
        let mut t = prefix.to_string();
        t.append(crate::text::string_from_chars(line.as_slice()).as_str());
        let ghost before = texts(out@);
        out.push(t);
        assert(texts(out@) =~= before.push(prefix@ + strip_cr(kept[i as int])));
        assert(kept.take(i + 1).map_values(|p: Seq<char>| strip_cr(p)).map_values(
            |l: Seq<char>| prefix@ + l,
        ) =~= kept.take(i as int).map_values(|p: Seq<char>| strip_cr(p)).map_values(
            |l: Seq<char>| prefix@ + l,
        ).push(prefix@ + strip_cr(kept[i as int])));
        i = i + 1;
    }
    assert(kept.take(n as int) =~= kept);
}

/// The lines of `s`, as `str::lines` yields them.
pub fn text_lines(s: &str) -> (r: Vec<String>)
    ensures
        texts(r@) == spec_lines(s@),
{
    let mut out: Vec<String> = Vec::new();
    assert(texts(out@) =~= Seq::<Seq<char>>::empty());
    push_lines(&mut out, s, "");
    proof {
        reveal_strlit("");
        assert(""@ =~= Seq::<char>::empty());
        let ls = spec_lines(s@);
        let m = ls.map_values(|l: Seq<char>| ""@ + l);
        assert forall|i: int| 0 <= i < ls.len() implies #[trigger] m[i] == ls[i] by {
            assert(""@ + ls[i] =~= ls[i]);
        }
        assert(m =~= ls);
        assert(Seq::<Seq<char>>::empty() + ls =~= ls);
    }
    out
}

/// The lines broadcast for a finished run that was not streamed: stdout's lines,
/// then stderr's, each marked `[stderr] `.
pub fn broadcast_lines(result: &CommandResult) -> (r: Vec<String>)
    ensures
        texts(r@) == spec_lines(result.stdout.text@).map_values(|l: Seq<char>| ""@ + l)
            + spec_lines(result.stderr.text@).map_values(|l: Seq<char>| "[stderr] "@ + l),
{
    let mut out: Vec<String> = Vec::new();
    push_lines(&mut out, result.stdout.text.as_str(), "");
    push_lines(&mut out, result.stderr.text.as_str(), "[stderr] ");
    out
}

} // verus!
