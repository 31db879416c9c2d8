//! Command results, output capture and truncation, and the command lines that
//! tasks run.
use crate::db::models::ExecutionStatus;
use crate::executor::utils::{shell_escape, spec_shell_escape};
use crate::text::{chars_of, dec, push_chars, push_decimal};
use vstd::prelude::*;
use vstd::utf8::{decode_utf8, valid_utf8};

verus! {

/// Max bytes stored per stream (10MB). Output beyond this is truncated from the front (keeps tail).
pub const MAX_OUTPUT_BYTES: usize = 10485760;

/// Text captured from one output stream, and whether its front was cut off.
#[derive(Debug)]
pub struct CapturedOutput {
    pub text: String,
    pub truncated: bool,
}

/// The outcome of running a task: status, exit code, and both output streams.
#[derive(Debug)]
pub struct CommandResult {
    pub status: ExecutionStatus,
    pub exit_code: Option<i32>,
    pub stdout: CapturedOutput,
    pub stderr: CapturedOutput,
}

/// The text `String::from_utf8_lossy` makes of `bytes`.
pub uninterp spec fn utf8_lossy(bytes: Seq<u8>) -> Seq<char>;

/// `String::from_utf8_lossy`, owned. The claim: the result is determined by the
/// bytes, and for valid UTF-8 it is exactly the decoded text; what invalid
/// sequences become (U+FFFD replacements) is left unsaid.
#[verifier::external_body]
fn from_utf8_lossy(bytes: &[u8]) -> (s: String)
    ensures
        s@ == utf8_lossy(bytes@),
        valid_utf8(bytes@) ==> s@ == decode_utf8(bytes@),
{
    String::from_utf8_lossy(bytes).into_owned()
}

/// The text kept of `bytes`: all of it, or only the last [`MAX_OUTPUT_BYTES`]
/// behind a note of how many bytes were dropped.
pub open spec fn spec_truncated_text(bytes: Seq<u8>) -> Seq<char> {
    if bytes.len() <= MAX_OUTPUT_BYTES {
        utf8_lossy(bytes)
    } else {
        let start = (bytes.len() - MAX_OUTPUT_BYTES) as nat;
        "[...truncated "@ + dec(start) + " bytes...]\n"@ + utf8_lossy(bytes.skip(start as int))
    }
}

/// Captures output bytes as text, keeping only the tail beyond [`MAX_OUTPUT_BYTES`].
pub fn truncate_output(bytes: Vec<u8>) -> (r: CapturedOutput)
    ensures
        r.text@ == spec_truncated_text(bytes@),
        r.truncated == (bytes@.len() > MAX_OUTPUT_BYTES),
{
    if bytes.len() <= MAX_OUTPUT_BYTES {
        CapturedOutput { text: from_utf8_lossy(bytes.as_slice()), truncated: false }
    } else {
        // Keep the tail (most recent output)
        let start = bytes.len() - MAX_OUTPUT_BYTES;
        let trimmed = crate::executor::runner::tail(bytes.as_slice(), start);
        let text = from_utf8_lossy(trimmed.as_slice());
        let mut out = String::new();
        out.append("[...truncated ");
        push_decimal(&mut out, start as u64);
        out.append(" bytes...]\n");
        out.append(text.as_str());
        CapturedOutput { text: out, truncated: true }
    }
}

/// Copies `bytes[start..]`.
fn tail(bytes: &[u8], start: usize) -> (r: Vec<u8>)
    requires
        start <= bytes@.len(),
    ensures
        r@ == bytes@.skip(start as int),
{
    let mut r: Vec<u8> = Vec::new();
    let mut i = start;
    while i < bytes.len()
        invariant
            start <= i <= bytes@.len(),
            r@ == bytes@.subrange(start as int, i as int),
        decreases bytes.len() - i,
    {
        r.push(bytes[i]);
        assert(r@ =~= bytes@.subrange(start as int, i + 1));
        i = i + 1;
    }
    assert(r@ =~= bytes@.skip(start as int));
    r
}

/// An empty, untruncated stream.
pub fn empty_output() -> (r: CapturedOutput)
    ensures
        r.text@ == Seq::<char>::empty(),
        !r.truncated,
{
    CapturedOutput { text: String::new(), truncated: false }
}

/// A failed result with no exit code, empty stdout and `message` on stderr.
pub fn failed_result(message: String) -> (r: CommandResult)
    ensures
        r.status == ExecutionStatus::Failed,
        r.exit_code is None,
        r.stdout.text@ == Seq::<char>::empty() && !r.stdout.truncated,
        r.stderr.text@ == message@ && !r.stderr.truncated,
{
    CommandResult {
        status: ExecutionStatus::Failed,
        exit_code: None,
        stdout: empty_output(),
        stderr: CapturedOutput { text: message, truncated: false },
    }
}

/// The result of a custom task run on the controller, which cannot run it.
pub fn custom_task_result() -> (r: CommandResult)
    ensures
        r.status == ExecutionStatus::Failed,
        r.exit_code is None,
        r.stdout.text@ == Seq::<char>::empty() && !r.stdout.truncated,
        r.stderr.text@ == "custom tasks require a custom agent — cannot run locally"@
            && !r.stderr.truncated,
{
    failed_result("custom tasks require a custom agent — cannot run locally".to_string())
}

/// The result of a run stopped by its time limit, keeping `stdout`.
pub fn timed_out_result(timeout_secs: Option<u64>, stdout: CapturedOutput) -> (r: CommandResult)
    ensures
        r.status == ExecutionStatus::TimedOut,
        r.exit_code is None,
        r.stdout == stdout,
        r.stderr.text@ == "job timed out after "@ + dec(
            match timeout_secs {
                Some(t) => t as nat,
                None => 0,
            },
        ) + "s"@,
        !r.stderr.truncated,
{
    let mut m = String::new();
    m.append("job timed out after ");
    push_decimal(
        &mut m,
        match timeout_secs {
            Some(t) => t,
            None => 0,
        },
    );
    m.append("s");
    CommandResult {
        status: ExecutionStatus::TimedOut,
        exit_code: None,
        stdout,
        stderr: CapturedOutput { text: m, truncated: false },
    }
}

/// The result of a run cancelled by the user, keeping `stdout`.
pub fn cancelled_result(stdout: CapturedOutput) -> (r: CommandResult)
    ensures
        r.status == ExecutionStatus::Cancelled,
        r.exit_code is None,
        r.stdout == stdout,
        r.stderr.text@ == "job cancelled by user"@,
        !r.stderr.truncated,
{
    CommandResult {
        status: ExecutionStatus::Cancelled,
        exit_code: None,
        stdout,
        stderr: CapturedOutput { text: "job cancelled by user".to_string(), truncated: false },
    }
}

/// The status of a process that exited: success or failure.
pub fn exit_status(success: bool) -> (s: ExecutionStatus)
    ensures
        s == (if success {
            ExecutionStatus::Succeeded
        } else {
            ExecutionStatus::Failed
        }),
{
    if success {
        ExecutionStatus::Succeeded
    } else {
        ExecutionStatus::Failed
    }
}

/// A user name accepted for `run_as`: ASCII letters and digits, `-`, `_` and `.`.
pub open spec fn valid_user_char(c: char) -> bool {
    ('a' <= c && c <= 'z') || ('A' <= c && c <= 'Z') || ('0' <= c && c <= '9') || c == '-' || c
        == '_' || c == '.'
}

/// Whether every character of `user` is accepted for `run_as`.
pub fn is_valid_run_as_user(user: &str) -> (r: bool)
    ensures
        r == forall|i: int| 0 <= i < user@.len() ==> valid_user_char(#[trigger] user@[i]),
{
    let cs = chars_of(user);
    let mut i: usize = 0;
    while i < cs.len()
        invariant
            i <= cs.len(),
            cs@ == user@,
            forall|k: int| 0 <= k < i ==> valid_user_char(#[trigger] user@[k]),
        decreases cs.len() - i,
    {
        let c = cs[i];
        if !(('a' <= c && c <= 'z') || ('A' <= c && c <= 'Z') || ('0' <= c && c <= '9') || c
            == '-' || c == '_' || c == '.') {
            assert(!valid_user_char(user@[i as int]));
            return false;
        }
        i = i + 1;
    }
    true
}

/// The program and arguments that run `command`: through `sudo -n -u user sh -c`
/// for `run_as`, `cmd /C` on Windows, `sh -c` otherwise. A `run_as` on Windows or
/// with a rejected user name gives the failed result instead.
pub open spec fn spec_command_line(command: Seq<char>, run_as: Option<Seq<char>>, windows: bool) -> Result<
    Seq<Seq<char>>,
    Seq<char>,
> {
    match run_as {
        Some(user) => if windows {
            Err("run_as is not supported on Windows"@)
        } else if !(forall|i: int| 0 <= i < user.len() ==> valid_user_char(#[trigger] user[i])) {
            Err("invalid run_as user: "@ + user)
        } else {
            Ok(seq!["sudo"@, "-n"@, "-u"@, user, "sh"@, "-c"@, command])
        },
        None => if windows {
            Ok(seq!["cmd"@, "/C"@, command])
        } else {
            Ok(seq!["sh"@, "-c"@, command])
        },
    }
}

/// Chooses the program and arguments for running `command` (first element is the
/// program), or the failed result to report instead of running it.
pub fn command_line(command: &str, run_as: Option<&str>, windows: bool) -> (r: Result<
    Vec<String>,
    CommandResult,
>)
    ensures
        match spec_command_line(
            command@,
            match run_as {
                Some(u) => Some(u@),
                None => None,
            },
            windows,
        ) {
            Ok(argv) => r matches Ok(v) && v@.len() == argv.len() && forall|i: int|
                0 <= i < argv.len() ==> #[trigger] v@[i]@ == argv[i],
            Err(m) => r matches Err(res) && res.status == ExecutionStatus::Failed
                && res.exit_code is None && res.stdout.text@ == Seq::<char>::empty()
                && !res.stdout.truncated && res.stderr.text@ == m && !res.stderr.truncated,
        },
{
    match run_as {
        Some(user) => {
            if windows {
                return Err(failed_result("run_as is not supported on Windows".to_string()));
            }
            if !is_valid_run_as_user(user) {
                let mut m = String::new();
                m.append("invalid run_as user: ");
                m.append(user);
                return Err(failed_result(m));
            }
            let v = vec![
                "sudo".to_string(),
                "-n".to_string(),
                "-u".to_string(),
                user.to_string(),
                "sh".to_string(),
                "-c".to_string(),
                command.to_string(),
            ];
            Ok(v)
        },
        None => {
            if windows {
                Ok(vec!["cmd".to_string(), "/C".to_string(), command.to_string()])
            } else {
                Ok(vec!["sh".to_string(), "-c".to_string(), command.to_string()])
            }
        },
    }
}

/// The shell command of a shell task: the command itself, or a `cd` into the
/// quoted working directory followed by it.
pub open spec fn spec_shell_command(command: Seq<char>, working_dir: Option<Seq<char>>, windows: bool) -> Seq<
    char,
> {
    match working_dir {
        Some(dir) => "cd "@ + spec_shell_escape(dir, windows) + " && "@ + command,
        None => command,
    }
}

/// Builds the command line a shell task runs.
pub fn shell_command(command: &str, working_dir: Option<&str>, windows: bool) -> (r: String)
    ensures
        r@ == spec_shell_command(
            command@,
            match working_dir {
                Some(d) => Some(d@),
                None => None,
            },
            windows,
        ),
{
    match working_dir {
        Some(dir) => {
            let mut s = String::new();
            s.append("cd ");
            let q = shell_escape(dir, windows);
            s.append(q.as_str());
            s.append(" && ");
            s.append(command);
            s
        },
        None => command.to_string(),
    }
}

} // verus!
