//! Execution lifecycle status.
use crate::datetime::UtcDateTime;
use crate::executor::runner::CommandResult;
use crate::json::JsonValue;
use crate::text::str_eq;
use vstd::prelude::*;

verus! {

/// Lifecycle status of a single job execution.
#[derive(Debug, Clone, Copy, PartialEq, Eq, Structural)]
pub enum ExecutionStatus {
    Pending,
    Running,
    Succeeded,
    Failed,
    TimedOut,
    Cancelled,
    Skipped,
}

impl ExecutionStatus {
    /// The text form of this value.
    pub open spec fn spec_as_str(self) -> Seq<char> {
        match self {
            ExecutionStatus::Pending => "pending"@,
            ExecutionStatus::Running => "running"@,
            ExecutionStatus::Succeeded => "succeeded"@,
            ExecutionStatus::Failed => "failed"@,
            ExecutionStatus::TimedOut => "timed_out"@,
            ExecutionStatus::Cancelled => "cancelled"@,
            ExecutionStatus::Skipped => "skipped"@,
        }
    }

    /// The value whose text form (or accepted alias) is `s`, if any.
    pub open spec fn spec_from_str(s: Seq<char>) -> Option<ExecutionStatus> {
        if s == "pending"@ {
            Some(ExecutionStatus::Pending)
        } else if s == "running"@ {
            Some(ExecutionStatus::Running)
        } else if s == "succeeded"@ {
            Some(ExecutionStatus::Succeeded)
        } else if s == "failed"@ {
            Some(ExecutionStatus::Failed)
        } else if s == "timed_out"@ {
            Some(ExecutionStatus::TimedOut)
        } else if s == "cancelled"@ {
            Some(ExecutionStatus::Cancelled)
        } else if s == "skipped"@ {
            Some(ExecutionStatus::Skipped)
        } else {
            None
        }
    }

    /// The variant's name, as `{:?}` prints it.
    pub open spec fn spec_debug_name(self) -> Seq<char> {
        match self {
            ExecutionStatus::Pending => "Pending"@,
            ExecutionStatus::Running => "Running"@,
            ExecutionStatus::Succeeded => "Succeeded"@,
            ExecutionStatus::Failed => "Failed"@,
            ExecutionStatus::TimedOut => "TimedOut"@,
            ExecutionStatus::Cancelled => "Cancelled"@,
            ExecutionStatus::Skipped => "Skipped"@,
        }
    }

    /// The variant's name, as `{:?}` prints it.
    pub fn debug_name(&self) -> (r: &'static str)
        ensures
            r@ == self.spec_debug_name(),
    {
        match self {
            ExecutionStatus::Pending => "Pending",
            ExecutionStatus::Running => "Running",
            ExecutionStatus::Succeeded => "Succeeded",
            ExecutionStatus::Failed => "Failed",
            ExecutionStatus::TimedOut => "TimedOut",
            ExecutionStatus::Cancelled => "Cancelled",
            ExecutionStatus::Skipped => "Skipped",
        }
    }

    /// Returns the string representation of this value.
    pub fn as_str(&self) -> (r: &'static str)
        ensures
            r@ == self.spec_as_str(),
    {
        match self {
            ExecutionStatus::Pending => "pending",
            ExecutionStatus::Running => "running",
            ExecutionStatus::Succeeded => "succeeded",
            ExecutionStatus::Failed => "failed",
            ExecutionStatus::TimedOut => "timed_out",
            ExecutionStatus::Cancelled => "cancelled",
            ExecutionStatus::Skipped => "skipped",
        }
    }

    /// Parses a string into a `ExecutionStatus`.
    #[allow(clippy::should_implement_trait)]
    pub fn from_str(s: &str) -> (r: Option<Self>)
        ensures
            r == Self::spec_from_str(s@),
    {
        if str_eq(s, "pending") {
            return Some(ExecutionStatus::Pending);
        }
        if str_eq(s, "running") {
            return Some(ExecutionStatus::Running);
        }
        if str_eq(s, "succeeded") {
            return Some(ExecutionStatus::Succeeded);
        }
        if str_eq(s, "failed") {
            return Some(ExecutionStatus::Failed);
        }
        if str_eq(s, "timed_out") {
            return Some(ExecutionStatus::TimedOut);
        }
        if str_eq(s, "cancelled") {
            return Some(ExecutionStatus::Cancelled);
        }
        if str_eq(s, "skipped") {
            return Some(ExecutionStatus::Skipped);
        }
        None
    }
}

/// Reading back the text form of any `ExecutionStatus` gives the same value.
pub proof fn lemma_execution_status_round_trip(x: ExecutionStatus)
    ensures
        ExecutionStatus::spec_from_str(x.spec_as_str()) == Some(x),
{
    reveal_strlit("cancelled");
    reveal_strlit("failed");
    reveal_strlit("pending");
    reveal_strlit("running");
    reveal_strlit("skipped");
    reveal_strlit("succeeded");
    reveal_strlit("timed_out");
    assert("cancelled"@.len() == 9);
    assert("failed"@.len() == 6);
    assert("pending"@.len() == 7);
    assert("running"@.len() == 7);
    assert("skipped"@.len() == 7);
    assert("succeeded"@.len() == 9);
    assert("timed_out"@.len() == 9);
    assert("cancelled"@[0] == 'c');
    assert("succeeded"@[0] == 's');
    assert("cancelled"@[0] == 'c');
    assert("timed_out"@[0] == 't');
    assert("pending"@[0] == 'p');
    assert("running"@[0] == 'r');
    assert("pending"@[0] == 'p');
    assert("skipped"@[0] == 's');
    assert("running"@[0] == 'r');
    assert("skipped"@[0] == 's');
    assert("succeeded"@[0] == 's');
    assert("timed_out"@[0] == 't');
}
/// What initiated a job execution.
#[derive(Debug, Clone, Copy, PartialEq, Eq, Structural)]
pub enum TriggerSource {
    Scheduler,
    Api,
    /// The execution of a job this one depends on (the 128 bits of its UUID).
    Dependency { parent_execution_id: u128 },
    /// An event (the 128 bits of its UUID).
    Event { event_id: u128 },
    /// A retry of a failed execution (the 128 bits of the first run's UUID), as
    /// attempt number `attempt`.
    Retry { original_execution_id: u128, attempt: u32 },
}

/// Recorded result of a single job execution. Ids are the 128 bits of UUIDs; the
/// task snapshot and extracted values are JSON.
#[derive(Debug)]
pub struct ExecutionRecord {
    pub id: u128,
    pub job_id: u128,
    pub agent_id: Option<u128>,
    pub task_snapshot: Option<JsonValue>,
    pub status: ExecutionStatus,
    pub exit_code: Option<i32>,
    pub stdout: String,
    pub stderr: String,
    pub stdout_truncated: bool,
    pub stderr_truncated: bool,
    pub started_at: Option<UtcDateTime>,
    pub finished_at: Option<UtcDateTime>,
    pub triggered_by: TriggerSource,
    pub extracted: Option<JsonValue>,
    /// The first run of a job this execution retries, if it is a retry.
    pub retry_of: Option<u128>,
    /// Which attempt this is: 1 for a first run.
    pub attempt_number: u32,
    /// The parameters the run was triggered with.
    pub params: Option<JsonValue>,
}

impl ExecutionRecord {
    /// Creates a new pending execution record.
    pub fn new(id: u128, job_id: u128, trigger: TriggerSource) -> (r: Self)
        ensures
            r.id == id,
            r.job_id == job_id,
            r.agent_id is None,
            r.task_snapshot is None,
            r.status == ExecutionStatus::Pending,
            r.exit_code is None,
            r.stdout@ == Seq::<char>::empty(),
            r.stderr@ == Seq::<char>::empty(),
            !r.stdout_truncated,
            !r.stderr_truncated,
            r.started_at is None,
            r.finished_at is None,
            r.triggered_by == trigger,
            r.extracted is None,
            r.retry_of is None,
            r.attempt_number == 1,
            r.params is None,
    {
        ExecutionRecord {
            id,
            job_id,
            agent_id: None,
            task_snapshot: None,
            status: ExecutionStatus::Pending,
            exit_code: None,
            stdout: String::new(),
            stderr: String::new(),
            stdout_truncated: false,
            stderr_truncated: false,
            started_at: None,
            finished_at: None,
            triggered_by: trigger,
            extracted: None,
            retry_of: None,
            attempt_number: 1,
            params: None,
        }
    }

    /// Records the parameters the run was triggered with.
    pub fn with_params(self, params: Option<JsonValue>) -> (r: Self)
        ensures
            r == (ExecutionRecord { params, ..self }),
    {
        let mut s = self;
        s.params = params;
        s
    }

    /// Takes the retry tracking from the trigger: a retry records the run it
    /// retries and its attempt number; any other trigger leaves both as they are.
    pub fn with_retry_tracking(self) -> (r: Self)
        ensures
            r == (match self.triggered_by {
                TriggerSource::Retry { original_execution_id, attempt } => ExecutionRecord {
                    retry_of: Some(original_execution_id),
                    attempt_number: attempt,
                    ..self
                },
                _ => self,
            }),
    {
        let mut s = self;
        match s.triggered_by {
            TriggerSource::Retry { original_execution_id, attempt } => {
                s.retry_of = Some(original_execution_id);
                s.attempt_number = attempt;
            },
            _ => {},
        }
        s
    }

    /// The trigger of the next retry of this run: the first run it goes back to
    /// (this one, unless it is a retry itself) and the next attempt number.
    pub fn next_retry(&self) -> (r: TriggerSource)
        requires
            self.attempt_number < u32::MAX,
        ensures
            r == (TriggerSource::Retry {
                original_execution_id: match self.retry_of {
                    Some(o) => o,
                    None => self.id,
                },
                attempt: (self.attempt_number + 1) as u32,
            }),
    {
        let original = match self.retry_of {
            Some(o) => o,
            None => self.id,
        };
        TriggerSource::Retry { original_execution_id: original, attempt: self.attempt_number + 1 }
    }

    /// Sets the execution status via builder pattern.
    pub fn with_status(self, status: ExecutionStatus) -> (r: Self)
        ensures
            r == (ExecutionRecord { status, ..self }),
    {
        let mut s = self;
        s.status = status;
        s
    }

    /// Sets the executing agent ID via builder pattern.
    pub fn with_agent_id(self, agent_id: u128) -> (r: Self)
        ensures
            r == (ExecutionRecord { agent_id: Some(agent_id), ..self }),
    {
        let mut s = self;
        s.agent_id = Some(agent_id);
        s
    }

    /// Attaches a snapshot of the task definition via builder pattern.
    pub fn with_task_snapshot(self, task: JsonValue) -> (r: Self)
        ensures
            r == (ExecutionRecord { task_snapshot: Some(task), ..self }),
    {
        let mut s = self;
        s.task_snapshot = Some(task);
        s
    }

    /// Sets the execution start time via builder pattern.
    pub fn with_started_at(self, at: UtcDateTime) -> (r: Self)
        ensures
            r == (ExecutionRecord { started_at: Some(at), ..self }),
    {
        let mut s = self;
        s.started_at = Some(at);
        s
    }

    /// The record of a run that could not go ahead: failed, with `stderr` as its
    /// error output and `finished_at` as its end.
    pub fn failed(self, stderr: String, finished_at: UtcDateTime) -> (r: Self)
        ensures
            r == (ExecutionRecord {
                status: ExecutionStatus::Failed,
                stderr,
                finished_at: Some(finished_at),
                ..self
            }),
    {
        let mut s = self;
        s.status = ExecutionStatus::Failed;
        s.stderr = stderr;
        s.finished_at = Some(finished_at);
        s
    }

    /// The record of a finished run: its result's status, exit code and output,
    /// and `finished_at` as its end; no values extracted yet.
    pub fn completed(self, result: CommandResult, finished_at: UtcDateTime) -> (r: Self)
        ensures
            r.id == self.id && r.job_id == self.job_id && r.agent_id == self.agent_id,
            r.task_snapshot == self.task_snapshot,
            r.started_at == self.started_at && r.triggered_by == self.triggered_by,
            r.status == result.status,
            r.exit_code == result.exit_code,
            r.stdout == result.stdout.text,
            r.stderr == result.stderr.text,
            r.stdout_truncated == result.stdout.truncated,
            r.stderr_truncated == result.stderr.truncated,
            r.finished_at == Some(finished_at),
            r.extracted is None,
            r.retry_of == self.retry_of && r.attempt_number == self.attempt_number,
            r.params == self.params,
    {
        let mut s = self;
        s.status = result.status;
        s.exit_code = result.exit_code;
        s.stdout = result.stdout.text;
        s.stderr = result.stderr.text;
        s.stdout_truncated = result.stdout.truncated;
        s.stderr_truncated = result.stderr.truncated;
        s.finished_at = Some(finished_at);
        s.extracted = None;
        s
    }
}

} // verus!
