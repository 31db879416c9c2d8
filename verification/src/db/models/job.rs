//! Job scheduling state.
use crate::db::models::event::EventSeverity;
use crate::executor::notifications::NotificationRecipients;
use crate::text::str_eq;
use vstd::prelude::*;

verus! {

/// Current scheduling state of a job.
#[derive(Debug, Clone, Copy, PartialEq, Eq, Structural)]
pub enum JobStatus {
    /// Job is active and will fire according to its schedule.
    Scheduled,
    /// Job exists but is temporarily disabled.
    Paused,
    /// Job has no future scheduled runs (e.g., one-shot that already fired).
    Unscheduled,
}

impl JobStatus {
    /// The text form of this value.
    pub open spec fn spec_as_str(self) -> Seq<char> {
        match self {
            JobStatus::Scheduled => "scheduled"@,
            JobStatus::Paused => "paused"@,
            JobStatus::Unscheduled => "unscheduled"@,
        }
    }

    /// The value whose text form (or accepted alias) is `s`, if any.
    pub open spec fn spec_from_str(s: Seq<char>) -> Option<JobStatus> {
        if s == "scheduled"@ || s == "enabled"@ || s == "active"@ {
            Some(JobStatus::Scheduled)
        } else if s == "paused"@ || s == "disabled"@ {
            Some(JobStatus::Paused)
        } else if s == "unscheduled"@ || s == "completed"@ {
            Some(JobStatus::Unscheduled)
        } else {
            None
        }
    }

    /// Returns the string representation of this value.
    pub fn as_str(&self) -> (r: &'static str)
        ensures
            r@ == self.spec_as_str(),
    {
        match self {
            JobStatus::Scheduled => "scheduled",
            JobStatus::Paused => "paused",
            JobStatus::Unscheduled => "unscheduled",
        }
    }

    /// Parses a string into a `JobStatus`.
    #[allow(clippy::should_implement_trait)]
    pub fn from_str(s: &str) -> (r: Option<Self>)
        ensures
            r == Self::spec_from_str(s@),
    {
        if str_eq(s, "scheduled") || str_eq(s, "enabled") || str_eq(s, "active") {
            return Some(JobStatus::Scheduled);
        }
        if str_eq(s, "paused") || str_eq(s, "disabled") {
            return Some(JobStatus::Paused);
        }
        if str_eq(s, "unscheduled") || str_eq(s, "completed") {
            return Some(JobStatus::Unscheduled);
        }
        None
    }
}

/// A cron expression string (e.g., `"0 */5 * * * *"`).
#[derive(Debug, Clone)]
pub struct CronExpr(pub String);

/// Configuration for event-driven job triggers, with kind/severity/job-name filters.
#[derive(Debug, Clone)]
pub struct EventTriggerConfig {
    pub kind_pattern: String,
    pub severity: Option<EventSeverity>,
    pub job_name_filter: Option<String>,
}

/// A rule for extracting named values from task output using regex or JSONPath.
#[derive(Debug, Clone)]
pub struct ExtractionRule {
    pub name: String,
    pub pattern: String,
    /// `"regex"` or `"jsonpath"`.
    pub rule_type: String,
    pub write_to_variable: Option<String>,
}

/// Matches a pattern in task output and raises an event at the given severity.
#[derive(Debug, Clone)]
pub struct OutputTrigger {
    pub pattern: String,
    /// `"error"`, `"warning"`, `"info"` or `"success"`.
    pub severity: String,
}

/// A pattern that must appear in task output; if absent the execution is marked failed.
#[derive(Debug, Clone)]
pub struct OutputAssertion {
    pub pattern: String,
    /// Custom failure message.
    pub message: Option<String>,
}

/// Post-execution output processing: extractions, triggers, and assertions.
#[derive(Debug, Clone)]
pub struct OutputRules {
    pub extractions: Vec<ExtractionRule>,
    pub triggers: Vec<OutputTrigger>,
    pub assertions: Vec<OutputAssertion>,
}

/// Per-job notification preferences (on failure, success, or assertion failure).
#[derive(Debug, Clone)]
pub struct JobNotificationConfig {
    pub on_failure: bool,
    pub on_success: bool,
    pub on_assertion_failure: bool,
    pub recipients: Option<NotificationRecipients>,
}

/// Reading back the text form of any `JobStatus` gives the same value.
pub proof fn lemma_job_status_round_trip(x: JobStatus)
    ensures
        JobStatus::spec_from_str(x.spec_as_str()) == Some(x),
{
    reveal_strlit("paused");
    reveal_strlit("scheduled");
    reveal_strlit("unscheduled");
    reveal_strlit("enabled");
    reveal_strlit("active");
    reveal_strlit("disabled");
    reveal_strlit("completed");
    assert("paused"@.len() == 6);
    assert("scheduled"@.len() == 9);
    assert("unscheduled"@.len() == 11);
    assert("enabled"@.len() == 7);
    assert("active"@.len() == 6);
    assert("disabled"@.len() == 8);
    assert("completed"@.len() == 9);
    assert("paused"@[0] == 'p');
    assert("active"@[0] == 'a');
    assert("scheduled"@[0] == 's');
    assert("completed"@[0] == 'c');
}
} // verus!
