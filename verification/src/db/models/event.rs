//! System events and their severity.
use crate::datetime::UtcDateTime;
use crate::text::str_eq;
use vstd::prelude::*;

verus! {

/// Severity level for system events.
#[derive(Debug, Clone, Copy, PartialEq, Eq, Structural)]
pub enum EventSeverity {
    Info,
    Success,
    Warning,
    Error,
}

impl EventSeverity {
    /// The text form of this value.
    pub open spec fn spec_as_str(self) -> Seq<char> {
        match self {
            EventSeverity::Info => "info"@,
            EventSeverity::Success => "success"@,
            EventSeverity::Warning => "warning"@,
            EventSeverity::Error => "error"@,
        }
    }

    /// The value whose text form (or accepted alias) is `s`, if any.
    pub open spec fn spec_from_str(s: Seq<char>) -> Option<EventSeverity> {
        if s == "info"@ {
            Some(EventSeverity::Info)
        } else if s == "success"@ {
            Some(EventSeverity::Success)
        } else if s == "warning"@ {
            Some(EventSeverity::Warning)
        } else if s == "error"@ {
            Some(EventSeverity::Error)
        } else {
            None
        }
    }

    /// Returns the string representation of this value.
    pub fn as_str(&self) -> (r: &'static str)
        ensures
            r@ == self.spec_as_str(),
    {
        match self {
            EventSeverity::Info => "info",
            EventSeverity::Success => "success",
            EventSeverity::Warning => "warning",
            EventSeverity::Error => "error",
        }
    }

    /// Parses a string into a `EventSeverity`.
    #[allow(clippy::should_implement_trait)]
    pub fn from_str(s: &str) -> (r: Option<Self>)
        ensures
            r == Self::spec_from_str(s@),
    {
        if str_eq(s, "info") {
            return Some(EventSeverity::Info);
        }
        if str_eq(s, "success") {
            return Some(EventSeverity::Success);
        }
        if str_eq(s, "warning") {
            return Some(EventSeverity::Warning);
        }
        if str_eq(s, "error") {
            return Some(EventSeverity::Error);
        }
        None
    }
}

/// An auditable system event (e.g., job fired, agent offline, API action).
/// Identifiers are the 128 bits of their UUIDs.
#[derive(Debug, Clone)]
pub struct Event {
    pub id: u128,
    pub kind: String,
    pub severity: EventSeverity,
    pub message: String,
    pub job_id: Option<u128>,
    pub agent_id: Option<u128>,
    pub api_key_id: Option<u128>,
    pub api_key_name: Option<String>,
    /// The execution this event refers to, when applicable.
    pub execution_id: Option<u128>,
    pub details: Option<String>,
    pub timestamp: UtcDateTime,
}

/// Reading back the text form of any `EventSeverity` gives the same value.
pub proof fn lemma_event_severity_round_trip(x: EventSeverity)
    ensures
        EventSeverity::spec_from_str(x.spec_as_str()) == Some(x),
{
    reveal_strlit("error");
    reveal_strlit("info");
    reveal_strlit("success");
    reveal_strlit("warning");
    assert("error"@.len() == 5);
    assert("info"@.len() == 4);
    assert("success"@.len() == 7);
    assert("warning"@.len() == 7);
    assert("success"@[0] == 's');
    assert("warning"@[0] == 'w');
}
} // verus!
