//! Agent type and connectivity state.
use crate::text::str_eq;
use vstd::prelude::*;

verus! {

/// Connectivity state of a remote agent.
#[derive(Debug, Clone, Copy, PartialEq, Eq, Structural)]
pub enum AgentStatus {
    /// Agent is connected and accepting work.
    Online,
    /// Agent has not sent a heartbeat within the timeout window.
    Offline,
    /// Agent is finishing current work but not accepting new jobs.
    Draining,
}

impl AgentStatus {
    /// The text form of this value.
    pub open spec fn spec_as_str(self) -> Seq<char> {
        match self {
            AgentStatus::Online => "online"@,
            AgentStatus::Offline => "offline"@,
            AgentStatus::Draining => "draining"@,
        }
    }

    /// The value whose text form (or accepted alias) is `s`, if any.
    pub open spec fn spec_from_str(s: Seq<char>) -> Option<AgentStatus> {
        if s == "online"@ {
            Some(AgentStatus::Online)
        } else if s == "offline"@ {
            Some(AgentStatus::Offline)
        } else if s == "draining"@ {
            Some(AgentStatus::Draining)
        } else {
            None
        }
    }

    /// Returns the string representation of this value.
    pub fn as_str(&self) -> (r: &'static str)
        ensures
            r@ == self.spec_as_str(),
    {
        match self {
            AgentStatus::Online => "online",
            AgentStatus::Offline => "offline",
            AgentStatus::Draining => "draining",
        }
    }

    /// Parses a string into a `AgentStatus`.
    #[allow(clippy::should_implement_trait)]
    pub fn from_str(s: &str) -> (r: Option<Self>)
        ensures
            r == Self::spec_from_str(s@),
    {
        if str_eq(s, "online") {
            return Some(AgentStatus::Online);
        }
        if str_eq(s, "offline") {
            return Some(AgentStatus::Offline);
        }
        if str_eq(s, "draining") {
            return Some(AgentStatus::Draining);
        }
        None
    }
}

/// Whether an agent uses standard or custom task execution.
#[derive(Debug, Clone, Copy, PartialEq, Eq, Structural)]
pub enum AgentType {
    Standard,
    Custom,
}

impl AgentType {
    /// The text form of this value.
    pub open spec fn spec_as_str(self) -> Seq<char> {
        match self {
            AgentType::Standard => "standard"@,
            AgentType::Custom => "custom"@,
        }
    }

    /// The value whose text form is `s`; anything else gives `Standard`.
    pub open spec fn spec_from_str(s: Seq<char>) -> AgentType {
        if s == "custom"@ {
            AgentType::Custom
        } else {
            AgentType::Standard
        }
    }

    /// Returns the string representation of this value.
    pub fn as_str(&self) -> (r: &'static str)
        ensures
            r@ == self.spec_as_str(),
    {
        match self {
            AgentType::Standard => "standard",
            AgentType::Custom => "custom",
        }
    }

    /// Parses a string into a `AgentType`, defaulting to `Standard`.
    #[allow(clippy::should_implement_trait)]
    pub fn from_str(s: &str) -> (r: Self)
        ensures
            r == Self::spec_from_str(s@),
    {
        if str_eq(s, "custom") {
            return AgentType::Custom;
        }
        AgentType::Standard
    }
}

/// Reading back the text form of any `AgentStatus` gives the same value.
pub proof fn lemma_agent_status_round_trip(x: AgentStatus)
    ensures
        AgentStatus::spec_from_str(x.spec_as_str()) == Some(x),
{
    reveal_strlit("draining");
    reveal_strlit("offline");
    reveal_strlit("online");
    assert("draining"@.len() == 8);
    assert("offline"@.len() == 7);
    assert("online"@.len() == 6);
}

/// Reading back the text form of any `AgentType` gives the same value.
pub proof fn lemma_agent_type_round_trip(x: AgentType)
    ensures
        AgentType::spec_from_str(x.spec_as_str()) == x,
{
    reveal_strlit("custom");
    reveal_strlit("standard");
    assert("custom"@.len() == 6);
    assert("standard"@.len() == 8);
}
} // verus!
