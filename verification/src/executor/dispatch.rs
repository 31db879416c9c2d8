//! Choosing where a job runs and reporting how handing it over went: agent
//! eligibility, the pick among agents, callback addresses, and the errors and
//! records of failed hand-overs.
use crate::db::models::agent::{AgentStatus, AgentType};
use crate::db::models::event::EventSeverity;
use crate::db::models::execution::ExecutionStatus;
use crate::error::{AppError, ErrorKind};
use vstd::prelude::*;

verus! {

/// The agent type a task needs: a custom agent for a custom task, a standard one
/// otherwise.
pub fn required_agent_type(custom_task: bool) -> (r: AgentType)
    ensures
        r == (if custom_task {
            AgentType::Custom
        } else {
            AgentType::Standard
        }),
{
    if custom_task {
        AgentType::Custom
    } else {
        AgentType::Standard
    }
}

/// The error for an agent id that names no agent.
pub fn agent_not_found(agent_id: &str) -> (r: AppError)
    ensures
        r@ == (ErrorKind::AgentUnavailable, "agent "@ + agent_id@ + " not found"@),
{
    let mut m = String::new();
    m.append("agent ");
    m.append(agent_id);
    m.append(" not found");
    AppError::AgentUnavailable(m)
}

/// Refuses an agent that is not online.
pub fn check_agent_online(name: &str, status: AgentStatus) -> (r: Result<(), AppError>)
    ensures
        status == AgentStatus::Online ==> r is Ok,
        status != AgentStatus::Online ==> (r matches Err(e) && e@ == (
            ErrorKind::AgentUnavailable,
            "agent "@ + name@ + " is "@ + status.spec_as_str(),
        )),
{
    if status == AgentStatus::Online {
        return Ok(());
    }
    let mut m = String::new();
    m.append("agent ");
    m.append(name);
    m.append(" is ");
    m.append(status.as_str());
    Err(AppError::AgentUnavailable(m))
}

/// The indices of the agents of the required type, in order.
pub fn eligible_agents(types: &Vec<AgentType>, required: AgentType) -> (r: Vec<usize>)
    ensures
        forall|i: int| 0 <= i < r@.len() ==> #[trigger] r@[i] < types@.len() && types@[r@[i] as int] == required,
        forall|i: int, j: int| 0 <= i < j < r@.len() ==> #[trigger] r@[i] < #[trigger] r@[j],
        forall|k: int| 0 <= k < types@.len() && types@[k] == required ==> exists|i: int| 0 <= i < r@.len() && #[trigger] r@[i] == k,
{
    let mut r: Vec<usize> = Vec::new();
    let mut k: usize = 0;
    while k < types.len()
        invariant
            k <= types@.len(),
            forall|i: int| 0 <= i < r@.len() ==> #[trigger] r@[i] < k && types@[r@[i] as int] == required,
            forall|i: int, j: int| 0 <= i < j < r@.len() ==> #[trigger] r@[i] < #[trigger] r@[j],
            forall|m: int| 0 <= m < k && types@[m] == required ==> exists|i: int| 0 <= i < r@.len() && #[trigger] r@[i] == m,
        decreases types.len() - k,
    {
        if types[k] == required {
            let ghost before = r@;
            r.push(k);
            assert forall|m: int| 0 <= m < k + 1 && types@[m] == required implies exists|i: int| 0 <= i < r@.len() && #[trigger] r@[i] == m by {
                if m == k {
                    assert(r@[r@.len() - 1] == m);
                } else {
                    let i = choose|i: int| 0 <= i < before.len() && #[trigger] before[i] == m;
                    assert(r@[i] == m);
                }
            }
        }
        k = k + 1;
    }
    r
}

/// The error when no online agent of the required type is found, naming the tag
/// when one was asked for.
pub fn no_agents_error(required: AgentType, tag: Option<&str>) -> (r: AppError)
    ensures
        r@ == (
            ErrorKind::AgentUnavailable,
            match tag {
                Some(t) => "no online "@ + required.spec_as_str() + " agents with tag '"@ + t@ + "'"@,
                None => "no online "@ + required.spec_as_str() + " agents available"@,
            },
        ),
{
    let mut m = String::new();
    m.append("no online ");
    m.append(required.as_str());
    match tag {
        Some(t) => {
            m.append(" agents with tag '");
            m.append(t);
            m.append("'");
        },
        None => m.append(" agents available"),
    }
    AppError::AgentUnavailable(m)
}

/// The agent picked among `count` by a clock reading in nanoseconds: the reading,
/// taken as a `usize`, modulo the count.
pub fn pick_index(count: usize, nanos: i64) -> (r: usize)
    requires
        count > 0,
    ensures
        r == (nanos as usize) % count,
        r < count,
{
    (nanos as usize) % count
}

/// The address an agent reports results to.
pub fn callback_url(base: &str) -> (r: String)
    ensures
        r@ == base@ + "/api/callbacks/execution-result"@,
{
    let mut s = base.to_string();
    s.append("/api/callbacks/execution-result");
    s
}

/// Whether a job for this agent goes through the queue (custom agents poll it)
/// rather than being pushed over HTTP.
pub fn dispatch_by_queue(agent_type: AgentType) -> (r: bool)
    ensures
        r == (agent_type == AgentType::Custom),
{
    agent_type == AgentType::Custom
}

/// What an agent's answer to a pushed job comes to: accepted, or the stderr to
/// record and the error to report (the agent's message, `rejected` when it gave
/// none).
pub fn dispatch_answer(accepted: bool, message: Option<String>) -> (r: Result<(), (String, AppError)>)
    ensures
        accepted ==> r is Ok,
        !accepted ==> (r matches Err(x) && ({
            let m = match message {
                Some(s) => s@,
                None => "rejected"@,
            };
            x.0@ == "agent rejected: "@ + m && x.1@ == (ErrorKind::AgentError, m)
        })),
{
    if accepted {
        return Ok(());
    }
    let msg = match message {
        Some(s) => s,
        None => "rejected".to_string(),
    };
    let mut stderr = String::new();
    stderr.append("agent rejected: ");
    stderr.append(msg.as_str());
    Err((stderr, AppError::AgentError(msg)))
}

/// The stderr recorded when a job could not be pushed to an agent.
pub fn dispatch_failed_stderr(error: &str) -> (r: String)
    ensures
        r@ == "dispatch failed: "@ + error@,
{
    let mut s = String::new();
    s.append("dispatch failed: ");
    s.append(error);
    s
}

/// The first execution started when a job went to every agent, or the error when
/// none was.
pub fn first_dispatched(results: &Vec<Option<u128>>) -> (r: Result<u128, AppError>)
    ensures
        match r {
            Ok(id) => exists|i: int| 0 <= i < results@.len() && results@[i] == Some(id) && forall|j: int| 0 <= j < i ==> #[trigger] results@[j] is None,
            Err(e) => e@ == (ErrorKind::AgentError, "failed to dispatch to any agent"@) && forall|j: int| 0 <= j < results@.len() ==> #[trigger] results@[j] is None,
        },
{
    let mut i: usize = 0;
    while i < results.len()
        invariant
            i <= results@.len(),
            forall|j: int| 0 <= j < i ==> #[trigger] results@[j] is None,
        decreases results.len() - i,
    {
        match results[i] {
            Some(id) => {
                return Ok(id);
            },
            None => {},
        }
        i = i + 1;
    }
    Err(AppError::AgentError("failed to dispatch to any agent".to_string()))
}

/// The severity of the event that reports a finished execution.
pub open spec fn spec_completion_severity(status: ExecutionStatus) -> EventSeverity {
    match status {
        ExecutionStatus::Succeeded => EventSeverity::Success,
        ExecutionStatus::Failed | ExecutionStatus::TimedOut => EventSeverity::Error,
        ExecutionStatus::Cancelled => EventSeverity::Warning,
        _ => EventSeverity::Info,
    }
}

/// The severity of the event that reports a finished execution.
pub fn completion_severity(status: ExecutionStatus) -> (r: EventSeverity)
    ensures
        r == spec_completion_severity(status),
{
    match status {
        ExecutionStatus::Succeeded => EventSeverity::Success,
        ExecutionStatus::Failed | ExecutionStatus::TimedOut => EventSeverity::Error,
        ExecutionStatus::Cancelled => EventSeverity::Warning,
        _ => EventSeverity::Info,
    }
}

/// `Job '<name>' execution <id> finished: <Status>`.
pub fn completion_message(job_name: &str, execution_id: &str, status: ExecutionStatus) -> (r: String)
    ensures
        r@ == "Job '"@ + job_name@ + "' execution "@ + execution_id@ + " finished: "@
            + status.spec_debug_name(),
{
    let mut s = String::new();
    s.append("Job '");
    s.append(job_name);
    s.append("' execution ");
    s.append(execution_id);
    s.append(" finished: ");
    s.append(status.debug_name());
    s
}

/// `All jobs in group '<group>' have succeeded`.
pub fn group_completed_message(group: &str) -> (r: String)
    ensures
        r@ == "All jobs in group '"@ + group@ + "' have succeeded"@,
{
    let mut s = String::new();
    s.append("All jobs in group '");
    s.append(group);
    s.append("' have succeeded");
    s
}

/// The group of a job: its own, else `Default`.
pub fn job_group(group: Option<&str>) -> (r: String)
    ensures
        r@ == (match group {
            Some(g) => g@,
            None => "Default"@,
        }),
{
    match group {
        Some(g) => g.to_string(),
        None => "Default".to_string(),
    }
}

/// Whether every job of a group of more than one has its latest execution
/// succeeded (`None` for a job that never ran).
pub fn group_all_succeeded(latest: &Vec<Option<ExecutionStatus>>) -> (r: bool)
    ensures
        r == (latest@.len() > 1 && forall|i: int| 0 <= i < latest@.len() ==> #[trigger] latest@[i] == Some(ExecutionStatus::Succeeded)),
{
    if latest.len() <= 1 {
        return false;
    }
    let mut i: usize = 0;
    while i < latest.len()
        invariant
            i <= latest@.len(),
            forall|j: int| 0 <= j < i ==> #[trigger] latest@[j] == Some(ExecutionStatus::Succeeded),
        decreases latest.len() - i,
    {
        match latest[i] {
            Some(ExecutionStatus::Succeeded) => {},
            _ => {
                return false;
            },
        }
        i = i + 1;
    }
    true
}

/// The jobs (by index) whose dependencies include the completed job.
pub fn dependents_of(depends_on: &Vec<Vec<u128>>, completed: u128) -> (r: Vec<usize>)
    ensures
        forall|i: int| 0 <= i < r@.len() ==> #[trigger] r@[i] < depends_on@.len() && depends_on@[r@[i] as int]@.contains(completed),
        forall|i: int, j: int| 0 <= i < j < r@.len() ==> #[trigger] r@[i] < #[trigger] r@[j],
        forall|k: int| 0 <= k < depends_on@.len() && depends_on@[k]@.contains(completed) ==> exists|i: int| 0 <= i < r@.len() && #[trigger] r@[i] == k,
{
    let mut r: Vec<usize> = Vec::new();
    let mut k: usize = 0;
    while k < depends_on.len()
        invariant
            k <= depends_on@.len(),
            forall|i: int| 0 <= i < r@.len() ==> #[trigger] r@[i] < k && depends_on@[r@[i] as int]@.contains(completed),
            forall|i: int, j: int| 0 <= i < j < r@.len() ==> #[trigger] r@[i] < #[trigger] r@[j],
            forall|m: int| 0 <= m < k && depends_on@[m]@.contains(completed) ==> exists|i: int| 0 <= i < r@.len() && #[trigger] r@[i] == m,
        decreases depends_on.len() - k,
    {
        let deps = &depends_on[k];
        let mut found = false;
        let mut j: usize = 0;
        while j < deps.len()
            invariant
                j <= deps@.len(),
                found == (exists|q: int| 0 <= q < j && deps@[q] == completed),
            decreases deps.len() - j,
        {
            if deps[j] == completed {
                found = true;
            }
            j = j + 1;
        }
        if found {
            let ghost before = r@;
            r.push(k);
            assert forall|m: int| 0 <= m < k + 1 && depends_on@[m]@.contains(completed) implies exists|i: int| 0 <= i < r@.len() && #[trigger] r@[i] == m by {
                if m == k {
                    assert(r@[r@.len() - 1] == m);
                } else {
                    let i = choose|i: int| 0 <= i < before.len() && #[trigger] before[i] == m;
                    assert(r@[i] == m);
                }
            }
        } else {
            assert(!deps@.contains(completed));
        }
        k = k + 1;
    }
    r
}

} // verus!
