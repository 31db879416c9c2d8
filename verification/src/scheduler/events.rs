//! Matching system events against the triggers of event-driven jobs.
use crate::db::models::{Event, EventSeverity, EventTriggerConfig};
use crate::text::{
    chars_of, contains_chars, contains_seq, ends_with, is_prefix, is_suffix, lowercase,
    starts_with, to_lowercase,
};
use std::collections::HashMap;
use vstd::prelude::*;

verus! {

/// Whether an event kind matches a pattern:
/// - `"*"` matches everything
/// - `"foo.*"` matches `"foo.bar"`, `"foo.baz.qux"` (the prefix, then a dot)
/// - `"foo*"` matches anything starting with `"foo"`
/// - exact equality otherwise
pub open spec fn spec_pattern_matches(pattern: Seq<char>, value: Seq<char>) -> bool {
    if pattern == seq!['*'] {
        true
    } else if is_suffix(seq!['.', '*'], pattern) {
        let prefix = pattern.take(pattern.len() - 2);
        is_prefix(prefix, value) && value.len() > prefix.len() && value[prefix.len() as int] == '.'
    } else if is_suffix(seq!['*'], pattern) {
        is_prefix(pattern.take(pattern.len() - 1), value)
    } else {
        pattern == value
    }
}

/// Matches event kind patterns (see [`spec_pattern_matches`]).
pub fn pattern_matches(pattern: &str, value: &str) -> (r: bool)
    ensures
        r == spec_pattern_matches(pattern@, value@),
{
    let p = chars_of(pattern);
    let v = chars_of(value);
    let star = vec!['*'];
    let dot_star = vec!['.', '*'];
    assert(star@ =~= seq!['*']);
    assert(dot_star@ =~= seq!['.', '*']);
    if crate::text::chars_eq(p.as_slice(), star.as_slice()) {
        return true;
    }
    if ends_with(p.as_slice(), dot_star.as_slice()) {
        let prefix = crate::text::slice_chars(p.as_slice(), 0, p.len() - 2);
        assert(prefix@ =~= p@.take(p@.len() - 2));
        return starts_with(v.as_slice(), prefix.as_slice()) && v.len() > prefix.len()
            && v[prefix.len()] == '.';
    }
    if ends_with(p.as_slice(), star.as_slice()) {
        let prefix = crate::text::slice_chars(p.as_slice(), 0, p.len() - 1);
        assert(prefix@ =~= p@.take(p@.len() - 1));
        return starts_with(v.as_slice(), prefix.as_slice());
    }
    crate::text::chars_eq(p.as_slice(), v.as_slice())
}

/// Whether an event fires a trigger: its kind matches the pattern, its severity
/// is the required one (if any), and a name filter (if any) occurs, ignoring case,
/// in the name of the event's job or in the event's message.
pub open spec fn spec_event_matches(
    kind: Seq<char>,
    severity: EventSeverity,
    message: Seq<char>,
    job_name: Option<Seq<char>>,
    kind_pattern: Seq<char>,
    required_severity: Option<EventSeverity>,
    job_name_filter: Option<Seq<char>>,
) -> bool {
    &&& spec_pattern_matches(kind_pattern, kind)
    &&& (required_severity matches Some(sev) ==> severity == sev)
    &&& (job_name_filter matches Some(f) ==> {
        ||| (job_name matches Some(n) && contains_seq(lowercase(n), lowercase(f)))
        ||| contains_seq(lowercase(message), lowercase(f))
    })
}

/// The name that `job_names` records for the event's job, if any.
pub open spec fn event_job_name(job_id: Option<u128>, job_names: Map<u128, String>) -> Option<
    Seq<char>,
> {
    match job_id {
        Some(id) => if job_names.contains_key(id) {
            Some(job_names[id]@)
        } else {
            None
        },
        None => None,
    }
}

/// Whether `event` fires a job configured with `config`; `job_names` maps job
/// identifiers to names.
pub fn event_matches(
    event: &Event,
    config: &EventTriggerConfig,
    job_names: &HashMap<u128, String>,
) -> (r: bool)
    ensures
        r == spec_event_matches(
            event.kind@,
            event.severity,
            event.message@,
            event_job_name(event.job_id, job_names@),
            config.kind_pattern@,
            config.severity,
            match config.job_name_filter {
                Some(f) => Some(f@),
                None => None,
            },
        ),
{
    broadcast use vstd::std_specs::hash::group_hash_axioms;

    if !pattern_matches(config.kind_pattern.as_str(), event.kind.as_str()) {
        return false;
    }
    match config.severity {
        Some(sev) => {
            if event.severity != sev {
                return false;
            }
        },
        None => {},
    }
    match &config.job_name_filter {
        Some(name_filter) => {
            let filter_lower = to_lowercase(name_filter.as_str());
            let fl = chars_of(filter_lower.as_str());
            // Check against the source job's actual name (via job_id on the event)
            let job_name_match = match event.job_id {
                Some(id) => match job_names.get(&id) {
                    Some(name) => {
                        let nl = to_lowercase(name.as_str());
                        let nc = chars_of(nl.as_str());
                        contains_chars(nc.as_slice(), fl.as_slice())
                    },
                    None => false,
                },
                None => false,
            };
            // Also check message text as fallback for non-job events
            let ml = to_lowercase(event.message.as_str());
            let mc = chars_of(ml.as_str());
            let message_match = contains_chars(mc.as_slice(), fl.as_slice());
            if !job_name_match && !message_match {
                return false;
            }
        },
        None => {},
    }
    true
}

/// The pattern `*` matches every event kind, and a `prefix.*` pattern matches
/// exactly the kinds that start with the prefix followed by a dot.
pub proof fn lemma_pattern_wildcards(prefix: Seq<char>, kind: Seq<char>)
    ensures
        spec_pattern_matches(seq!['*'], kind),
        spec_pattern_matches(prefix + seq!['.', '*'], kind) == is_prefix(prefix + seq!['.'], kind),
{
    let p = prefix + seq!['.', '*'];
    assert(is_suffix(seq!['.', '*'], p)) by {
        assert(p.skip(p.len() - 2) =~= seq!['.', '*']);
    }
    assert(p.take(p.len() - 2) =~= prefix);
    if p == seq!['*'] {
        assert(p.len() == 1);
    }
    if is_prefix(prefix, kind) && kind.len() > prefix.len() && kind[prefix.len() as int] == '.' {
        assert(kind.take(prefix.len() + 1int) =~= prefix + seq!['.']);
    }
    if is_prefix(prefix + seq!['.'], kind) {
        assert(kind.take(prefix.len() as int) =~= prefix) by {
            assert(kind.take(prefix.len() + 1int).take(prefix.len() as int) =~= kind.take(prefix.len() as int));
        }
        assert(kind[prefix.len() as int] == kind.take(prefix.len() + 1int)[prefix.len() as int]);
    }
}

} // verus!
