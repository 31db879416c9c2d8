//! Placeholder substitution in a task's JSON text: `{{params.NAME}}` from the
//! trigger's parameters, then `{{NAME}}` from global variables.
use crate::error::{AppError, ErrorKind};
use crate::executor::output_rules::opt_text;
use crate::json::{
    entries_get, get_entry, escape_str, json_text, opt_view, string_literal, to_json_string,
    JsonValue, JsonView,
};
use crate::text::{
    chars_of, contains_chars, contains_seq, join, join_strings, sort_dedup, sorted_distinct, str_eq,
    texts,
};
use vstd::prelude::*;

verus! {

/// The pieces of `text` between the matches of `pattern`, or the reason the
/// pattern is refused.
pub uninterp spec fn regex_split(pattern: Seq<char>, text: Seq<char>) -> Result<
    Seq<Seq<char>>,
    Seq<char>,
>;

/// The matches of `pattern` in `text`, each as its whole text and the text of its
/// first group, or the reason the pattern is refused.
pub uninterp spec fn regex_capture_list(pattern: Seq<char>, text: Seq<char>) -> Result<
    Seq<(Seq<char>, Option<Seq<char>>)>,
    Seq<char>,
>;

/// What [`split_at_matches`] returns, as character sequences.
pub open spec fn split_view(r: Result<Vec<String>, String>) -> Result<Seq<Seq<char>>, Seq<char>> {
    match r {
        Ok(v) => Ok(texts(v@)),
        Err(e) => Err(e@),
    }
}

/// Matches as character sequences.
pub open spec fn caps_view(c: Seq<(String, Option<String>)>) -> Seq<(Seq<char>, Option<Seq<char>>)> {
    c.map_values(|p: (String, Option<String>)| (p.0@, opt_text(p.1)))
}

/// What [`all_captures`] returns, as character sequences.
pub open spec fn capture_list_view(r: Result<Vec<(String, Option<String>)>, String>) -> Result<
    Seq<(Seq<char>, Option<Seq<char>>)>,
    Seq<char>,
> {
    match r {
        Ok(v) => Ok(caps_view(v@)),
        Err(e) => Err(e@),
    }
}

/// `regex::Regex::new(pattern)`, then `split(text)`, each piece copied; the error's
/// display text where the pattern is refused. The claim: the outcome depends on the
/// two texts alone and is named [`regex_split`].
#[verifier::external_body]
fn split_at_matches(pattern: &str, text: &str) -> (r: Result<Vec<String>, String>)
    ensures
        split_view(r) == regex_split(pattern@, text@),
{
    match regex::Regex::new(pattern) {
        Ok(re) => Ok(re.split(text).map(|p| p.to_string()).collect()),
        Err(e) => Err(e.to_string()),
    }
}

/// `regex::Regex::new(pattern)`, then `captures_iter(text)`, each match read as its
/// whole text and its group 1; the error's display text where the pattern is
/// refused. The claim: the outcome depends on the two texts alone and is named
/// [`regex_capture_list`].
#[verifier::external_body]
fn all_captures(pattern: &str, text: &str) -> (r: Result<Vec<(String, Option<String>)>, String>)
    ensures
        capture_list_view(r) == regex_capture_list(pattern@, text@),
{
    match regex::Regex::new(pattern) {
        Ok(re) => Ok(
            re.captures_iter(text).map(
                |c| (c.get_match().as_str().to_string(), c.get(1).map(|m| m.as_str().to_string())),
            ).collect(),
        ),
        Err(e) => Err(e.to_string()),
    }
}

/// The pattern of a parameter placeholder, `{{params.NAME}}`.
pub open spec fn params_pattern() -> Seq<char> {
    "\\{\\{params\\.([A-Za-z0-9_]+)\\}\\}"@
}

/// The pattern of a variable placeholder, `{{NAME}}`.
pub open spec fn vars_pattern() -> Seq<char> {
    "\\{\\{([A-Za-z0-9_]+)\\}\\}"@
}

/// How one placeholder is dealt with.
pub enum Resolution {
    /// A match without a name (which the placeholder patterns never give): kept as it is.
    Keep,
    /// Replaced by this text.
    Resolved(Seq<char>),
    /// Nothing is known under the name; the placeholder stays and the name is reported.
    Missing(Seq<char>),
}

/// How one placeholder is dealt with, in executable form.
pub enum Replacement {
    Keep,
    Resolved(String),
    Missing(String),
}

/// The meaning of a [`Replacement`].
pub open spec fn rview(r: Replacement) -> Resolution {
    match r {
        Replacement::Keep => Resolution::Keep,
        Replacement::Resolved(t) => Resolution::Resolved(t@),
        Replacement::Missing(n) => Resolution::Missing(n@),
    }
}

/// The meanings of a list of replacements.
pub open spec fn rviews(r: Seq<Replacement>) -> Seq<Resolution> {
    r.map_values(|x: Replacement| rview(x))
}

/// The text a parameter value is substituted as: a string's own text, the compact
/// JSON of anything else.
pub open spec fn param_text(v: JsonView) -> Seq<char> {
    match v {
        JsonView::String(s) => s,
        _ => json_text(v),
    }
}

/// The parameter of that name, where the parameters are an object.
pub open spec fn param_lookup(params: Option<JsonView>, name: Seq<char>) -> Option<JsonView> {
    match params {
        Some(JsonView::Object(e)) => entries_get(e, name),
        _ => None,
    }
}

/// How a `{{params.NAME}}` placeholder is dealt with.
pub open spec fn resolve_param(params: Option<JsonView>, cap: (Seq<char>, Option<Seq<char>>)) -> Resolution {
    match cap.1 {
        None => Resolution::Keep,
        Some(n) => match param_lookup(params, n) {
            Some(v) => Resolution::Resolved(escape_str(param_text(v))),
            None => Resolution::Missing("params."@ + n),
        },
    }
}

/// The value of the first variable of that name.
pub open spec fn var_lookup(vars: Seq<(Seq<char>, Seq<char>)>, name: Seq<char>) -> Option<Seq<char>>
    decreases vars.len(),
{
    if vars.len() == 0 {
        None
    } else if vars[0].0 == name {
        Some(vars[0].1)
    } else {
        var_lookup(vars.drop_first(), name)
    }
}

/// How a `{{NAME}}` placeholder is dealt with.
pub open spec fn resolve_var(vars: Seq<(Seq<char>, Seq<char>)>, cap: (Seq<char>, Option<Seq<char>>)) -> Resolution {
    match cap.1 {
        None => Resolution::Keep,
        Some(n) => match var_lookup(vars, n) {
            Some(v) => Resolution::Resolved(escape_str(v)),
            None => Resolution::Missing(n),
        },
    }
}

/// The text that stands where a placeholder matched.
pub open spec fn res_text(r: Resolution, whole: Seq<char>) -> Seq<char> {
    match r {
        Resolution::Resolved(t) => t,
        _ => whole,
    }
}

/// The pieces joined back, each match between two pieces replaced as decided.
pub open spec fn splice(
    pieces: Seq<Seq<char>>,
    caps: Seq<(Seq<char>, Option<Seq<char>>)>,
    rs: Seq<Resolution>,
) -> Seq<char>
    decreases pieces.len(),
{
    if pieces.len() == 0 {
        seq![]
    } else {
        let k = pieces.len() - 1;
        splice(pieces.drop_last(), caps, rs) + (if k > 0 && k - 1 < caps.len() && k - 1 < rs.len() {
            res_text(rs[k - 1], caps[k - 1].0)
        } else {
            seq![]
        }) + pieces.last()
    }
}

/// The names reported missing, in order.
pub open spec fn missing_names(rs: Seq<Resolution>) -> Seq<Seq<char>>
    decreases rs.len(),
{
    if rs.len() == 0 {
        seq![]
    } else {
        let m = missing_names(rs.drop_last());
        match rs.last() {
            Resolution::Missing(n) => m.push(n),
            _ => m,
        }
    }
}

/// Whether any placeholder was replaced.
pub open spec fn any_resolved(rs: Seq<Resolution>) -> bool {
    exists|i: int| 0 <= i < rs.len() && #[trigger] rs[i] is Resolved
}

/// The error a failed pattern gives.
pub open spec fn pattern_error(e: Seq<char>) -> (ErrorKind, Seq<char>) {
    (ErrorKind::Internal, "regex compile failed: "@ + e)
}

/// The error that reports unresolved placeholders.
pub open spec fn unresolved_error(missing: Seq<Seq<char>>) -> (ErrorKind, Seq<char>) {
    (
        ErrorKind::BadRequest,
        "unresolved variable reference(s): {{"@ + join(sort_dedup(missing), "}}, {{"@) + "}}"@,
    )
}

/// The second pass and the verdict, given what the first pass left.
pub open spec fn spec_second_pass(
    t1: Seq<char>,
    rs1: Seq<Resolution>,
    vars: Seq<(Seq<char>, Seq<char>)>,
) -> Result<Option<Seq<char>>, (ErrorKind, Seq<char>)> {
    match regex_split(vars_pattern(), t1) {
        Err(e) => Err(pattern_error(e)),
        Ok(pieces) => match regex_capture_list(vars_pattern(), t1) {
            Err(e) => Err(pattern_error(e)),
            Ok(caps) => {
                let rs2 = caps.map_values(|c: (Seq<char>, Option<Seq<char>>)| resolve_var(vars, c));
                let missing = missing_names(rs1) + missing_names(rs2);
                if missing.len() > 0 {
                    Err(unresolved_error(missing))
                } else if !any_resolved(rs1) && !any_resolved(rs2) {
                    Ok(None)
                } else {
                    Ok(Some(splice(pieces, caps, rs2)))
                }
            },
        },
    }
}

/// What substitution gives for a task's JSON text: `Ok(None)` when no placeholder
/// was replaced, `Ok(Some(text))` when every placeholder was resolved, and an error
/// naming every unresolved one otherwise.
pub open spec fn spec_substitute(
    text: Seq<char>,
    vars: Seq<(Seq<char>, Seq<char>)>,
    params: Option<JsonView>,
) -> Result<Option<Seq<char>>, (ErrorKind, Seq<char>)> {
    if !contains_seq(text, seq!['{', '{']) {
        Ok(None)
    } else {
        match regex_split(params_pattern(), text) {
            Err(e) => Err(pattern_error(e)),
            Ok(pieces) => match regex_capture_list(params_pattern(), text) {
                Err(e) => Err(pattern_error(e)),
                Ok(caps) => {
                    let rs1 = caps.map_values(
                        |c: (Seq<char>, Option<Seq<char>>)| resolve_param(params, c),
                    );
                    spec_second_pass(splice(pieces, caps, rs1), rs1, vars)
                },
            },
        }
    }
}

/// Variables as pairs of texts.
pub open spec fn vars_view(v: Seq<(String, String)>) -> Seq<(Seq<char>, Seq<char>)> {
    v.map_values(|p: (String, String)| (p.0@, p.1@))
}

/// The meaning of a substitution's outcome.
pub open spec fn outcome_view(r: Result<Option<String>, AppError>) -> Result<
    Option<Seq<char>>,
    (ErrorKind, Seq<char>),
> {
    match r {
        Ok(Some(s)) => Ok(Some(s@)),
        Ok(None) => Ok(None),
        Err(e) => Err(e@),
    }
}

/// `s` escaped for the inside of a JSON string literal: the literal `serde_json`
/// writes for it, without its two quotes.
fn json_escape(s: &str) -> (r: String)
    ensures
        r@ == escape_str(s@),
{
    let t = string_literal(s);
    let cs = crate::text::chars_of(t.as_str());
    let mut out = String::new();
    let mut i: usize = 1;
    while i < cs.len() - 1
        invariant
            1 <= i <= cs@.len() - 1,
            cs@.len() >= 2,
            out@ == cs@.subrange(1, i as int),
        decreases cs.len() - i,
    {
        crate::text::push_char(&mut out, cs[i]);
        assert(cs@.subrange(1, i + 1) =~= cs@.subrange(1, i as int).push(cs@[i as int]));
        i = i + 1;
    }
    assert(cs@.subrange(1, cs@.len() - 1) =~= escape_str(s@));
    out
}

fn lookup_var<'a>(vars: &'a Vec<(String, String)>, name: &str) -> (r: Option<&'a String>)
    ensures
        match var_lookup(vars_view(vars@), name@) {
            Some(v) => r matches Some(x) && x@ == v,
            None => r is None,
        },
{
    let ghost vv = vars_view(vars@);
    let mut i: usize = 0;
    assert(vv.skip(0) =~= vv);
    while i < vars.len()
        invariant
            i <= vars@.len(),
            vv == vars_view(vars@),
            var_lookup(vv, name@) == var_lookup(vv.skip(i as int), name@),
        decreases vars.len() - i,
    {
        assert(vv.skip(i as int)[0] == vv[i as int]);
        if str_eq(vars[i].0.as_str(), name) {
            return Some(&vars[i].1);
        }
        assert(vv.skip(i as int).drop_first() =~= vv.skip(i + 1));
        i = i + 1;
    }
    None
}

fn resolve_params(caps: &Vec<(String, Option<String>)>, params: Option<&JsonValue>) -> (r: Vec<
    Replacement,
>)
    ensures
        r@.len() == caps@.len(),
        rviews(r@) == caps_view(caps@).map_values(
            |c: (Seq<char>, Option<Seq<char>>)|
                resolve_param(
                    match params {
                        Some(p) => Some(p@),
                        None => None,
                    },
                    c,
                ),
        ),
{
    let ghost pv = match params {
        Some(p) => Some(p@),
        None => None::<JsonView>,
    };
    let mut r: Vec<Replacement> = Vec::new();
    let mut i: usize = 0;
    while i < caps.len()
        invariant
            i <= caps@.len(),
            r@.len() == i,
            pv == match params {
                Some(p) => Some(p@),
                None => None::<JsonView>,
            },
            forall|j: int|
                0 <= j < i ==> #[trigger] rview(r@[j]) == resolve_param(pv, caps_view(caps@)[j]),
        decreases caps.len() - i,
    {
        let ghost c = caps_view(caps@)[i as int];
        let rep = match &caps[i].1 {
            None => Replacement::Keep,
            Some(name) => {
                let found = match params {
                    Some(JsonValue::Object(entries)) => get_entry(entries, name.as_str()),
                    _ => None,
                };
                match found {
                    Some(v) => {
                        let t = match v {
                            JsonValue::String(s) => s.clone(),
                            other => to_json_string(other),
                        };
                        Replacement::Resolved(json_escape(t.as_str()))
                    },
                    None => {
                        let mut n = String::new();
                        n.append("params.");
                        n.append(name.as_str());
                        Replacement::Missing(n)
                    },
                }
            },
        };
        assert(rview(rep) == resolve_param(pv, c));
        r.push(rep);
        i = i + 1;
    }
    assert(rviews(r@) =~= caps_view(caps@).map_values(
        |c: (Seq<char>, Option<Seq<char>>)| resolve_param(pv, c),
    ));
    r
}

fn resolve_vars(caps: &Vec<(String, Option<String>)>, vars: &Vec<(String, String)>) -> (r: Vec<
    Replacement,
>)
    ensures
        r@.len() == caps@.len(),
        rviews(r@) == caps_view(caps@).map_values(
            |c: (Seq<char>, Option<Seq<char>>)| resolve_var(vars_view(vars@), c),
        ),
{
    let mut r: Vec<Replacement> = Vec::new();
    let mut i: usize = 0;
    while i < caps.len()
        invariant
            i <= caps@.len(),
            r@.len() == i,
            forall|j: int|
                0 <= j < i ==> #[trigger] rview(r@[j]) == resolve_var(
                    vars_view(vars@),
                    caps_view(caps@)[j],
                ),
        decreases caps.len() - i,
    {
        let ghost c = caps_view(caps@)[i as int];
        let rep = match &caps[i].1 {
            None => Replacement::Keep,
            Some(name) => match lookup_var(vars, name.as_str()) {
                Some(v) => Replacement::Resolved(json_escape(v.as_str())),
                None => Replacement::Missing(name.clone()),
            },
        };
        assert(rview(rep) == resolve_var(vars_view(vars@), c));
        r.push(rep);
        i = i + 1;
    }
    assert(rviews(r@) =~= caps_view(caps@).map_values(
        |c: (Seq<char>, Option<Seq<char>>)| resolve_var(vars_view(vars@), c),
    ));
    r
}

fn splice_text(pieces: &Vec<String>, caps: &Vec<(String, Option<String>)>, reps: &Vec<Replacement>) -> (r: String)
    requires
        reps@.len() == caps@.len(),
    ensures
        r@ == splice(texts(pieces@), caps_view(caps@), rviews(reps@)),
{
    let ghost pv = texts(pieces@);
    let ghost cv = caps_view(caps@);
    let ghost rv = rviews(reps@);
    let mut out = String::new();
    let mut i: usize = 0;
    while i < pieces.len()
        invariant
            i <= pieces@.len(),
            reps@.len() == caps@.len(),
            pv == texts(pieces@),
            cv == caps_view(caps@),
            rv == rviews(reps@),
            out@ == splice(pv.take(i as int), cv, rv),
        decreases pieces.len() - i,
    {
        assert(pv.take(i + 1).drop_last() =~= pv.take(i as int));
        assert(pv.take(i + 1).last() == pieces@[i as int]@);
        if i > 0 && i - 1 < caps.len() {
            match &reps[i - 1] {
                Replacement::Resolved(t) => out.append(t.as_str()),
                _ => out.append(caps[i - 1].0.as_str()),
            }
        }
        out.append(pieces[i].as_str());
        i = i + 1;
    }
    assert(pv.take(pieces@.len() as int) =~= pv);
    out
}

fn push_missing(reps: &Vec<Replacement>, names: &mut Vec<String>)
    ensures
        texts(final(names)@) == texts(old(names)@) + missing_names(rviews(reps@)),
{
    let ghost start = texts(names@);
    let mut i: usize = 0;
    while i < reps.len()
        invariant
            i <= reps@.len(),
            texts(names@) == start + missing_names(rviews(reps@).take(i as int)),
        decreases reps.len() - i,
    {
        assert(rviews(reps@).take(i + 1).drop_last() =~= rviews(reps@).take(i as int));
        assert(rviews(reps@).take(i + 1).last() == rview(reps@[i as int]));
        match &reps[i] {
            Replacement::Missing(n) => {
                let ghost before = texts(names@);
                names.push(n.clone());
                assert(texts(names@) =~= before.push(n@));
            },
            _ => {},
        }
        i = i + 1;
    }
    assert(rviews(reps@).take(reps@.len() as int) =~= rviews(reps@));
}

fn has_resolved(reps: &Vec<Replacement>) -> (r: bool)
    ensures
        r == any_resolved(rviews(reps@)),
{
    let mut i: usize = 0;
    while i < reps.len()
        invariant
            i <= reps@.len(),
            forall|j: int| 0 <= j < i ==> !(#[trigger] rviews(reps@)[j] is Resolved),
        decreases reps.len() - i,
    {
        if let Replacement::Resolved(_) = &reps[i] {
            assert(rviews(reps@)[i as int] is Resolved);
            return true;
        }
        i = i + 1;
    }
    false
}

fn pattern_failure(e: String) -> (r: AppError)
    ensures
        r@ == pattern_error(e@),
{
    let mut m = String::new();
    m.append("regex compile failed: ");
    m.append(e.as_str());
    AppError::Internal(m)
}

/// Substitutes `{{params.NAME}}` and `{{NAME}}` placeholders in a task's JSON text.
///
/// Returns `Ok(None)` when no placeholder was replaced (the caller keeps the task as
/// it is), `Ok(Some(text))` when every placeholder was resolved, and an error when
/// any placeholder names nothing known, so that no job runs with a literal `{{X}}`.
/// Replacement texts are escaped for a JSON string.
pub fn substitute_variables(
    task_json: &str,
    vars: &Vec<(String, String)>,
    params: Option<&JsonValue>,
) -> (r: Result<Option<String>, AppError>)
    ensures
        outcome_view(r) == spec_substitute(
            task_json@,
            vars_view(vars@),
            match params {
                Some(p) => Some(p@),
                None => None,
            },
        ),
{
    let open = vec!['{', '{'];
    assert(open@ =~= seq!['{', '{']);
    if !contains_chars(chars_of(task_json).as_slice(), open.as_slice()) {
        return Ok(None);
    }
    let p1 = "\\{\\{params\\.([A-Za-z0-9_]+)\\}\\}";
    let pieces1 = match split_at_matches(p1, task_json) {
        Ok(p) => p,
        Err(e) => return Err(pattern_failure(e)),
    };
    let caps1 = match all_captures(p1, task_json) {
        Ok(c) => c,
        Err(e) => return Err(pattern_failure(e)),
    };
    let reps1 = resolve_params(&caps1, params);
    let ghost pv = match params {
        Some(p) => Some(p@),
        None => None::<JsonView>,
    };
    let ghost rs1 = caps_view(caps1@).map_values(
        |c: (Seq<char>, Option<Seq<char>>)| resolve_param(pv, c),
    );
    assert(rviews(reps1@) =~= rs1);
    let t1 = splice_text(&pieces1, &caps1, &reps1);
    assert(t1@ == splice(texts(pieces1@), caps_view(caps1@), rs1));
    let p2 = "\\{\\{([A-Za-z0-9_]+)\\}\\}";
    let pieces2 = match split_at_matches(p2, t1.as_str()) {
        Ok(p) => p,
        Err(e) => return Err(pattern_failure(e)),
    };
    let caps2 = match all_captures(p2, t1.as_str()) {
        Ok(c) => c,
        Err(e) => return Err(pattern_failure(e)),
    };
    let reps2 = resolve_vars(&caps2, vars);
    let ghost rs2 = caps_view(caps2@).map_values(
        |c: (Seq<char>, Option<Seq<char>>)| resolve_var(vars_view(vars@), c),
    );
    assert(rviews(reps2@) =~= rs2);
    let mut missing: Vec<String> = Vec::new();
    push_missing(&reps1, &mut missing);
    push_missing(&reps2, &mut missing);
    assert(texts(missing@).len() == missing@.len());
    if missing.len() > 0 {
        let names = sorted_distinct(&missing);
        let mut m = String::new();
        m.append("unresolved variable reference(s): {{");
        m.append(join_strings(&names, "}}, {{").as_str());
        m.append("}}");
        return Err(AppError::BadRequest(m));
    }
    if !has_resolved(&reps1) && !has_resolved(&reps2) {
        return Ok(None);
    }
    Ok(Some(splice_text(&pieces2, &caps2, &reps2)))
}


/// A `{{params.NAME}}` placeholder whose name the trigger parameters hold is
/// applied: when substitution succeeds on such a task, it gives a new task text
/// (`Ok(Some(..))`), never `Ok(None)`, whether or not any `{{VAR}}` follows.
pub proof fn lemma_resolved_param_gives_new_text(
    text: Seq<char>,
    vars: Seq<(Seq<char>, Seq<char>)>,
    params: Option<JsonView>,
    caps: Seq<(Seq<char>, Option<Seq<char>>)>,
    k: int,
)
    requires
        contains_seq(text, seq!['{', '{']),
        regex_capture_list(params_pattern(), text) == Ok::<Seq<(Seq<char>, Option<Seq<char>>)>, Seq<char>>(caps),
        0 <= k < caps.len(),
        caps[k].1 matches Some(n) && param_lookup(params, n) is Some,
        spec_substitute(text, vars, params) is Ok,
    ensures
        spec_substitute(text, vars, params) matches Ok(Some(_)),
{
    let rs1 = caps.map_values(|c: (Seq<char>, Option<Seq<char>>)| resolve_param(params, c));
    assert(rs1[k] is Resolved);
    assert(any_resolved(rs1));
}


/// A `{{NAME}}` placeholder, left in the task text once the parameters are
/// applied, whose name a variable holds is applied too: when substitution
/// succeeds on such a task, it gives a new task text, never `Ok(None)`, whether or
/// not any `{{params.NAME}}` was replaced first.
pub proof fn lemma_resolved_var_gives_new_text(
    text: Seq<char>,
    vars: Seq<(Seq<char>, Seq<char>)>,
    params: Option<JsonView>,
    pieces: Seq<Seq<char>>,
    caps: Seq<(Seq<char>, Option<Seq<char>>)>,
    caps2: Seq<(Seq<char>, Option<Seq<char>>)>,
    k: int,
)
    requires
        contains_seq(text, seq!['{', '{']),
        regex_split(params_pattern(), text) == Ok::<Seq<Seq<char>>, Seq<char>>(pieces),
        regex_capture_list(params_pattern(), text) == Ok::<Seq<(Seq<char>, Option<Seq<char>>)>, Seq<char>>(caps),
        regex_capture_list(
            vars_pattern(),
            splice(pieces, caps, caps.map_values(|c: (Seq<char>, Option<Seq<char>>)| resolve_param(params, c))),
        ) == Ok::<Seq<(Seq<char>, Option<Seq<char>>)>, Seq<char>>(caps2),
        0 <= k < caps2.len(),
        caps2[k].1 matches Some(n) && var_lookup(vars, n) is Some,
        spec_substitute(text, vars, params) is Ok,
    ensures
        spec_substitute(text, vars, params) matches Ok(Some(_)),
{
    let rs2 = caps2.map_values(|c: (Seq<char>, Option<Seq<char>>)| resolve_var(vars, c));
    assert(rs2[k] is Resolved);
    assert(any_resolved(rs2));
}
} // verus!
