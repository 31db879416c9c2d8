//! Output rules: named values extracted from task output, and patterns whose
//! presence in the output raises an event.
use crate::db::models::job::{ExtractionRule, OutputTrigger};
use crate::json::{get, json_text, json_get, json_parse, parse_json, to_json_string, JsonValue, JsonView};
use crate::text::{
    chars_of, contains_chars, contains_seq, is_prefix, slice_chars, split_char, split_on, str_eq,
    string_from_chars, trim_chars, trim_ws,
};
use vstd::prelude::*;

verus! {

/// The groups of the first match of `pattern` in `text`, in index order, each with
/// its name (if it has one) and the text it matched (if it took part). The outer
/// `None` means the pattern is refused; `Some(None)` means it does not match.
pub uninterp spec fn regex_groups(pattern: Seq<char>, text: Seq<char>) -> Option<
    Option<Seq<(Option<Seq<char>>, Option<Seq<char>>)>>,
>;

/// Whether `pattern` matches somewhere in `text`; `None` where the pattern is refused.
pub uninterp spec fn regex_matches(pattern: Seq<char>, text: Seq<char>) -> Option<bool>;

/// The text of an optional string.
pub open spec fn opt_text(o: Option<String>) -> Option<Seq<char>> {
    match o {
        Some(s) => Some(s@),
        None => None,
    }
}

/// The names and matched texts of capture groups, as character sequences.
pub open spec fn groups_view(g: Seq<(Option<String>, Option<String>)>) -> Seq<
    (Option<Seq<char>>, Option<Seq<char>>),
> {
    g.map_values(|p: (Option<String>, Option<String>)| (opt_text(p.0), opt_text(p.1)))
}

/// What [`first_match_groups`] returns, as character sequences.
pub open spec fn captures_view(r: Option<Option<Vec<(Option<String>, Option<String>)>>>) -> Option<
    Option<Seq<(Option<Seq<char>>, Option<Seq<char>>)>>,
> {
    match r {
        None => None,
        Some(None) => Some(None),
        Some(Some(v)) => Some(Some(groups_view(v@))),
    }
}

/// `regex::Regex::new(pattern)`, then `captures(text)` read out group by group with
/// `capture_names`. The claim: the outcome depends on the two texts alone and is
/// named [`regex_groups`]; the regular-expression language is left unsaid.
#[verifier::external_body]
fn first_match_groups(pattern: &str, text: &str) -> (r: Option<
    Option<Vec<(Option<String>, Option<String>)>>,
>)
    ensures
        captures_view(r) == regex_groups(pattern@, text@),
{
    let re = regex::Regex::new(pattern).ok()?;
    Some(
        re.captures(text).map(
            |caps| {
                re.capture_names().zip(caps.iter()).map(
                    |(n, m)| (n.map(|x| x.to_string()), m.map(|x| x.as_str().to_string())),
                ).collect()
            },
        ),
    )
}

/// `regex::Regex::new(pattern)`, then `is_match(text)`. The claim: the outcome
/// depends on the two texts alone and is named [`regex_matches`].
#[verifier::external_body]
fn pattern_matches(pattern: &str, text: &str) -> (r: Option<bool>)
    ensures
        r == regex_matches(pattern@, text@),
{
    regex::Regex::new(pattern).ok().map(|re| re.is_match(text))
}

/// The text of the first group that has a name and took part in the match.
pub open spec fn first_named(g: Seq<(Option<Seq<char>>, Option<Seq<char>>)>) -> Option<Seq<char>>
    decreases g.len(),
{
    if g.len() == 0 {
        None
    } else if g[0].0 is Some && g[0].1 is Some {
        g[0].1
    } else {
        first_named(g.drop_first())
    }
}

/// What a regex rule extracts: the first named group that matched, else group 1.
pub open spec fn spec_extract_regex(stdout: Seq<char>, pattern: Seq<char>) -> Option<Seq<char>> {
    match regex_groups(pattern, stdout) {
        Some(Some(g)) => match first_named(g) {
            Some(t) => Some(t),
            None => if g.len() > 1 {
                g[1].1
            } else {
                None
            },
        },
        _ => None,
    }
}

fn extract_regex(stdout: &str, pattern: &str) -> (r: Option<String>)
    ensures
        opt_text(r) == spec_extract_regex(stdout@, pattern@),
{
    match first_match_groups(pattern, stdout) {
        Some(Some(groups)) => {
            let ghost g = groups_view(groups@);
            let mut i: usize = 0;
            assert(g.skip(0) =~= g);
            while i < groups.len()
                invariant
                    i <= groups@.len(),
                    g == groups_view(groups@),
                    regex_groups(pattern@, stdout@) == Some(Some(g)),
                    first_named(g) == first_named(g.skip(i as int)),
                decreases groups.len() - i,
            {
                assert(g.skip(i as int)[0] == g[i as int]);
                assert(g[i as int] == (opt_text(groups@[i as int].0), opt_text(groups@[i as int].1)));
                if groups[i].0.is_some() && groups[i].1.is_some() {
                    assert(first_named(g.skip(i as int)) == g[i as int].1);
                    return match &groups[i].1 {
                        Some(t) => Some(t.clone()),
                        None => None,
                    };
                }
                assert(g.skip(i as int).drop_first() =~= g.skip(i + 1));
                i = i + 1;
            }
            assert(g.skip(i as int).len() == 0);
            if groups.len() > 1 {
                assert(g[1] == (opt_text(groups@[1].0), opt_text(groups@[1].1)));
                match &groups[1].1 {
                    Some(t) => Some(t.clone()),
                    None => None,
                }
            } else {
                None
            }
        },
        _ => None,
    }
}

/// The path with a leading `$.` removed.
pub open spec fn strip_root(path: Seq<char>) -> Seq<char> {
    if is_prefix(seq!['$', '.'], path) {
        path.skip(2)
    } else {
        path
    }
}

/// Follows `keys` through nested objects, starting at `v`.
pub open spec fn walk(v: Option<JsonView>, keys: Seq<Seq<char>>) -> Option<JsonView>
    decreases keys.len(),
{
    if keys.len() == 0 {
        v
    } else {
        match v {
            Some(x) => walk(json_get(x, keys[0]), keys.drop_first()),
            None => None,
        }
    }
}

proof fn lemma_walk_none(keys: Seq<Seq<char>>)
    ensures
        walk(None, keys) is None,
{
}

/// The text a reached value gives: a string's own text, nothing for `null`, the
/// compact JSON text of anything else.
pub open spec fn leaf_text(v: JsonView) -> Option<Seq<char>> {
    match v {
        JsonView::String(s) => Some(s),
        JsonView::Null => None,
        _ => Some(json_text(v)),
    }
}

/// What a JSONPath rule extracts: output parsed as JSON after trimming, then the
/// dot-separated path followed from the root.
pub open spec fn spec_extract_jsonpath(stdout: Seq<char>, path: Seq<char>) -> Option<Seq<char>> {
    match json_parse(trim_ws(stdout)) {
        Err(_) => None,
        Ok(v) => match walk(Some(v), split_on(strip_root(path), '.')) {
            Some(x) => leaf_text(x),
            None => None,
        },
    }
}

fn extract_jsonpath(stdout: &str, path: &str) -> (r: Option<String>)
    ensures
        opt_text(r) == spec_extract_jsonpath(stdout@, path@),
{
    let out_chars = chars_of(stdout);
    let trimmed = string_from_chars(trim_chars(out_chars.as_slice()).as_slice());
    let parsed = match parse_json(trimmed.as_str()) {
        Ok(v) => v,
        Err(_) => return None,
    };
    let p = chars_of(path);
    let dollar_dot = vec!['$', '.'];
    let n = p.len();
    let stripped = if crate::text::starts_with(p.as_slice(), dollar_dot.as_slice()) {
        slice_chars(p.as_slice(), 2, n)
    } else {
        p
    };
    assert(dollar_dot@ =~= seq!['$', '.']);
    assert(stripped@ == strip_root(path@));
    let keys = split_char(stripped.as_slice(), '.');
    let ghost ks = split_on(stripped@, '.');
    let mut cur: &JsonValue = &parsed;
    let mut i: usize = 0;
    assert(ks.skip(0) =~= ks);
    while i < keys.len()
        invariant
            i <= keys@.len(),
            keys@.len() == ks.len(),
            forall|k: int| 0 <= k < keys@.len() ==> #[trigger] keys@[k]@ == ks[k],
            walk(Some(parsed@), ks) == walk(Some(cur@), ks.skip(i as int)),
            json_parse(trim_ws(stdout@)) == Ok::<JsonView, Seq<char>>(parsed@),
            ks == split_on(strip_root(path@), '.'),
        decreases keys.len() - i,
    {
        let key = string_from_chars(keys[i].as_slice());
        assert(ks.skip(i as int)[0] == ks[i as int]);
        assert(ks.skip(i as int).drop_first() =~= ks.skip(i + 1));
        assert(key@ == ks[i as int]);
        match get(cur, key.as_str()) {
            Some(next) => {
                cur = next;
            },
            None => {
                proof {
                    lemma_walk_none(ks.skip(i + 1));
                }
                return None;
            },
        }
        i = i + 1;
    }
    assert(ks.skip(i as int).len() == 0);
    match cur {
        JsonValue::String(s) => Some(s.clone()),
        JsonValue::Null => None,
        other => Some(to_json_string(other)),
    }
}

/// What one extraction rule yields from `stdout`.
pub open spec fn spec_extract_value(stdout: Seq<char>, rule: ExtractionRule) -> Option<Seq<char>> {
    if rule.rule_type@ == "regex"@ {
        spec_extract_regex(stdout, rule.pattern@)
    } else if rule.rule_type@ == "jsonpath"@ {
        spec_extract_jsonpath(stdout, rule.pattern@)
    } else {
        None
    }
}

fn extract_value(stdout: &str, pattern: &str, rule_type: &str) -> (r: Option<String>)
    ensures
        opt_text(r) == (if rule_type@ == "regex"@ {
            spec_extract_regex(stdout@, pattern@)
        } else if rule_type@ == "jsonpath"@ {
            spec_extract_jsonpath(stdout@, pattern@)
        } else {
            None
        }),
{
    if str_eq(rule_type, "regex") {
        extract_regex(stdout, pattern)
    } else if str_eq(rule_type, "jsonpath") {
        extract_jsonpath(stdout, pattern)
    } else {
        None
    }
}

/// The values the rules extract, by rule name; a later rule of the same name
/// replaces an earlier one's value.
pub open spec fn spec_run_extractions(stdout: Seq<char>, rules: Seq<ExtractionRule>) -> Map<
    Seq<char>,
    Seq<char>,
>
    decreases rules.len(),
{
    if rules.len() == 0 {
        Map::empty()
    } else {
        let m = spec_run_extractions(stdout, rules.drop_last());
        match spec_extract_value(stdout, rules.last()) {
            Some(v) => m.insert(rules.last().name@, v),
            None => m,
        }
    }
}

/// The map that name/value pairs describe, a later pair winning over an earlier one.
pub open spec fn pairs_map(p: Seq<(String, String)>) -> Map<Seq<char>, Seq<char>>
    decreases p.len(),
{
    if p.len() == 0 {
        Map::empty()
    } else {
        pairs_map(p.drop_last()).insert(p.last().0@, p.last().1@)
    }
}

/// No name occurs twice among the pairs.
pub open spec fn distinct_names(p: Seq<(String, String)>) -> bool {
    forall|i: int, j: int| 0 <= i < j < p.len() ==> #[trigger] p[i].0@ != #[trigger] p[j].0@
}

proof fn lemma_pairs_map_dom(p: Seq<(String, String)>, k: Seq<char>)
    requires
        forall|i: int| 0 <= i < p.len() ==> #[trigger] p[i].0@ != k,
    ensures
        !pairs_map(p).dom().contains(k),
    decreases p.len(),
{
    if p.len() > 0 {
        lemma_pairs_map_dom(p.drop_last(), k);
    }
}

proof fn lemma_pairs_map_update(p: Seq<(String, String)>, j: int, x: (String, String))
    requires
        distinct_names(p),
        0 <= j < p.len(),
        p[j].0@ == x.0@,
    ensures
        pairs_map(p.update(j, x)) =~= pairs_map(p).insert(x.0@, x.1@),
    decreases p.len(),
{
    let q = p.update(j, x);
    if j == p.len() - 1 {
        assert(q.drop_last() =~= p.drop_last());
    } else {
        assert(q.drop_last() =~= p.drop_last().update(j, x));
        lemma_pairs_map_update(p.drop_last(), j, x);
        assert(p.last().0@ != x.0@);
    }
}

/// Runs extraction rules against stdout; the result holds each extracted name once,
/// with the value of the last rule of that name that yielded one.
pub fn run_extractions(stdout: &str, rules: &[ExtractionRule]) -> (r: Vec<(String, String)>)
    ensures
        distinct_names(r@),
        pairs_map(r@) == spec_run_extractions(stdout@, rules@),
{
    let mut results: Vec<(String, String)> = Vec::new();
    let mut i: usize = 0;
    while i < rules.len()
        invariant
            i <= rules@.len(),
            distinct_names(results@),
            pairs_map(results@) == spec_run_extractions(stdout@, rules@.take(i as int)),
        decreases rules.len() - i,
    {
        let rule = &rules[i];
        assert(rules@.take(i + 1).drop_last() =~= rules@.take(i as int));
        assert(rules@.take(i + 1).last() == rules@[i as int]);
        match extract_value(stdout, rule.pattern.as_str(), rule.rule_type.as_str()) {
            Some(value) => {
                let mut j: usize = 0;
                let mut found = false;
                while j < results.len() && !found
                    invariant
                        j <= results@.len(),
                        forall|k: int| 0 <= k < j ==> #[trigger] results@[k].0@ != rule.name@,
                        found ==> j < results@.len() && results@[j as int].0@ == rule.name@,
                    decreases results.len() - j + (if found { 0int } else { 1int }),
                {
                    if str_eq(results[j].0.as_str(), rule.name.as_str()) {
                        found = true;
                    } else {
                        j = j + 1;
                    }
                }
                if found {
                    proof {
                        lemma_pairs_map_update(results@, j as int, (rule.name, value));
                    }
                    let ghost old_results = results@;
                    results.set(j, (rule.name.clone(), value));
                    assert(results@ =~= old_results.update(j as int, (rule.name, value)));
                    assert forall|a: int, b: int|
                        0 <= a < b < results@.len() implies #[trigger] results@[a].0@
                        != #[trigger] results@[b].0@ by {
                        assert(old_results[a].0@ != old_results[b].0@);
                    }
                } else {
                    let ghost old_results = results@;
                    results.push((rule.name.clone(), value));
                    assert(results@.drop_last() =~= old_results);
                    assert forall|a: int, b: int|
                        0 <= a < b < results@.len() implies #[trigger] results@[a].0@
                        != #[trigger] results@[b].0@ by {
                        if b < old_results.len() {
                            assert(old_results[a].0@ != old_results[b].0@);
                        }
                    }
                }
            },
            None => {},
        }
        i = i + 1;
    }
    assert(rules@.take(rules@.len() as int) =~= rules@);
    results
}

/// Whether a trigger's pattern is found in the output: as a regular expression in
/// stdout or stderr, or, where the pattern is not a valid one, as plain text.
pub open spec fn spec_trigger_fires(stdout: Seq<char>, stderr: Seq<char>, pattern: Seq<char>) -> bool {
    match regex_matches(pattern, stdout) {
        Some(true) => true,
        Some(false) => regex_matches(pattern, stderr) == Some(true),
        None => contains_seq(stdout, pattern) || contains_seq(stderr, pattern),
    }
}

/// The (pattern, severity) pairs of the triggers that fire, in order.
pub open spec fn spec_run_triggers(
    stdout: Seq<char>,
    stderr: Seq<char>,
    triggers: Seq<OutputTrigger>,
) -> Seq<(Seq<char>, Seq<char>)>
    decreases triggers.len(),
{
    if triggers.len() == 0 {
        seq![]
    } else {
        let prev = spec_run_triggers(stdout, stderr, triggers.drop_last());
        let t = triggers.last();
        if spec_trigger_fires(stdout, stderr, t.pattern@) {
            prev.push((t.pattern@, t.severity@))
        } else {
            prev
        }
    }
}

/// The pairs as character sequences.
pub open spec fn pairs_view(p: Seq<(String, String)>) -> Seq<(Seq<char>, Seq<char>)> {
    p.map_values(|x: (String, String)| (x.0@, x.1@))
}

fn trigger_fires(stdout: &str, stderr: &str, pattern: &str) -> (r: bool)
    ensures
        r == spec_trigger_fires(stdout@, stderr@, pattern@),
{
    match pattern_matches(pattern, stdout) {
        Some(true) => true,
        Some(false) => match pattern_matches(pattern, stderr) {
            Some(b) => b,
            None => false,
        },
        None => {
            let p = chars_of(pattern);
            contains_chars(chars_of(stdout).as_slice(), p.as_slice()) || contains_chars(
                chars_of(stderr).as_slice(),
                p.as_slice(),
            )
        },
    }
}

/// Runs trigger patterns against stdout and stderr, returning the matched
/// (pattern, severity) pairs.
pub fn run_triggers(stdout: &str, stderr: &str, triggers: &[OutputTrigger]) -> (r: Vec<
    (String, String),
>)
    ensures
        pairs_view(r@) == spec_run_triggers(stdout@, stderr@, triggers@),
{
    let mut matches: Vec<(String, String)> = Vec::new();
    let mut i: usize = 0;
    while i < triggers.len()
        invariant
            i <= triggers@.len(),
            pairs_view(matches@) == spec_run_triggers(stdout@, stderr@, triggers@.take(i as int)),
        decreases triggers.len() - i,
    {
        let t = &triggers[i];
        assert(triggers@.take(i + 1).drop_last() =~= triggers@.take(i as int));
        assert(triggers@.take(i + 1).last() == triggers@[i as int]);
        if trigger_fires(stdout, stderr, t.pattern.as_str()) {
            let ghost before = matches@;
            matches.push((t.pattern.clone(), t.severity.clone()));
            assert(pairs_view(matches@) =~= pairs_view(before).push((t.pattern@, t.severity@)));
        }
        i = i + 1;
    }
    assert(triggers@.take(triggers@.len() as int) =~= triggers@);
    matches
}


/// A JSONPath rule whose path reaches a value that is neither a string nor
/// `null` extracts that value's compact JSON text: `true` gives `true`, a number
/// its digits, an array or object its JSON.
pub proof fn lemma_jsonpath_other_values_as_json(
    stdout: Seq<char>,
    rule: ExtractionRule,
    root: JsonView,
    reached: JsonView,
)
    requires
        rule.rule_type@ == "jsonpath"@,
        json_parse(trim_ws(stdout)) == Ok::<JsonView, Seq<char>>(root),
        walk(Some(root), split_on(strip_root(rule.pattern@), '.')) == Some(reached),
        !(reached is String),
        !(reached is Null),
    ensures
        spec_extract_value(stdout, rule) == Some(json_text(reached)),
        reached == JsonView::Bool(true) ==> spec_extract_value(stdout, rule) == Some(
            seq!['t', 'r', 'u', 'e'],
        ),
        reached == JsonView::Bool(false) ==> spec_extract_value(stdout, rule) == Some(
            seq!['f', 'a', 'l', 's', 'e'],
        ),
{
    reveal_strlit("regex");
    reveal_strlit("jsonpath");
    assert("jsonpath"@[0] != "regex"@[0]);
}


/// A JSONPath rule whose path reaches a string extracts the string's own text,
/// without quotes; one that reaches `null` extracts nothing.
pub proof fn lemma_jsonpath_strings_as_text(
    stdout: Seq<char>,
    rule: ExtractionRule,
    root: JsonView,
    reached: JsonView,
)
    requires
        rule.rule_type@ == "jsonpath"@,
        json_parse(trim_ws(stdout)) == Ok::<JsonView, Seq<char>>(root),
        walk(Some(root), split_on(strip_root(rule.pattern@), '.')) == Some(reached),
    ensures
        reached matches JsonView::String(s) ==> spec_extract_value(stdout, rule) == Some(s),
        reached is Null ==> spec_extract_value(stdout, rule) is None,
{
    reveal_strlit("regex");
    reveal_strlit("jsonpath");
    assert("jsonpath"@[0] != "regex"@[0]);
}
} // verus!
