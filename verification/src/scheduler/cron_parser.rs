//! Six-field cron expressions (`sec min hour dom month dow`) and the search for
//! the next instant that matches one.
use crate::datetime::{
    date_weekday_from_sunday, dt_lt, key_lt, spec_days_in_month, valid_date, valid_date_time,
    weekday_from_sunday, UtcDateTime, MAX_YEAR, MIN_YEAR,
};
use crate::error::{bad_request, AppError, ErrorKind};
use crate::text::{
    dec, find_char, first_index, parse_u32_chars, parse_u32_spec, push_chars, push_decimal,
    slice_chars, split_char, split_on, split_whitespace, split_ws, chars_of, chars_eq,
};
use vstd::prelude::*;

verus! {

// ---------------------------------------------------------------------------
// Model
// ---------------------------------------------------------------------------

/// The meaning of one cron field: every value, or a set of values.
pub enum FieldModel {
    All,
    Values(Set<u32>),
}

/// The meaning of a whole cron expression, field by field.
pub struct CronModel {
    pub seconds: FieldModel,
    pub minutes: FieldModel,
    pub hours: FieldModel,
    pub day_of_month: FieldModel,
    pub month: FieldModel,
    pub day_of_week: FieldModel,
}

/// The field admits value `v`.
pub open spec fn field_has(f: FieldModel, v: u32) -> bool {
    match f {
        FieldModel::All => true,
        FieldModel::Values(s) => s.contains(v),
    }
}

/// The instant `t` matches every field of `c`; the day-of-week field is
/// compared with the weekday of `t`'s date counted from Sunday.
pub open spec fn cron_matches(c: CronModel, t: UtcDateTime) -> bool {
    &&& field_has(c.seconds, t.second)
    &&& field_has(c.minutes, t.minute)
    &&& field_has(c.hours, t.hour)
    &&& field_has(c.day_of_month, t.day)
    &&& field_has(c.month, t.month)
    &&& field_has(
        c.day_of_week,
        weekday_from_sunday(t.year as int, t.month as int, t.day as int) as u32,
    )
}

/// What a search for the next run after `after` may report: the earliest
/// matching instant after it, or nothing when none lies within five years.
pub open spec fn is_next_fire(c: CronModel, after: UtcDateTime, r: Option<UtcDateTime>) -> bool {
    match r {
        Some(t) => {
            &&& t.wf()
            &&& dt_lt(after, t)
            &&& t.year <= after.year + 5
            &&& cron_matches(c, t)
            &&& forall|u: UtcDateTime|
                u.wf() && dt_lt(after, u) && dt_lt(u, t) ==> !#[trigger] cron_matches(c, u)
        },
        None => forall|u: UtcDateTime|
            u.wf() && dt_lt(after, u) && u.year <= after.year + 5 ==> !#[trigger] cron_matches(c, u),
    }
}

/// The next run after `after`: the earliest matching instant within five years.
pub open spec fn next_fire(c: CronModel, after: UtcDateTime) -> Option<UtcDateTime> {
    if exists|t: UtcDateTime| is_next_fire(c, after, Some(t)) {
        Some(choose|t: UtcDateTime| is_next_fire(c, after, Some(t)))
    } else {
        None
    }
}

/// There is one next run: whatever satisfies the description of the next run
/// after `after` is [`next_fire`] of it.
pub proof fn lemma_next_fire_unique(c: CronModel, after: UtcDateTime, r: Option<UtcDateTime>)
    requires
        is_next_fire(c, after, r),
    ensures
        r == next_fire(c, after),
{
    match r {
        Some(t) => {
            let t2 = choose|x: UtcDateTime| is_next_fire(c, after, Some(x));
            assert(is_next_fire(c, after, Some(t2)));
            if dt_lt(t, t2) {
                assert(!cron_matches(c, t));
            } else if dt_lt(t2, t) {
                assert(!cron_matches(c, t2));
            } else {
                assert(t.key() == t2.key());
                assert(t == t2);
            }
        },
        None => {
            if exists|t: UtcDateTime| is_next_fire(c, after, Some(t)) {
                let t = choose|x: UtcDateTime| is_next_fire(c, after, Some(x));
                assert(!cron_matches(c, t));
            }
        },
    }
}

/// The error view for a failed parse: always a bad request with `m` as message.
pub type ErrView = (ErrorKind, Seq<char>);

/// Message for a number that does not parse.
pub open spec fn invalid_msg(label: Seq<char>, s: Seq<char>) -> Seq<char> {
    "invalid "@ + label + ": "@ + s
}

/// Parses a number labelled `label` for error messages.
pub open spec fn spec_parse_num(s: Seq<char>, label: Seq<char>) -> Result<u32, ErrView> {
    match parse_u32_spec(s) {
        Some(v) => Ok(v),
        None => Err(bad_request(invalid_msg(label, s))),
    }
}

/// The values `start`, `start + step`, ... up to `end`.
pub open spec fn step_set(start: u32, end: u32, step: u32) -> Set<u32> {
    Set::new(|v: u32| start <= v <= end && (v - start) % (step as int) == 0)
}

/// The values `lo..=hi`.
pub open spec fn range_set(lo: u32, hi: u32) -> Set<u32> {
    Set::new(|v: u32| lo <= v <= hi)
}

/// Message for a range outside the field's bounds.
pub open spec fn range_msg(lo: u32, hi: u32, min: u32, max: u32) -> Seq<char> {
    "range "@ + dec(lo as nat) + "-"@ + dec(hi as nat) + " out of bounds ("@ + dec(min as nat)
        + "-"@ + dec(max as nat) + ")"@
}

/// Message for a single value outside the field's bounds.
pub open spec fn value_msg(v: u32, min: u32, max: u32) -> Seq<char> {
    "value "@ + dec(v as nat) + " out of bounds ("@ + dec(min as nat) + "-"@ + dec(max as nat)
        + ")"@
}

/// The start and end of a step field's base: `*` spans the field, `a-b` is a
/// range, and a lone `a` runs to the field's maximum.
pub open spec fn spec_step_bounds(base: Seq<char>, min: u32, max: u32) -> Result<
    (u32, u32),
    ErrView,
> {
    if base == "*"@ {
        Ok((min, max))
    } else {
        match first_index(base, '-') {
            Some(i) => match spec_parse_num(base.take(i), "range start"@) {
                Err(e) => Err(e),
                Ok(lo) => match spec_parse_num(base.skip(i + 1), "range end"@) {
                    Err(e) => Err(e),
                    Ok(hi) => Ok((lo, hi)),
                },
            },
            None => match spec_parse_num(base, "field"@) {
                Err(e) => Err(e),
                Ok(v) => Ok((v, max)),
            },
        }
    }
}

/// A step field `base/step`, where `slash` is the index of the first `/`.
pub open spec fn spec_step_field(field: Seq<char>, slash: int, min: u32, max: u32) -> Result<
    FieldModel,
    ErrView,
> {
    let step_str = field.skip(slash + 1);
    match parse_u32_spec(step_str) {
        None => Err(bad_request("invalid step value: "@ + step_str)),
        Some(step) => if step == 0 {
            Err(bad_request("step cannot be zero"@))
        } else {
            match spec_step_bounds(field.take(slash), min, max) {
                Err(e) => Err(e),
                Ok((start, end)) => Ok(FieldModel::Values(step_set(start, end, step))),
            }
        },
    }
}

/// One element of a list: a range `a-b` or a single value, checked against the bounds.
pub open spec fn spec_list_part(p: Seq<char>, min: u32, max: u32) -> Result<Set<u32>, ErrView> {
    match first_index(p, '-') {
        Some(i) => match spec_parse_num(p.take(i), "range start"@) {
            Err(e) => Err(e),
            Ok(lo) => match spec_parse_num(p.skip(i + 1), "range end"@) {
                Err(e) => Err(e),
                Ok(hi) => if lo > hi || lo < min || hi > max {
                    Err(bad_request(range_msg(lo, hi, min, max)))
                } else {
                    Ok(range_set(lo, hi))
                },
            },
        },
        None => match spec_parse_num(p, "value"@) {
            Err(e) => Err(e),
            Ok(v) => if v < min || v > max {
                Err(bad_request(value_msg(v, min, max)))
            } else {
                Ok(set![v])
            },
        },
    }
}

/// The union of the list elements, or the error of the first bad element.
pub open spec fn spec_list_parts(parts: Seq<Seq<char>>, min: u32, max: u32) -> Result<
    Set<u32>,
    ErrView,
>
    decreases parts.len(),
{
    if parts.len() == 0 {
        Ok(Set::empty())
    } else {
        match spec_list_parts(parts.drop_last(), min, max) {
            Err(e) => Err(e),
            Ok(s) => match spec_list_part(parts.last(), min, max) {
                Err(e) => Err(e),
                Ok(t) => Ok(s.union(t)),
            },
        }
    }
}

/// The meaning of one field's text, with its bounds `min..=max`.
pub open spec fn spec_parse_field(field: Seq<char>, min: u32, max: u32) -> Result<
    FieldModel,
    ErrView,
> {
    if field == "*"@ {
        Ok(FieldModel::All)
    } else {
        match first_index(field, '/') {
            Some(slash) => spec_step_field(field, slash, min, max),
            None => match spec_list_parts(split_on(field, ','), min, max) {
                Err(e) => Err(e),
                Ok(s) => Ok(FieldModel::Values(s)),
            },
        }
    }
}

/// Message for a wrong number of fields.
pub open spec fn field_count_msg(n: nat) -> Seq<char> {
    "cron expression must have 6 fields (sec min hour dom month dow), got "@ + dec(n)
}

/// The meaning of a whole expression: six whitespace-separated fields, parsed
/// left to right, the first failure being reported.
pub open spec fn spec_cron_parse(expr: Seq<char>) -> Result<CronModel, ErrView> {
    let f = split_ws(expr);
    if f.len() != 6 {
        Err(bad_request(field_count_msg(f.len())))
    } else {
        match spec_parse_field(f[0], 0, 59) {
            Err(e) => Err(e),
            Ok(seconds) => match spec_parse_field(f[1], 0, 59) {
                Err(e) => Err(e),
                Ok(minutes) => match spec_parse_field(f[2], 0, 23) {
                    Err(e) => Err(e),
                    Ok(hours) => match spec_parse_field(f[3], 1, 31) {
                        Err(e) => Err(e),
                        Ok(day_of_month) => match spec_parse_field(f[4], 1, 12) {
                            Err(e) => Err(e),
                            Ok(month) => match spec_parse_field(f[5], 0, 6) {
                                Err(e) => Err(e),
                                Ok(day_of_week) => Ok(
                                    CronModel {
                                        seconds,
                                        minutes,
                                        hours,
                                        day_of_month,
                                        month,
                                        day_of_week,
                                    },
                                ),
                            },
                        },
                    },
                },
            },
        }
    }
}

/// The values of `s` rise strictly.
pub open spec fn strictly_sorted(s: Seq<u32>) -> bool {
    forall|i: int, j: int| 0 <= i < j < s.len() ==> s[i] < s[j]
}

// ---------------------------------------------------------------------------
// Executable types
// ---------------------------------------------------------------------------

/// A single cron field: either all values (`*`) or a specific set.
#[derive(Debug)]
pub enum FieldSpec {
    All,
    Values(Vec<u32>),
}

impl View for FieldSpec {
    type V = FieldModel;

    open spec fn view(&self) -> FieldModel {
        match self {
            FieldSpec::All => FieldModel::All,
            FieldSpec::Values(v) => FieldModel::Values(v@.to_set()),
        }
    }
}

impl FieldSpec {
    /// Values are kept in strictly rising order.
    pub open spec fn wf(&self) -> bool {
        match self {
            FieldSpec::All => true,
            FieldSpec::Values(v) => strictly_sorted(v@),
        }
    }
}

impl Clone for FieldSpec {
    fn clone(&self) -> (r: Self)
        ensures
            r@ == self@,
            r.wf() == self.wf(),
    {
        match self {
            FieldSpec::All => FieldSpec::All,
            FieldSpec::Values(v) => {
                let mut w: Vec<u32> = Vec::new();
                let mut i: usize = 0;
                while i < v.len()
                    invariant
                        i <= v.len(),
                        w@ == v@.take(i as int),
                    decreases v.len() - i,
                {
                    w.push(v[i]);
                    assert(w@ =~= v@.take(i + 1));
                    i = i + 1;
                }
                assert(w@ =~= v@);
                FieldSpec::Values(w)
            },
        }
    }
}

/// Message for a number that does not parse, built at run time.
fn invalid_number(s: &[char], label: &str) -> (e: AppError)
    ensures
        e@ == bad_request(invalid_msg(label@, s@)),
{
    let mut m = String::new();
    m.append("invalid ");
    m.append(label);
    m.append(": ");
    push_chars(&mut m, s);
    AppError::BadRequest(m)
}

/// Parses a string as u32 with a descriptive error label.
fn parse_u32(s: &[char], label: &str) -> (r: Result<u32, AppError>)
    ensures
        match r {
            Ok(v) => spec_parse_num(s@, label@) == Ok::<u32, ErrView>(v),
            Err(e) => spec_parse_num(s@, label@) == Err::<u32, ErrView>(e@),
        },
{
    match parse_u32_chars(s) {
        Some(v) => Ok(v),
        None => Err(invalid_number(s, label)),
    }
}

/// Appends `v` to the rising `vals` unless it is already there.
fn insert_sorted(vals: &mut Vec<u32>, x: u32)
    requires
        strictly_sorted(old(vals)@),
    ensures
        strictly_sorted(final(vals)@),
        final(vals)@.to_set() == old(vals)@.to_set().insert(x),
{
    let mut j: usize = 0;
    while j < vals.len() && vals[j] < x
        invariant
            j <= vals.len(),
            strictly_sorted(vals@),
            forall|k: int| 0 <= k < j ==> vals@[k] < x,
        decreases vals.len() - j,
    {
        j = j + 1;
    }
    if j < vals.len() && vals[j] == x {
        assert(vals@.to_set() =~= vals@.to_set().insert(x)) by {
            assert(vals@.contains(x));
        }
        return;
    }
    let ghost before = vals@;
    vals.insert(j, x);
    assert(vals@ == before.insert(j as int, x));
    assert forall|a: int, b: int| 0 <= a < b < vals@.len() implies vals@[a] < vals@[b] by {
        if b < j {
        } else if a < j && b == j {
        } else if a < j && b > j {
            assert(vals@[b] == before[b - 1]);
            assert(before[b - 1] >= x || before[b - 1] > x);
        } else if a == j {
            assert(vals@[b] == before[b - 1]);
            assert(before[j as int] > x);
            if b - 1 > j {
                assert(before[j as int] < before[b - 1]);
            }
        } else {
            assert(vals@[a] == before[a - 1]);
            assert(vals@[b] == before[b - 1]);
        }
    }
    assert(vals@.to_set() =~= before.to_set().insert(x)) by {
        assert forall|w: u32| vals@.to_set().contains(w) implies before.to_set().insert(x).contains(w) by {
            let k = choose|k: int| 0 <= k < vals@.len() && vals@[k] == w;
            if k < j {
                assert(before[k] == w);
            } else if k > j {
                assert(before[k - 1] == w);
            }
        }
        assert forall|w: u32| before.to_set().insert(x).contains(w) implies vals@.to_set().contains(w) by {
            if w == x {
                assert(vals@[j as int] == x);
            } else {
                let k = choose|k: int| 0 <= k < before.len() && before[k] == w;
                if k < j {
                    assert(vals@[k] == w);
                } else {
                    assert(vals@[k + 1] == w);
                }
            }
        }
    }
}

/// `w` lies on the grid `start + k * step`.
spec fn on_grid(w: u32, start: u32, step: int) -> bool {
    (w - start) % step == 0
}

/// Values that differ by less than `step` cannot both lie on the same step grid.
proof fn lemma_step_gap(start: int, v: int, w: int, step: int)
    requires
        step > 0,
        start <= v < w,
        (v - start) % step == 0,
        (w - start) % step == 0,
    ensures
        w >= v + step,
{
    let a = (v - start) / step;
    let b = (w - start) / step;
    vstd::arithmetic::div_mod::lemma_fundamental_div_mod(v - start, step);
    vstd::arithmetic::div_mod::lemma_fundamental_div_mod(w - start, step);
    assert(w - v == step * (b - a)) by (nonlinear_arith)
        requires
            v - start == step * a,
            w - start == step * b,
    ;
    assert(b - a >= 1) by (nonlinear_arith)
        requires
            w - v == step * (b - a),
            w - v > 0,
            step > 0,
    ;
    assert(step * (b - a) >= step) by (nonlinear_arith)
        requires
            b - a >= 1,
            step > 0,
    ;
}

/// Parses a step field like `*/N`, `M-N/S` or `M/S`.
fn parse_step_field(field: &[char], slash_pos: usize, min: u32, max: u32) -> (r: Result<
    FieldSpec,
    AppError,
>)
    requires
        slash_pos < field@.len(),
    ensures
        match r {
            Ok(f) => f.wf() && spec_step_field(field@, slash_pos as int, min, max) == Ok::<
                FieldModel,
                ErrView,
            >(f@),
            Err(e) => spec_step_field(field@, slash_pos as int, min, max) == Err::<
                FieldModel,
                ErrView,
            >(e@),
        },
{
    let n = field.len();
    let base = slice_chars(field, 0, slash_pos);
    let step_str = slice_chars(field, slash_pos + 1, n);
    assert(base@ =~= field@.take(slash_pos as int));
    assert(step_str@ =~= field@.skip(slash_pos + 1));
    let step = match parse_u32_chars(step_str.as_slice()) {
        Some(s) => s,
        None => {
            let mut m = String::new();
            m.append("invalid step value: ");
            push_chars(&mut m, step_str.as_slice());
            return Err(AppError::BadRequest(m));
        },
    };
    if step == 0 {
        return Err(AppError::BadRequest("step cannot be zero".to_string()));
    }
    let star = chars_of("*");
    let (start, end) = if chars_eq(base.as_slice(), star.as_slice()) {
        (min, max)
    } else {
        match find_char(base.as_slice(), '-') {
            Some(i) => {
                let lo_s = slice_chars(base.as_slice(), 0, i);
                let hi_s = slice_chars(base.as_slice(), i + 1, base.len());
                assert(lo_s@ =~= base@.take(i as int));
                assert(hi_s@ =~= base@.skip(i + 1));
                let lo = match parse_u32(lo_s.as_slice(), "range start") {
                    Ok(v) => v,
                    Err(e) => return Err(e),
                };
                let hi = match parse_u32(hi_s.as_slice(), "range end") {
                    Ok(v) => v,
                    Err(e) => return Err(e),
                };
                (lo, hi)
            },
            None => {
                let v = match parse_u32(base.as_slice(), "field") {
                    Ok(v) => v,
                    Err(e) => return Err(e),
                };
                (v, max)
            },
        }
    };
    assert(spec_step_bounds(field@.take(slash_pos as int), min, max) == Ok::<(u32, u32), ErrView>(
        (start, end),
    ));
    let mut vals: Vec<u32> = Vec::new();
    let mut v: u32 = start;
    let ghost sstep = step as int;
    let ghost result = FieldModel::Values(step_set(start, end, step));
    assert(spec_step_field(field@, slash_pos as int, min, max) == Ok::<FieldModel, ErrView>(result));
    while v <= end
        invariant
            spec_step_field(field@, slash_pos as int, min, max) == Ok::<FieldModel, ErrView>(result),
            result == FieldModel::Values(step_set(start, end, step)),
            step > 0,
            sstep == step as int,
            start <= v,
            (v - start) % sstep == 0,
            strictly_sorted(vals@),
            forall|k: int| 0 <= k < vals@.len() ==> vals@[k] < v,
            forall|w: u32|
                vals@.contains(w) <==> (start <= w && w < v && w <= end && on_grid(w, start, sstep)),
        decreases 0x1_0000_0000 - v as int,
    {
        let ghost old_vals = vals@;
        vals.push(v);
        assert(strictly_sorted(vals@)) by {
            assert forall|a: int, b: int| 0 <= a < b < vals@.len() implies vals@[a] < vals@[b] by {
                if b < vals@.len() - 1 {
                    assert(vals@[a] == old_vals[a]);
                    assert(vals@[b] == old_vals[b]);
                } else {
                    assert(vals@[a] == old_vals[a]);
                }
            }
        }
        assert forall|w: u32|
            vals@.contains(w) <==> (start <= w && w <= v && w <= end && on_grid(w, start, sstep)) by {
            if vals@.contains(w) && w != v {
                let k = choose|k: int| 0 <= k < vals@.len() && vals@[k] == w;
                assert(old_vals[k] == w);
                assert(old_vals.contains(w));
            }
            if start <= w && w < v && w <= end && on_grid(w, start, sstep) {
                assert(old_vals.contains(w));
                let k = choose|k: int| 0 <= k < old_vals.len() && old_vals[k] == w;
                assert(vals@[k] == w);
            }
            if w == v {
                assert(vals@[vals@.len() - 1] == v);
            }
        }
        match v.checked_add(step) {
            Some(n) => {
                assert forall|w: u32| v < w < n implies !#[trigger] on_grid(w, start, sstep) by {
                    if on_grid(w, start, sstep) {
                        lemma_step_gap(start as int, v as int, w as int, sstep);
                    }
                }
                assert((n - start) % sstep == 0) by {
                    vstd::arithmetic::div_mod::lemma_mod_add_multiples_vanish(
                        (v - start) as int,
                        sstep,
                    );
                }
                v = n;
            },
            None => {
                assert forall|w: u32|
                    vals@.contains(w) <==> (start <= w && w <= end && on_grid(w, start, sstep)) by {
                    if start <= w && w <= end && on_grid(w, start, sstep) && w > v {
                        lemma_step_gap(start as int, v as int, w as int, sstep);
                    }
                }
                assert(vals@.to_set() =~= step_set(start, end, step));
                return Ok(FieldSpec::Values(vals));
            },
        }
    }
    assert(vals@.to_set() =~= step_set(start, end, step));
    Ok(FieldSpec::Values(vals))
}

/// Message for a range outside the field's bounds, built at run time.
fn range_error(lo: u32, hi: u32, min: u32, max: u32) -> (e: AppError)
    ensures
        e@ == bad_request(range_msg(lo, hi, min, max)),
{
    let mut m = String::new();
    m.append("range ");
    push_decimal(&mut m, lo as u64);
    m.append("-");
    push_decimal(&mut m, hi as u64);
    m.append(" out of bounds (");
    push_decimal(&mut m, min as u64);
    m.append("-");
    push_decimal(&mut m, max as u64);
    m.append(")");
    AppError::BadRequest(m)
}

/// Message for a single value outside the field's bounds, built at run time.
fn value_error(v: u32, min: u32, max: u32) -> (e: AppError)
    ensures
        e@ == bad_request(value_msg(v, min, max)),
{
    let mut m = String::new();
    m.append("value ");
    push_decimal(&mut m, v as u64);
    m.append(" out of bounds (");
    push_decimal(&mut m, min as u64);
    m.append("-");
    push_decimal(&mut m, max as u64);
    m.append(")");
    AppError::BadRequest(m)
}

/// Adds the values of one list element (`a-b` or `a`) to the rising `vals`.
fn add_list_part(p: &[char], min: u32, max: u32, vals: &mut Vec<u32>) -> (r: Result<(), AppError>)
    requires
        strictly_sorted(old(vals)@),
    ensures
        strictly_sorted(final(vals)@),
        match spec_list_part(p@, min, max) {
            Ok(t) => r is Ok && final(vals)@.to_set() == old(vals)@.to_set().union(t),
            Err(e) => r matches Err(x) && x@ == e,
        },
{
    match find_char(p, '-') {
        Some(i) => {
            let n = p.len();
            let lo_s = slice_chars(p, 0, i);
            let hi_s = slice_chars(p, i + 1, n);
            assert(lo_s@ =~= p@.take(i as int));
            assert(hi_s@ =~= p@.skip(i + 1));
            let lo = match parse_u32(lo_s.as_slice(), "range start") {
                Ok(v) => v,
                Err(e) => return Err(e),
            };
            let hi = match parse_u32(hi_s.as_slice(), "range end") {
                Ok(v) => v,
                Err(e) => return Err(e),
            };
            if lo > hi || lo < min || hi > max {
                return Err(range_error(lo, hi, min, max));
            }
            let ghost start_set = vals@.to_set();
            let mut v: u64 = lo as u64;
            while v <= hi as u64
                invariant
                    lo <= v <= hi as u64 + 1,
                    strictly_sorted(vals@),
                    vals@.to_set() == start_set.union(Set::new(|w: u32| lo <= w && (w as u64) < v)),
                decreases hi as u64 + 1 - v,
            {
                let ghost prev = vals@.to_set();
                insert_sorted(vals, v as u32);
                assert(vals@.to_set() =~= start_set.union(
                    Set::new(|w: u32| lo <= w && (w as u64) < v + 1),
                ));
                v = v + 1;
            }
            assert(vals@.to_set() =~= start_set.union(range_set(lo, hi)));
            Ok(())
        },
        None => {
            let v = match parse_u32(p, "value") {
                Ok(v) => v,
                Err(e) => return Err(e),
            };
            if v < min || v > max {
                return Err(value_error(v, min, max));
            }
            let ghost start_set = vals@.to_set();
            insert_sorted(vals, v);
            assert(vals@.to_set() =~= start_set.union(set![v]));
            Ok(())
        },
    }
}

/// Parses a comma-separated list of values and/or ranges like `1,3,5` or `1-5,10`.
fn parse_range_or_list(field: &[char], min: u32, max: u32) -> (r: Result<FieldSpec, AppError>)
    ensures
        match spec_list_parts(split_on(field@, ','), min, max) {
            Ok(s) => r matches Ok(f) && f.wf() && f@ == FieldModel::Values(s),
            Err(e) => r matches Err(x) && x@ == e,
        },
{
    let parts = split_char(field, ',');
    let ghost ps = split_on(field@, ',');
    let mut vals: Vec<u32> = Vec::new();
    let mut i: usize = 0;
    assert(ps.take(0) =~= Seq::<Seq<char>>::empty());
    assert(vals@.to_set() =~= Set::<u32>::empty());
    while i < parts.len()
        invariant
            i <= parts@.len(),
            ps == split_on(field@, ','),
            parts@.len() == ps.len(),
            forall|k: int| 0 <= k < parts@.len() ==> #[trigger] parts@[k]@ == ps[k],
            strictly_sorted(vals@),
            spec_list_parts(ps.take(i as int), min, max) == Ok::<Set<u32>, ErrView>(vals@.to_set()),
        decreases parts@.len() - i,
    {
        assert(ps.take(i + 1).drop_last() =~= ps.take(i as int));
        assert(ps.take(i + 1).last() == parts@[i as int]@);
        match add_list_part(parts[i].as_slice(), min, max, &mut vals) {
            Ok(()) => {},
            Err(e) => {
                proof {
                    lemma_list_parts_err_prefix(ps, i as int + 1, min, max);
                }
                return Err(e);
            },
        }
        i = i + 1;
    }
    assert(ps.take(parts@.len() as int) =~= ps);
    Ok(FieldSpec::Values(vals))
}

/// An error in a prefix of the list is the error of the whole list.
proof fn lemma_list_parts_err_prefix(ps: Seq<Seq<char>>, n: int, min: u32, max: u32)
    requires
        0 <= n <= ps.len(),
        spec_list_parts(ps.take(n), min, max) is Err,
    ensures
        spec_list_parts(ps, min, max) == spec_list_parts(ps.take(n), min, max),
    decreases ps.len() - n,
{
    if n < ps.len() {
        assert(ps.take(n + 1).drop_last() =~= ps.take(n));
        lemma_list_parts_err_prefix(ps, n + 1, min, max);
    } else {
        assert(ps.take(n) =~= ps);
    }
}

/// Parses a single cron field string into a `FieldSpec`, handling `*`, ranges, steps, and lists.
fn parse_field(field: &[char], min: u32, max: u32) -> (r: Result<FieldSpec, AppError>)
    ensures
        match spec_parse_field(field@, min, max) {
            Ok(m) => r matches Ok(f) && f.wf() && f@ == m,
            Err(e) => r matches Err(x) && x@ == e,
        },
{
    let star = chars_of("*");
    if chars_eq(field, star.as_slice()) {
        return Ok(FieldSpec::All);
    }
    match find_char(field, '/') {
        Some(pos) => parse_step_field(field, pos, min, max),
        None => parse_range_or_list(field, min, max),
    }
}

/// A parsed 6-field cron expression (sec min hour dom month dow) that can compute next fire times.
#[derive(Debug)]
pub struct CronSchedule {
    seconds: FieldSpec,
    minutes: FieldSpec,
    hours: FieldSpec,
    day_of_month: FieldSpec,
    month: FieldSpec,
    day_of_week: FieldSpec,
}

impl View for CronSchedule {
    type V = CronModel;

    closed spec fn view(&self) -> CronModel {
        CronModel {
            seconds: self.seconds@,
            minutes: self.minutes@,
            hours: self.hours@,
            day_of_month: self.day_of_month@,
            month: self.month@,
            day_of_week: self.day_of_week@,
        }
    }
}

impl Clone for CronSchedule {
    fn clone(&self) -> (r: Self)
        ensures
            r@ == self@,
    {
        proof {
            use_type_invariant(self);
        }
        CronSchedule {
            seconds: self.seconds.clone(),
            minutes: self.minutes.clone(),
            hours: self.hours.clone(),
            day_of_month: self.day_of_month.clone(),
            month: self.month.clone(),
            day_of_week: self.day_of_week.clone(),
        }
    }
}

impl CronSchedule {
    /// Every field keeps its values in rising order.
    #[verifier::type_invariant]
    spec fn fields_sorted(self) -> bool {
        &&& self.seconds.wf()
        &&& self.minutes.wf()
        &&& self.hours.wf()
        &&& self.day_of_month.wf()
        &&& self.month.wf()
        &&& self.day_of_week.wf()
    }

    /// Parse a 6-field cron expression: "sec min hour dom month dow".
    pub fn parse(expr: &str) -> (r: Result<Self, AppError>)
        ensures
            match spec_cron_parse(expr@) {
                Ok(m) => r matches Ok(c) && c@ == m,
                Err(e) => r matches Err(x) && x@ == e,
            },
    {
        let chars = chars_of(expr);
        let fields = split_whitespace(chars.as_slice());
        if fields.len() != 6 {
            let mut m = String::new();
            m.append("cron expression must have 6 fields (sec min hour dom month dow), got ");
            push_decimal(&mut m, fields.len() as u64);
            return Err(AppError::BadRequest(m));
        }
        let seconds = match parse_field(fields[0].as_slice(), 0, 59) {
            Ok(f) => f,
            Err(e) => return Err(e),
        };
        let minutes = match parse_field(fields[1].as_slice(), 0, 59) {
            Ok(f) => f,
            Err(e) => return Err(e),
        };
        let hours = match parse_field(fields[2].as_slice(), 0, 23) {
            Ok(f) => f,
            Err(e) => return Err(e),
        };
        let day_of_month = match parse_field(fields[3].as_slice(), 1, 31) {
            Ok(f) => f,
            Err(e) => return Err(e),
        };
        let month = match parse_field(fields[4].as_slice(), 1, 12) {
            Ok(f) => f,
            Err(e) => return Err(e),
        };
        let day_of_week = match parse_field(fields[5].as_slice(), 0, 6) {
            Ok(f) => f,
            Err(e) => return Err(e),
        };
        Ok(CronSchedule { seconds, minutes, hours, day_of_month, month, day_of_week })
    }
}

// ---------------------------------------------------------------------------
// Searching for the next match
// ---------------------------------------------------------------------------

/// Six calendar fields in significance order.
pub type Key = (int, int, int, int, int, int);

/// `r` is the least value at or above `from` (and `min`), at most `max`, that the field admits.
pub open spec fn is_next(f: FieldModel, from: u32, min: u32, max: u32, r: Option<u32>) -> bool {
    match r {
        Some(v) => {
            &&& from <= v && min <= v && v <= max
            &&& field_has(f, v)
            &&& forall|w: u32| #[trigger]
                field_has(f, w) && from <= w && min <= w && w <= max ==> v <= w
        },
        None => forall|w: u32| #[trigger] field_has(f, w) ==> !(from <= w && min <= w && w <= max),
    }
}

/// No instant after `after` and before the key `k` matches `m`.
pub open spec fn none_in(m: CronModel, after: UtcDateTime, k: Key) -> bool {
    forall|u: UtcDateTime| #[trigger]
        cron_matches(m, u) ==> !(u.wf() && key_lt(after.key(), u.key()) && key_lt(u.key(), k))
}

impl FieldSpec {
    /// Whether the field admits `value`.
    fn matches(&self, value: u32) -> (r: bool)
        ensures
            r == field_has(self@, value),
    {
        match self {
            FieldSpec::All => true,
            FieldSpec::Values(vals) => {
                let mut i: usize = 0;
                while i < vals.len()
                    invariant
                        i <= vals.len(),
                        self@ == FieldModel::Values(vals@.to_set()),
                        forall|k: int| 0 <= k < i ==> vals@[k] != value,
                    decreases vals.len() - i,
                {
                    if vals[i] == value {
                        assert(vals@.to_set().contains(value));
                        return true;
                    }
                    i = i + 1;
                }
                assert(!vals@.to_set().contains(value));
                false
            },
        }
    }

    /// The first admitted value at or after `from` within `min..=max`: for a
    /// value list, its least member that is at least `from` and `min` and at most
    /// `max`; for `*`, `from` itself while it is at most `max`.
    fn next_match(&self, from: u32, min: u32, max: u32) -> (r: Option<u32>)
        requires
            self.wf(),
        ensures
            self is All ==> r == (if from <= max {
                Some(from)
            } else {
                None
            }),
            self is Values ==> is_next(self@, from, min, max, r),
            min <= from ==> is_next(self@, from, min, max, r),
    {
        match self {
            FieldSpec::All => {
                if from <= max {
                    Some(from)
                } else {
                    None
                }
            },
            FieldSpec::Values(vals) => {
                let mut i: usize = 0;
                while i < vals.len()
                    invariant
                        i <= vals.len(),
                        strictly_sorted(vals@),
                        self@ == FieldModel::Values(vals@.to_set()),
                        !(self is All),
                        forall|k: int|
                            0 <= k < i ==> !(vals@[k] >= from && vals@[k] >= min && vals@[k]
                                <= max),
                    decreases vals.len() - i,
                {
                    let v = vals[i];
                    if v >= from && v >= min && v <= max {
                        assert(vals@.to_set().contains(v));
                        assert forall|w: u32| #[trigger]
                            field_has(self@, w) && from <= w && min <= w && w <= max implies v
                            <= w by {
                            let k = choose|k: int| 0 <= k < vals@.len() && vals@[k] == w;
                            if k < i {
                            } else if k > i {
                            }
                        }
                        return Some(v);
                    }
                    i = i + 1;
                }
                assert forall|w: u32| #[trigger] field_has(self@, w) implies !(from <= w && min <= w
                    && w <= max) by {
                    if field_has(self@, w) {
                        let k = choose|k: int| 0 <= k < vals@.len() && vals@[k] == w;
                    }
                }
                None
            },
        }
    }
}

/// Number of days in `month` of `year` (30 for a month outside 1..=12).
#[verifier::spinoff_prover]
fn days_in_month(year: i32, month: u32) -> (d: u32)
    ensures
        d as int == spec_days_in_month(year as int, month as int),
{
    match month {
        1 => 31,
        2 => {
            if (year % 4 == 0 && year % 100 != 0) || year % 400 == 0 {
                29
            } else {
                28
            }
        },
        3 => 31,
        4 => 30,
        5 => 31,
        6 => 30,
        7 => 31,
        8 => 31,
        9 => 30,
        10 => 31,
        11 => 30,
        12 => 31,
        _ => 30,
    }
}

/// Mutable cursor tracking the current position while searching for a cron match.
struct CronCursor {
    year: i32,
    month: u32,
    day: u32,
    hour: u32,
    minute: u32,
    second: u32,
}

/// The cursor's fields in significance order.
spec fn ckey(c: CronCursor) -> Key {
    (c.year as int, c.month as int, c.day as int, c.hour as int, c.minute as int, c.second as int)
}

/// Bounds the cursor keeps between steps (the day may run one past the month's end).
spec fn cursor_ok(c: CronCursor) -> bool {
    &&& MIN_YEAR <= c.year <= MAX_YEAR + 6
    &&& 1 <= c.month <= 12
    &&& 1 <= c.day <= 32
    &&& c.hour <= 23
    &&& c.minute <= 59
    &&& c.second <= 60
}

impl CronCursor {
    /// The position one second after `after`, carried into minute, hour and day;
    /// the day may end up one past the end of the month.
    fn from_after(after: &UtcDateTime) -> (c: Self)
        requires
            after.wf(),
        ensures
            cursor_ok(c),
            key_lt(after.key(), ckey(c)),
            forall|u: UtcDateTime| #[trigger]
                u.wf() ==> !(key_lt(after.key(), u.key()) && key_lt(u.key(), ckey(c))),
            c.year == after.year,
    {
        let mut c = CronCursor {
            year: after.year,
            month: after.month,
            day: after.day,
            hour: after.hour,
            minute: after.minute,
            second: after.second + 1,
        };
        if c.second >= 60 {
            c.second = 0;
            c.minute = c.minute + 1;
        }
        if c.minute >= 60 {
            c.minute = 0;
            c.hour = c.hour + 1;
        }
        if c.hour >= 24 {
            c.hour = 0;
            c.day = c.day + 1;
        }
        c
    }

    fn reset_to_day(&mut self)
        ensures
            *final(self) == (CronCursor { hour: 0, minute: 0, second: 0, ..*old(self) }),
    {
        self.hour = 0;
        self.minute = 0;
        self.second = 0;
    }

    fn reset_to_hour(&mut self)
        ensures
            *final(self) == (CronCursor { minute: 0, second: 0, ..*old(self) }),
    {
        self.minute = 0;
        self.second = 0;
    }

    fn reset_to_minute(&mut self)
        ensures
            *final(self) == (CronCursor { second: 0, ..*old(self) }),
    {
        self.second = 0;
    }

    /// Moves to the first instant of the next month.
    fn advance_month(&mut self)
        requires
            old(self).month <= 12,
            old(self).year < i32::MAX,
        ensures
            *final(self) == (if old(self).month + 1 > 12 {
                CronCursor {
                    year: (old(self).year + 1) as i32,
                    month: 1,
                    day: 1,
                    hour: 0,
                    minute: 0,
                    second: 0,
                }
            } else {
                CronCursor {
                    year: old(self).year,
                    month: (old(self).month + 1) as u32,
                    day: 1,
                    hour: 0,
                    minute: 0,
                    second: 0,
                }
            }),
    {
        self.month = self.month + 1;
        self.day = 1;
        self.reset_to_day();
        if self.month > 12 {
            self.month = 1;
            self.year = self.year + 1;
        }
    }

    /// Moves to the first instant of the next day of a month with `days_in_month` days.
    fn advance_day(&mut self, days_in_month: u32)
        requires
            old(self).day < u32::MAX,
            old(self).month <= 12,
            old(self).year < i32::MAX,
        ensures
            *final(self) == (if old(self).day + 1 > days_in_month {
                if old(self).month + 1 > 12 {
                    CronCursor {
                        year: (old(self).year + 1) as i32,
                        month: 1,
                        day: 1,
                        hour: 0,
                        minute: 0,
                        second: 0,
                    }
                } else {
                    CronCursor {
                        year: old(self).year,
                        month: (old(self).month + 1) as u32,
                        day: 1,
                        hour: 0,
                        minute: 0,
                        second: 0,
                    }
                }
            } else {
                CronCursor { day: (old(self).day + 1) as u32, hour: 0, minute: 0, second: 0, ..*old(self) }
            }),
    {
        self.day = self.day + 1;
        self.reset_to_day();
        if self.day > days_in_month {
            self.advance_month();
        }
    }

    /// Moves to the first instant of the next hour.
    fn advance_hour(&mut self, days_in_month: u32)
        requires
            old(self).hour < 24,
            old(self).day < u32::MAX,
            old(self).month <= 12,
            old(self).year < i32::MAX,
        ensures
            old(self).hour + 1 < 24 ==> *final(self) == (CronCursor {
                hour: (old(self).hour + 1) as u32,
                minute: 0,
                second: 0,
                ..*old(self)
            }),
            old(self).hour + 1 >= 24 ==> *final(self) == (if old(self).day + 1 > days_in_month {
                if old(self).month + 1 > 12 {
                    CronCursor {
                        year: (old(self).year + 1) as i32,
                        month: 1,
                        day: 1,
                        hour: 0,
                        minute: 0,
                        second: 0,
                    }
                } else {
                    CronCursor {
                        year: old(self).year,
                        month: (old(self).month + 1) as u32,
                        day: 1,
                        hour: 0,
                        minute: 0,
                        second: 0,
                    }
                }
            } else {
                CronCursor { day: (old(self).day + 1) as u32, hour: 0, minute: 0, second: 0, ..*old(self) }
            }),
    {
        self.hour = self.hour + 1;
        self.reset_to_hour();
        if self.hour >= 24 {
            self.hour = 0;
            self.advance_day(days_in_month);
        }
    }

    /// Moves to the first instant of the next minute.
    fn advance_minute(&mut self, days_in_month: u32)
        requires
            old(self).minute < 60,
            old(self).hour < 24,
            old(self).day < u32::MAX,
            old(self).month <= 12,
            old(self).year < i32::MAX,
        ensures
            old(self).minute + 1 < 60 ==> *final(self) == (CronCursor {
                minute: (old(self).minute + 1) as u32,
                second: 0,
                ..*old(self)
            }),
            old(self).minute + 1 >= 60 && old(self).hour + 1 < 24 ==> *final(self) == (CronCursor {
                hour: (old(self).hour + 1) as u32,
                minute: 0,
                second: 0,
                ..*old(self)
            }),
            old(self).minute + 1 >= 60 && old(self).hour + 1 >= 24 ==> *final(self) == (if old(
                self,
            ).day + 1 > days_in_month {
                if old(self).month + 1 > 12 {
                    CronCursor {
                        year: (old(self).year + 1) as i32,
                        month: 1,
                        day: 1,
                        hour: 0,
                        minute: 0,
                        second: 0,
                    }
                } else {
                    CronCursor {
                        year: old(self).year,
                        month: (old(self).month + 1) as u32,
                        day: 1,
                        hour: 0,
                        minute: 0,
                        second: 0,
                    }
                }
            } else {
                CronCursor { day: (old(self).day + 1) as u32, hour: 0, minute: 0, second: 0, ..*old(self) }
            }),
    {
        self.minute = self.minute + 1;
        self.reset_to_minute();
        if self.minute >= 60 {
            self.minute = 0;
            self.advance_hour(days_in_month);
        }
    }

    /// The instant at the cursor's date and the given time, if it exists.
    fn to_datetime(&self, hour: u32, minute: u32, second: u32) -> (r: Option<UtcDateTime>)
        ensures
            r == (if valid_date_time(
                self.year as int,
                self.month as int,
                self.day as int,
                hour as int,
                minute as int,
                second as int,
            ) {
                Some(
                    UtcDateTime {
                        year: self.year,
                        month: self.month,
                        day: self.day,
                        hour,
                        minute,
                        second,
                    },
                )
            } else {
                None
            }),
    {
        UtcDateTime::from_ymd_hms(self.year, self.month, self.day, hour, minute, second)
    }
}

/// Widening the match-free window from `k1` to `k2` keeps it match-free when no
/// instant between the two keys matches.
proof fn lemma_extend(m: CronModel, after: UtcDateTime, k1: Key, k2: Key)
    requires
        none_in(m, after, k1),
        key_lt(after.key(), k1),
        key_lt(k1, k2),
        forall|u: UtcDateTime| #[trigger]
            cron_matches(m, u) ==> !(u.wf() && !key_lt(u.key(), k1) && key_lt(u.key(), k2)),
    ensures
        none_in(m, after, k2),
        key_lt(after.key(), k2),
{
}

impl CronSchedule {
    /// Advances the cursor to the next date (year/month/day) that matches the cron fields.
    /// Returns false if no match is possible within the year limit.
    fn advance_to_matching_date(
        &self,
        c: &mut CronCursor,
        max_year: i32,
        Ghost(after): Ghost<UtcDateTime>,
    ) -> (found: bool)
        requires
            cursor_ok(*old(c)),
            old(c).year <= max_year + 1,
            max_year <= MAX_YEAR + 5,
            none_in(self@, after, ckey(*old(c))),
            key_lt(after.key(), ckey(*old(c))),
        ensures
            cursor_ok(*final(c)),
            final(c).year <= max_year + 1,
            none_in(self@, after, ckey(*final(c))),
            key_lt(after.key(), ckey(*final(c))),
            !key_lt(ckey(*final(c)), ckey(*old(c))),
            found ==> {
                &&& final(c).year <= max_year
                &&& valid_date(final(c).year as int, final(c).month as int, final(c).day as int)
                &&& field_has(self@.month, final(c).month)
                &&& field_has(self@.day_of_month, final(c).day)
                &&& field_has(
                    self@.day_of_week,
                    weekday_from_sunday(
                        final(c).year as int,
                        final(c).month as int,
                        final(c).day as int,
                    ) as u32,
                )
            },
            !found ==> final(c).year > max_year,
    {
        proof {
            use_type_invariant(self);
        }
        let ghost start = ckey(*c);
        loop
            invariant
                cursor_ok(*c),
                c.year <= max_year + 1,
                max_year <= MAX_YEAR + 5,
                self.month.wf(),
                self.day_of_month.wf(),
                self.day_of_week.wf(),
                none_in(self@, after, ckey(*c)),
                key_lt(after.key(), ckey(*c)),
                !key_lt(ckey(*c), start),
                start == ckey(*old(c)),
            decreases max_year as int + 1 - c.year, 13 - c.month, 33 - c.day,
        {
            if c.year > max_year {
                return false;
            }
            let ghost k0 = ckey(*c);
            // Find next matching month
            let m = match self.month.next_match(c.month, 1, 12) {
                Some(m) => m,
                None => {
                    c.year = c.year + 1;
                    c.month = 1;
                    c.day = 1;
                    c.reset_to_day();
                    proof {
                        assert forall|u: UtcDateTime| #[trigger] cron_matches(self@, u) implies !(
                        u.wf() && !key_lt(u.key(), k0) && key_lt(u.key(), ckey(*c))) by {
                            assert(field_has(self.month@, u.month));
                        }
                        lemma_extend(self@, after, k0, ckey(*c));
                    }
                    continue;
                },
            };
            if m > c.month {
                c.month = m;
                c.day = 1;
                c.reset_to_day();
                proof {
                    assert forall|u: UtcDateTime| #[trigger] cron_matches(self@, u) implies !(u.wf()
                        && !key_lt(u.key(), k0) && key_lt(u.key(), ckey(*c))) by {
                        assert(field_has(self.month@, u.month));
                    }
                    lemma_extend(self@, after, k0, ckey(*c));
                }
            }
            let ghost k1 = ckey(*c);
            let dim = days_in_month(c.year, c.month);
            // Find next matching day of month
            let d = match self.day_of_month.next_match(c.day, 1, dim) {
                Some(d) => d,
                None => {
                    c.advance_month();
                    proof {
                        assert forall|u: UtcDateTime| #[trigger] cron_matches(self@, u) implies !(
                        u.wf() && !key_lt(u.key(), k1) && key_lt(u.key(), ckey(*c))) by {
                            assert(field_has(self.day_of_month@, u.day));
                        }
                        lemma_extend(self@, after, k1, ckey(*c));
                    }
                    continue;
                },
            };
            if d > c.day {
                c.day = d;
                c.reset_to_day();
                proof {
                    assert forall|u: UtcDateTime| #[trigger] cron_matches(self@, u) implies !(u.wf()
                        && !key_lt(u.key(), k1) && key_lt(u.key(), ckey(*c))) by {
                        assert(field_has(self.day_of_month@, u.day));
                    }
                    lemma_extend(self@, after, k1, ckey(*c));
                }
            }
            let ghost k2 = ckey(*c);
            if c.day > dim {
                c.advance_month();
                proof {
                    lemma_extend(self@, after, k2, ckey(*c));
                }
                continue;
            }
            // Check day of week
            let wd = match date_weekday_from_sunday(c.year, c.month, c.day) {
                Some(w) => w,
                None => {
                    c.advance_month();
                    proof {
                        lemma_extend(self@, after, k2, ckey(*c));
                    }
                    continue;
                },
            };
            if !self.day_of_week.matches(wd) {
                c.advance_day(dim);
                proof {
                    assert forall|u: UtcDateTime| #[trigger] cron_matches(self@, u) implies !(u.wf()
                        && !key_lt(u.key(), k2) && key_lt(u.key(), ckey(*c))) by {
                        if u.wf() && !key_lt(u.key(), k2) && key_lt(u.key(), ckey(*c)) {
                            assert(u.year as int == k2.0);
                            assert(u.month as int == k2.1);
                            assert(u.day as int == k2.2);
                        }
                    }
                    lemma_extend(self@, after, k2, ckey(*c));
                }
                continue;
            }
            return true;
        }
    }

    /// Given a cursor on a valid date, finds the next matching hour:minute:second.
    /// Returns None and advances the cursor if no time matches on this date.
    fn find_matching_time(
        &self,
        c: &mut CronCursor,
        dim: u32,
        Ghost(after): Ghost<UtcDateTime>,
    ) -> (r: Option<UtcDateTime>)
        requires
            cursor_ok(*old(c)),
            old(c).year <= MAX_YEAR,
            valid_date(old(c).year as int, old(c).month as int, old(c).day as int),
            dim as int == spec_days_in_month(old(c).year as int, old(c).month as int),
            field_has(self@.month, old(c).month),
            field_has(self@.day_of_month, old(c).day),
            field_has(
                self@.day_of_week,
                weekday_from_sunday(old(c).year as int, old(c).month as int, old(c).day as int)
                    as u32,
            ),
            none_in(self@, after, ckey(*old(c))),
            key_lt(after.key(), ckey(*old(c))),
        ensures
            match r {
                Some(t) => {
                    &&& t.wf()
                    &&& t.year == old(c).year
                    &&& cron_matches(self@, t)
                    &&& key_lt(after.key(), t.key())
                    &&& none_in(self@, after, t.key())
                },
                None => {
                    &&& cursor_ok(*final(c))
                    &&& final(c).year <= old(c).year + 1
                    &&& key_lt(ckey(*old(c)), ckey(*final(c)))
                    &&& none_in(self@, after, ckey(*final(c)))
                    &&& key_lt(after.key(), ckey(*final(c)))
                },
            },
    {
        proof {
            use_type_invariant(self);
        }
        let ghost k0 = ckey(*c);
        let h = match self.hours.next_match(c.hour, 0, 23) {
            Some(h) => h,
            None => {
                c.advance_day(dim);
                proof {
                    assert forall|u: UtcDateTime| #[trigger] cron_matches(self@, u) implies !(u.wf()
                        && !key_lt(u.key(), k0) && key_lt(u.key(), ckey(*c))) by {
                        assert(field_has(self.hours@, u.hour));
                    }
                    lemma_extend(self@, after, k0, ckey(*c));
                }
                return None;
            },
        };
        if h > c.hour {
            c.hour = h;
            c.reset_to_hour();
            proof {
                assert forall|u: UtcDateTime| #[trigger] cron_matches(self@, u) implies !(u.wf()
                    && !key_lt(u.key(), k0) && key_lt(u.key(), ckey(*c))) by {
                    assert(field_has(self.hours@, u.hour));
                }
                lemma_extend(self@, after, k0, ckey(*c));
            }
        }
        let ghost k1 = ckey(*c);
        let min = match self.minutes.next_match(c.minute, 0, 59) {
            Some(m) => m,
            None => {
                c.advance_hour(dim);
                proof {
                    assert forall|u: UtcDateTime| #[trigger] cron_matches(self@, u) implies !(u.wf()
                        && !key_lt(u.key(), k1) && key_lt(u.key(), ckey(*c))) by {
                        assert(field_has(self.minutes@, u.minute));
                    }
                    lemma_extend(self@, after, k1, ckey(*c));
                }
                return None;
            },
        };
        if min > c.minute {
            c.minute = min;
            c.reset_to_minute();
            proof {
                assert forall|u: UtcDateTime| #[trigger] cron_matches(self@, u) implies !(u.wf()
                    && !key_lt(u.key(), k1) && key_lt(u.key(), ckey(*c))) by {
                    assert(field_has(self.minutes@, u.minute));
                }
                lemma_extend(self@, after, k1, ckey(*c));
            }
        }
        let ghost k2 = ckey(*c);
        let s = match self.seconds.next_match(c.second, 0, 59) {
            Some(s) => s,
            None => {
                c.advance_minute(dim);
                proof {
                    assert forall|u: UtcDateTime| #[trigger] cron_matches(self@, u) implies !(u.wf()
                        && !key_lt(u.key(), k2) && key_lt(u.key(), ckey(*c))) by {
                        assert(field_has(self.seconds@, u.second));
                    }
                    lemma_extend(self@, after, k2, ckey(*c));
                }
                return None;
            },
        };
        match c.to_datetime(h, min, s) {
            Some(dt) => {
                proof {
                    if s > k2.5 {
                        assert forall|u: UtcDateTime| #[trigger] cron_matches(self@, u) implies !(
                        u.wf() && !key_lt(u.key(), k2) && key_lt(u.key(), dt.key())) by {
                            assert(field_has(self.seconds@, u.second));
                        }
                        lemma_extend(self@, after, k2, dt.key());
                    } else {
                        assert(dt.key() == k2);
                    }
                }
                return Some(dt);
            },
            None => {},
        }
        // Shouldn't happen, but advance
        c.second = s + 1;
        proof {
            assert forall|u: UtcDateTime| #[trigger] cron_matches(self@, u) implies !(u.wf()
                && !key_lt(u.key(), k2) && key_lt(u.key(), ckey(*c))) by {
                assert(field_has(self.seconds@, u.second));
            }
            lemma_extend(self@, after, k2, ckey(*c));
        }
        None
    }

    /// Find the next datetime after `after` that matches this cron expression,
    /// searching through the fifth year after `after`'s year.
    pub fn next_after(&self, after: UtcDateTime) -> (r: Option<UtcDateTime>)
        requires
            after.wf(),
        ensures
            is_next_fire(self@, after, r),
            r == next_fire(self@, after),
    {
        let r = self.search_next(after);
        proof {
            lemma_next_fire_unique(self@, after, r);
        }
        r
    }

    fn search_next(&self, after: UtcDateTime) -> (r: Option<UtcDateTime>)
        requires
            after.wf(),
        ensures
            match r {
                Some(t) => {
                    &&& t.wf()
                    &&& dt_lt(after, t)
                    &&& t.year <= after.year + 5
                    &&& cron_matches(self@, t)
                    &&& forall|u: UtcDateTime|
                        u.wf() && dt_lt(after, u) && dt_lt(u, t) ==> !#[trigger] cron_matches(
                            self@,
                            u,
                        )
                },
                None => forall|u: UtcDateTime|
                    u.wf() && dt_lt(after, u) && u.year <= after.year + 5 ==> !#[trigger] cron_matches(
                        self@,
                        u,
                    ),
            },
    {
        let mut c = CronCursor::from_after(&after);
        let max_year = c.year + 5;
        proof {
            assert forall|u: UtcDateTime| #[trigger] cron_matches(self@, u) implies !(u.wf()
                && key_lt(after.key(), u.key()) && key_lt(u.key(), ckey(c))) by {
            }
        }
        while c.year <= max_year
            invariant
                cursor_ok(c),
                max_year == after.year + 5,
                c.year <= max_year + 1,
                after.wf(),
                none_in(self@, after, ckey(c)),
                key_lt(after.key(), ckey(c)),
            decreases max_year as int + 1 - c.year, 13 - c.month, 33 - c.day, 24 - c.hour, 60
                - c.minute, 61 - c.second,
        {
            let ghost k0 = ckey(c);
            if !self.advance_to_matching_date(&mut c, max_year, Ghost(after)) {
                return None;
            }
            if c.year > max_year {
                return None;
            }
            let dim = days_in_month(c.year, c.month);
            match self.find_matching_time(&mut c, dim, Ghost(after)) {
                Some(dt) => {
                    return Some(dt);
                },
                None => {},
            }
        }
        None
    }
}


proof fn lemma_list_parts_cover(parts: Seq<Seq<char>>, min: u32, max: u32, k: int)
    requires
        spec_list_parts(parts, min, max) is Ok,
        0 <= k < parts.len(),
    ensures
        spec_list_part(parts[k], min, max) is Ok,
        spec_list_part(parts[k], min, max)->Ok_0.subset_of(spec_list_parts(parts, min, max)->Ok_0),
    decreases parts.len(),
{
    if k < parts.len() - 1 {
        lemma_list_parts_cover(parts.drop_last(), min, max, k);
        assert(parts.drop_last()[k] == parts[k]);
    }
}

/// A range `a-b` in a comma-separated cron field admits every value from `a` to
/// `b`, both ends included: `1-5` in the day-of-week field fires on Friday.
pub proof fn lemma_list_range_admits(
    field: Seq<char>,
    min: u32,
    max: u32,
    k: int,
    i: int,
    lo: u32,
    hi: u32,
    v: u32,
)
    requires
        field != "*"@,
        first_index(field, '/') is None,
        spec_parse_field(field, min, max) is Ok,
        0 <= k < split_on(field, ',').len(),
        first_index(split_on(field, ',')[k], '-') == Some(i),
        parse_u32_spec(split_on(field, ',')[k].take(i)) == Some(lo),
        parse_u32_spec(split_on(field, ',')[k].skip(i + 1)) == Some(hi),
        lo <= v <= hi,
    ensures
        min <= lo && hi <= max,
        field_has(spec_parse_field(field, min, max)->Ok_0, v),
{
    let parts = split_on(field, ',');
    lemma_list_parts_cover(parts, min, max, k);
    assert(spec_list_part(parts[k], min, max)->Ok_0.contains(v));
}
} // verus!
