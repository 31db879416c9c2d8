//! Calendar helpers for weekday-based schedules: weekday names, the n-th given
//! weekday of a month and the last one.
use crate::datetime::{
    civil_from_days, date_add_days, date_at, date_from_ymd, date_pred, days_from_civil, in_day_range,
    opt_ymd, valid_date, weekday_from_monday, CalDate,
};
use crate::text::{lowercase, str_eq, to_lowercase};
use vstd::prelude::*;

verus! {

/// A day of the week.
#[derive(Debug, Clone, Copy, PartialEq, Eq, Structural)]
pub enum Weekday {
    Mon,
    Tue,
    Wed,
    Thu,
    Fri,
    Sat,
    Sun,
}

impl Weekday {
    /// Days since Monday (Monday is 0).
    pub open spec fn spec_from_monday(self) -> int {
        match self {
            Weekday::Mon => 0,
            Weekday::Tue => 1,
            Weekday::Wed => 2,
            Weekday::Thu => 3,
            Weekday::Fri => 4,
            Weekday::Sat => 5,
            Weekday::Sun => 6,
        }
    }

    /// Days since Monday (Monday is 0).
    pub fn num_days_from_monday(&self) -> (r: u32)
        ensures
            r as int == self.spec_from_monday(),
    {
        match self {
            Weekday::Mon => 0,
            Weekday::Tue => 1,
            Weekday::Wed => 2,
            Weekday::Thu => 3,
            Weekday::Fri => 4,
            Weekday::Sat => 5,
            Weekday::Sun => 6,
        }
    }
}

/// The weekday a name denotes (full or three-letter, any case); Monday for
/// anything else.
pub open spec fn spec_parse_weekday(s: Seq<char>) -> Weekday {
    let l = lowercase(s);
    if l == "monday"@ || l == "mon"@ {
        Weekday::Mon
    } else if l == "tuesday"@ || l == "tue"@ {
        Weekday::Tue
    } else if l == "wednesday"@ || l == "wed"@ {
        Weekday::Wed
    } else if l == "thursday"@ || l == "thu"@ {
        Weekday::Thu
    } else if l == "friday"@ || l == "fri"@ {
        Weekday::Fri
    } else if l == "saturday"@ || l == "sat"@ {
        Weekday::Sat
    } else if l == "sunday"@ || l == "sun"@ {
        Weekday::Sun
    } else {
        Weekday::Mon
    }
}

/// Reads a weekday name.
pub fn parse_weekday(s: &str) -> (r: Weekday)
    ensures
        r == spec_parse_weekday(s@),
{
    let l = to_lowercase(s);
    let l = l.as_str();
    if str_eq(l, "monday") || str_eq(l, "mon") {
        Weekday::Mon
    } else if str_eq(l, "tuesday") || str_eq(l, "tue") {
        Weekday::Tue
    } else if str_eq(l, "wednesday") || str_eq(l, "wed") {
        Weekday::Wed
    } else if str_eq(l, "thursday") || str_eq(l, "thu") {
        Weekday::Thu
    } else if str_eq(l, "friday") || str_eq(l, "fri") {
        Weekday::Fri
    } else if str_eq(l, "saturday") || str_eq(l, "sat") {
        Weekday::Sat
    } else if str_eq(l, "sunday") || str_eq(l, "sun") {
        Weekday::Sun
    } else {
        Weekday::Mon
    }
}

/// The day number of the `nth` `weekday` of a month, counted from its first day
/// (which need not fall in the month when `nth` is 0 or too large).
pub open spec fn nth_target_days(year: int, month: int, weekday: Weekday, nth: int) -> int {
    let first = days_from_civil(year, month, 1);
    let first_wd = (first + 3) % 7;
    first + (weekday.spec_from_monday() - first_wd + 7) % 7 + (nth - 1) * 7
}

/// The `nth` `weekday` of a month, if that month has one.
pub open spec fn spec_nth_weekday(year: int, month: int, weekday: Weekday, nth: int) -> Option<(int, int, int)> {
    if !valid_date(year, month, 1) {
        None
    } else {
        match date_at(nth_target_days(year, month, weekday, nth)) {
            Some(t) => if t.1 == month {
                Some(t)
            } else {
                None
            },
            None => None,
        }
    }
}

/// Whether the date arithmetic for the `nth` `weekday` of a month stays within
/// `chrono`'s range (outside it the computation panics).
pub open spec fn nth_weekday_in_range(year: int, month: int, weekday: Weekday, nth: int) -> bool {
    valid_date(year, month, 1) ==> in_day_range(nth_target_days(year, month, weekday, nth))
}

/// The date of the `nth` `weekday` of a month, `None` when the month has no such
/// day (`nth` of 0, or beyond the month's last such weekday).
pub fn nth_weekday_of_month(year: i32, month: u32, weekday: Weekday, nth: u32) -> (r: Option<CalDate>)
    requires
        nth_weekday_in_range(year as int, month as int, weekday, nth as int),
    ensures
        opt_ymd(r) == spec_nth_weekday(year as int, month as int, weekday, nth as int),
        r matches Some(d) ==> d.valid(),
{
    let first = match date_from_ymd(year, month, 1) {
        Some(d) => d,
        None => return None,
    };
    let first_wd = weekday_from_monday(first);
    let days_ahead: i64 = (weekday.num_days_from_monday() as i64 - first_wd as i64 + 7) % 7;
    let offset: i64 = days_ahead + (nth as i64 - 1) * 7;
    assert(offset == nth_target_days(year as int, month as int, weekday, nth as int) - first.days());
    let target = match date_add_days(first, offset) {
        Some(t) => t,
        None => return None,
    };
    if target.month == month {
        Some(target)
    } else {
        None
    }
}

/// The day number of the last day of a month.
pub open spec fn last_day_days(year: int, month: int) -> int {
    if month == 12 {
        days_from_civil(year + 1, 1, 1) - 1
    } else {
        days_from_civil(year, month + 1, 1) - 1
    }
}

/// Whether the first day of the month after exists in `chrono`'s range.
pub open spec fn next_month_exists(year: int, month: int) -> bool {
    if month == 12 {
        valid_date(year + 1, 1, 1)
    } else {
        valid_date(year, month + 1, 1)
    }
}

/// The last `weekday` of a month.
pub open spec fn spec_last_weekday(year: int, month: int, weekday: Weekday) -> Option<(int, int, int)> {
    if !next_month_exists(year, month) || !in_day_range(last_day_days(year, month)) {
        None
    } else {
        let last = last_day_days(year, month);
        let back = ((last + 3) % 7 - weekday.spec_from_monday() + 7) % 7;
        date_at(last - back)
    }
}

proof fn lemma_step_back(last: int, k: int, t: int)
    requires
        0 <= t < 7,
        0 <= k <= ((last + 3) % 7 - t + 7) % 7,
        ((last - k) + 3) % 7 != t,
    ensures
        k < ((last + 3) % 7 - t + 7) % 7,
{
}

proof fn lemma_found_back(last: int, k: int, t: int)
    requires
        0 <= t < 7,
        0 <= k <= ((last + 3) % 7 - t + 7) % 7,
        ((last - k) + 3) % 7 == t,
    ensures
        k == ((last + 3) % 7 - t + 7) % 7,
{
}

/// The date of the last `weekday` of a month.
pub fn last_weekday_of_month(year: i32, month: u32, weekday: Weekday) -> (r: Option<CalDate>)
    requires
        month == 12 ==> year < i32::MAX,
        month != 12 ==> month < u32::MAX,
    ensures
        opt_ymd(r) == spec_last_weekday(year as int, month as int, weekday),
        r matches Some(d) ==> d.valid(),
{
    let next_first = if month == 12 {
        date_from_ymd(year + 1, 1, 1)
    } else {
        date_from_ymd(year, month + 1, 1)
    };
    let nf = match next_first {
        Some(d) => d,
        None => return None,
    };
    let mut d = match date_pred(nf) {
        Some(p) => p,
        None => return None,
    };
    let ghost last = d.days();
    assert(last == last_day_days(year as int, month as int));
    let target = weekday.num_days_from_monday();
    let ghost t = weekday.spec_from_monday();
    let ghost back = ((last + 3) % 7 - t + 7) % 7;
    let ghost mut k: int = 0;
    let ghost mut n: int = last;
    while weekday_from_monday(d) != target
        invariant
            d.valid(),
            n == d.days(),
            n == last - k,
            0 <= k <= back,
            0 <= t < 7,
            back == ((last + 3) % 7 - t + 7) % 7,
            target as int == t,
            t == weekday.spec_from_monday(),
            in_day_range(last),
            opt_ymd(Some(d)) == date_at(n),
            last == last_day_days(year as int, month as int),
            next_month_exists(year as int, month as int),
        decreases back - k,
    {
        proof {
            lemma_step_back(last, k, t);
        }
        d = match date_pred(d) {
            Some(p) => p,
            None => {
                assert(!in_day_range(last - back));
                return None;
            },
        };
        proof {
            k = k + 1;
            n = n - 1;
        }
    }
    proof {
        lemma_found_back(last, k, t);
    }
    assert(opt_ymd(Some(d)) == date_at(last - back));
    Some(d)
}

} // verus!
