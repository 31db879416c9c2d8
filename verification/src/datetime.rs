//! UTC calendar date-times as plain values, and the calls into `chrono` that
//! validate them and compute weekdays.
use chrono::{Datelike, TimeZone, Timelike};
use vstd::prelude::*;

verus! {

/// Smallest year a `chrono` date can hold.
pub const MIN_YEAR: i32 = -262143;

/// Largest year a `chrono` date can hold.
pub const MAX_YEAR: i32 = 262142;

/// A UTC date and time with second precision, held as its calendar fields
/// (the values `chrono::DateTime<Utc>` reports through `year()`, `month()`, ...).
#[derive(Debug, Clone, Copy, PartialEq, Eq, Structural)]
pub struct UtcDateTime {
    pub year: i32,
    pub month: u32,
    pub day: u32,
    pub hour: u32,
    pub minute: u32,
    pub second: u32,
}

/// Whether `year` is a leap year of the proleptic Gregorian calendar.
pub open spec fn is_leap_year(year: int) -> bool {
    (year % 4 == 0 && year % 100 != 0) || year % 400 == 0
}

/// Number of days in `month` of `year` (30 for a month outside 1..=12).
pub open spec fn spec_days_in_month(year: int, month: int) -> int {
    if month == 2 {
        if is_leap_year(year) { 29 } else { 28 }
    } else if month == 4 || month == 6 || month == 9 || month == 11 {
        30
    } else if 1 <= month <= 12 {
        31
    } else {
        30
    }
}

/// A calendar date that exists and lies in the range of `chrono`'s dates.
pub open spec fn valid_date(year: int, month: int, day: int) -> bool {
    &&& MIN_YEAR <= year <= MAX_YEAR
    &&& 1 <= month <= 12
    &&& 1 <= day <= spec_days_in_month(year, month)
}

/// A valid date together with a time of day without leap second.
pub open spec fn valid_date_time(
    year: int,
    month: int,
    day: int,
    hour: int,
    minute: int,
    second: int,
) -> bool {
    &&& valid_date(year, month, day)
    &&& 0 <= hour < 24
    &&& 0 <= minute < 60
    &&& 0 <= second < 60
}

/// Days from 1970-01-01 to the given proleptic Gregorian date.
#[verifier::opaque]
pub open spec fn days_from_civil(year: int, month: int, day: int) -> int {
    let y = if month <= 2 { year - 1 } else { year };
    let era = y / 400;
    let yoe = y - era * 400;
    let mp = if month > 2 { month - 3 } else { month + 9 };
    let doy = (153 * mp + 2) / 5 + day - 1;
    let doe = yoe * 365 + yoe / 4 - yoe / 100 + doy;
    era * 146097 + doe - 719468
}

/// Day of the week counted from Sunday (0) to Saturday (6).
pub open spec fn weekday_from_sunday(year: int, month: int, day: int) -> int {
    (days_from_civil(year, month, day) + 4) % 7
}

impl UtcDateTime {
    /// The fields describe an existing UTC date-time in `chrono`'s range.
    pub open spec fn wf(self) -> bool {
        valid_date_time(
            self.year as int,
            self.month as int,
            self.day as int,
            self.hour as int,
            self.minute as int,
            self.second as int,
        )
    }

    /// The fields as a tuple, ordered like the instants they denote.
    pub open spec fn key(self) -> (int, int, int, int, int, int) {
        (
            self.year as int,
            self.month as int,
            self.day as int,
            self.hour as int,
            self.minute as int,
            self.second as int,
        )
    }

    /// Builds the date-time from its fields, as `Utc.with_ymd_and_hms(..).single()`
    /// does: `None` when the fields name no existing instant.
    pub fn from_ymd_hms(
        year: i32,
        month: u32,
        day: u32,
        hour: u32,
        minute: u32,
        second: u32,
    ) -> (r: Option<UtcDateTime>)
        ensures
            r == (if valid_date_time(
                year as int,
                month as int,
                day as int,
                hour as int,
                minute as int,
                second as int,
            ) {
                Some(UtcDateTime { year, month, day, hour, minute, second })
            } else {
                None
            }),
    {
        utc_with_ymd_and_hms(year, month, day, hour, minute, second)
    }

    /// The day of the week of this date, counted from Sunday.
    pub fn weekday_from_sunday(&self) -> (w: u32)
        requires
            self.wf(),
        ensures
            w as int == weekday_from_sunday(self.year as int, self.month as int, self.day as int),
            w < 7,
    {
        match date_weekday_from_sunday(self.year, self.month, self.day) {
            Some(w) => w,
            None => 0,
        }
    }
}

/// Strict lexicographic order on six-field keys.
pub open spec fn key_lt(a: (int, int, int, int, int, int), b: (int, int, int, int, int, int)) -> bool {
    ||| a.0 < b.0
    ||| (a.0 == b.0 && a.1 < b.1)
    ||| (a.0 == b.0 && a.1 == b.1 && a.2 < b.2)
    ||| (a.0 == b.0 && a.1 == b.1 && a.2 == b.2 && a.3 < b.3)
    ||| (a.0 == b.0 && a.1 == b.1 && a.2 == b.2 && a.3 == b.3 && a.4 < b.4)
    ||| (a.0 == b.0 && a.1 == b.1 && a.2 == b.2 && a.3 == b.3 && a.4 == b.4 && a.5 < b.5)
}

/// `a` is an earlier instant than `b`.
pub open spec fn dt_lt(a: UtcDateTime, b: UtcDateTime) -> bool {
    key_lt(a.key(), b.key())
}

/// `chrono::TimeZone::with_ymd_and_hms` on `Utc`, then `single()`. The claim:
/// the result exists exactly for an existing date in `chrono`'s year range with
/// hour < 24, minute < 60 and second < 60, and then reports the given fields.
#[verifier::external_body]
fn utc_with_ymd_and_hms(
    year: i32,
    month: u32,
    day: u32,
    hour: u32,
    minute: u32,
    second: u32,
) -> (r: Option<UtcDateTime>)
    ensures
        r == (if valid_date_time(
            year as int,
            month as int,
            day as int,
            hour as int,
            minute as int,
            second as int,
        ) {
            Some(UtcDateTime { year, month, day, hour, minute, second })
        } else {
            None
        }),
{
    chrono::Utc.with_ymd_and_hms(year, month, day, hour, minute, second).single().map(|dt|
        UtcDateTime {
            year: dt.year(),
            month: dt.month(),
            day: dt.day(),
            hour: dt.hour(),
            minute: dt.minute(),
            second: dt.second(),
        }
    )
}

/// `chrono::NaiveDate::from_ymd_opt`, then `weekday().num_days_from_sunday()`.
/// The claim: a result exists exactly for an existing date in `chrono`'s year
/// range, and it is the proleptic Gregorian day of the week, Sunday being 0.
#[verifier::external_body]
pub(crate) fn date_weekday_from_sunday(year: i32, month: u32, day: u32) -> (r: Option<u32>)
    ensures
        r == (if valid_date(year as int, month as int, day as int) {
            Some(weekday_from_sunday(year as int, month as int, day as int) as u32)
        } else {
            None
        }),
{
    chrono::NaiveDate::from_ymd_opt(year, month, day).map(|d| d.weekday().num_days_from_sunday())
}

/// The proleptic Gregorian date `n` days after 1970-01-01, as (year, month, day).
#[verifier::opaque]
pub open spec fn civil_from_days(n: int) -> (int, int, int) {
    let z = n + 719468;
    let era = z / 146097;
    let doe = z - era * 146097;
    let yoe = (doe - doe / 1460 + doe / 36524 - doe / 146096) / 365;
    let doy = doe - (365 * yoe + yoe / 4 - yoe / 100);
    let mp = (5 * doy + 2) / 153;
    let day = doy - (153 * mp + 2) / 5 + 1;
    let month = if mp < 10 { mp + 3 } else { mp - 9 };
    let year = yoe + era * 400 + if month <= 2 { 1int } else { 0int };
    (year, month, day)
}

/// The day numbers `chrono`'s dates cover.
pub open spec fn in_day_range(n: int) -> bool {
    days_from_civil(MIN_YEAR as int, 1, 1) <= n <= days_from_civil(MAX_YEAR as int, 12, 31)
}

/// A calendar date (what `chrono::NaiveDate` holds), as its fields.
#[derive(Debug, Clone, Copy, PartialEq, Eq, Structural)]
pub struct CalDate {
    pub year: i32,
    pub month: u32,
    pub day: u32,
}

impl CalDate {
    /// The date exists and lies in `chrono`'s range.
    pub open spec fn valid(self) -> bool {
        valid_date(self.year as int, self.month as int, self.day as int)
    }

    /// Days from 1970-01-01 to this date.
    pub open spec fn days(self) -> int {
        days_from_civil(self.year as int, self.month as int, self.day as int)
    }

    /// The fields as a tuple.
    pub open spec fn ymd(self) -> (int, int, int) {
        (self.year as int, self.month as int, self.day as int)
    }

    /// The day of the week counted from Monday (0) to Sunday (6).
    pub open spec fn weekday_from_monday(self) -> int {
        (self.days() + 3) % 7
    }
}

/// The date `n` days after 1970-01-01 where `chrono` can hold it.
pub open spec fn date_at(n: int) -> Option<(int, int, int)> {
    if in_day_range(n) {
        Some(civil_from_days(n))
    } else {
        None
    }
}

/// The fields of an optional date.
pub open spec fn opt_ymd(d: Option<CalDate>) -> Option<(int, int, int)> {
    match d {
        Some(x) => Some(x.ymd()),
        None => None,
    }
}

/// `chrono::NaiveDate::from_ymd_opt`. The claim: a date exists exactly for an
/// existing date in `chrono`'s year range, and then has the given fields.
#[verifier::external_body]
pub(crate) fn date_from_ymd(year: i32, month: u32, day: u32) -> (r: Option<CalDate>)
    ensures
        r == (if valid_date(year as int, month as int, day as int) {
            Some(CalDate { year, month, day })
        } else {
            None
        }),
{
    chrono::NaiveDate::from_ymd_opt(year, month, day).map(|d| CalDate { year: d.year(), month: d.month(), day: d.day() })
}

/// `chrono::NaiveDate::pred_opt`. The claim: the result is the day before, where
/// `chrono` can hold it.
#[verifier::external_body]
pub(crate) fn date_pred(d: CalDate) -> (r: Option<CalDate>)
    requires
        d.valid(),
    ensures
        opt_ymd(r) == date_at(d.days() - 1),
        r matches Some(p) ==> p.valid() && p.days() == d.days() - 1,
{
    chrono::NaiveDate::from_ymd_opt(d.year, d.month, d.day).and_then(|x| x.pred_opt()).map(
        |p| CalDate { year: p.year(), month: p.month(), day: p.day() },
    )
}

/// `chrono::NaiveDate::checked_add_signed(TimeDelta::days(n))`. The claim: the
/// result is the date `n` days later, where `chrono` can hold it.
#[verifier::external_body]
pub(crate) fn date_add_days(d: CalDate, n: i64) -> (r: Option<CalDate>)
    requires
        d.valid(),
        -100_000_000_000 <= n <= 100_000_000_000,
    ensures
        opt_ymd(r) == date_at(d.days() + n),
        r matches Some(p) ==> p.valid() && p.days() == d.days() + n,
{
    chrono::NaiveDate::from_ymd_opt(d.year, d.month, d.day).and_then(
        |x| x.checked_add_signed(chrono::TimeDelta::days(n)),
    ).map(|p| CalDate { year: p.year(), month: p.month(), day: p.day() })
}

/// The day of the week of a date, counted from Monday.
pub fn weekday_from_monday(d: CalDate) -> (w: u32)
    requires
        d.valid(),
    ensures
        w as int == d.weekday_from_monday(),
        w < 7,
{
    let s = match date_weekday_from_sunday(d.year, d.month, d.day) {
        Some(w) => w,
        None => 0,
    };
    if s == 0 {
        6
    } else {
        s - 1
    }
}

/// The instant one second before `dt`, where `chrono` can hold it.
pub open spec fn spec_prev_second(dt: UtcDateTime) -> Option<UtcDateTime> {
    if dt.second > 0 {
        Some(UtcDateTime { second: (dt.second - 1) as u32, ..dt })
    } else if dt.minute > 0 {
        Some(UtcDateTime { minute: (dt.minute - 1) as u32, second: 59, ..dt })
    } else if dt.hour > 0 {
        Some(UtcDateTime { hour: (dt.hour - 1) as u32, minute: 59, second: 59, ..dt })
    } else if dt.day > 1 {
        Some(UtcDateTime { day: (dt.day - 1) as u32, hour: 23, minute: 59, second: 59, ..dt })
    } else if dt.month > 1 {
        Some(
            UtcDateTime {
                year: dt.year,
                month: (dt.month - 1) as u32,
                day: spec_days_in_month(dt.year as int, dt.month - 1) as u32,
                hour: 23,
                minute: 59,
                second: 59,
            },
        )
    } else if dt.year > MIN_YEAR {
        Some(
            UtcDateTime {
                year: (dt.year - 1) as i32,
                month: 12,
                day: 31,
                hour: 23,
                minute: 59,
                second: 59,
            },
        )
    } else {
        None
    }
}

/// `DateTime<Utc>::checked_sub_signed(TimeDelta::seconds(1))`. The claim: the
/// result is the instant one second earlier, where `chrono` can hold it.
#[verifier::external_body]
pub(crate) fn prev_second(dt: UtcDateTime) -> (r: Option<UtcDateTime>)
    requires
        dt.wf(),
    ensures
        r == spec_prev_second(dt),
{
    chrono::Utc.with_ymd_and_hms(dt.year, dt.month, dt.day, dt.hour, dt.minute, dt.second).single().and_then(
        |t| t.checked_sub_signed(chrono::TimeDelta::seconds(1)),
    ).map(
        |t| UtcDateTime {
            year: t.year(),
            month: t.month(),
            day: t.day(),
            hour: t.hour(),
            minute: t.minute(),
            second: t.second(),
        },
    )
}

/// Whether `a` is an earlier instant than `b`.
pub fn dt_less(a: &UtcDateTime, b: &UtcDateTime) -> (r: bool)
    ensures
        r == dt_lt(*a, *b),
{
    if a.year != b.year {
        return a.year < b.year;
    }
    if a.month != b.month {
        return a.month < b.month;
    }
    if a.day != b.day {
        return a.day < b.day;
    }
    if a.hour != b.hour {
        return a.hour < b.hour;
    }
    if a.minute != b.minute {
        return a.minute < b.minute;
    }
    a.second < b.second
}

/// `n` in decimal, zero-padded on the left to at least `width` digits.
pub open spec fn zero_pad(n: nat, width: nat) -> Seq<char> {
    let d = crate::text::dec(n);
    if d.len() < width {
        Seq::new((width - d.len()) as nat, |i: int| '0') + d
    } else {
        d
    }
}

/// The year as `%Y` writes it: four digits for 0..=9999, else a sign and at least
/// four digits.
pub open spec fn year_text(y: int) -> Seq<char> {
    if 0 <= y <= 9999 {
        zero_pad(y as nat, 4)
    } else if y > 0 {
        seq!['+'] + zero_pad(y as nat, 4)
    } else {
        seq!['-'] + zero_pad((-y) as nat, 4)
    }
}

/// A date as `%Y-%m-%d` writes it.
pub open spec fn date_text(d: (int, int, int)) -> Seq<char> {
    year_text(d.0) + seq!['-'] + zero_pad(d.1 as nat, 2) + seq!['-'] + zero_pad(d.2 as nat, 2)
}

/// `NaiveDate::format("%Y-%m-%d").to_string()`. The claim: the text is the year as
/// `%Y` pads it, then the month and day as two digits each.
#[verifier::external_body]
pub(crate) fn date_ymd_text(d: CalDate) -> (r: String)
    requires
        d.valid(),
    ensures
        r@ == date_text(d.ymd()),
{
    match chrono::NaiveDate::from_ymd_opt(d.year, d.month, d.day) {
        Some(x) => x.format("%Y-%m-%d").to_string(),
        None => String::new(),
    }
}

/// Seconds from 1970-01-01T00:00:00 to the instant.
pub open spec fn instant_secs(t: UtcDateTime) -> int {
    days_from_civil(t.year as int, t.month as int, t.day as int) * 86400 + t.hour * 3600 + t.minute
        * 60 + t.second
}

/// `(to - from).num_seconds()` on `DateTime<Utc>`. The claim: the result is the
/// number of seconds from `from` to `to`.
#[verifier::external_body]
pub(crate) fn seconds_between(from: UtcDateTime, to: UtcDateTime) -> (r: i64)
    requires
        from.wf(),
        to.wf(),
    ensures
        r as int == instant_secs(to) - instant_secs(from),
{
    let a = chrono::Utc.with_ymd_and_hms(from.year, from.month, from.day, from.hour, from.minute, from.second).single();
    let b = chrono::Utc.with_ymd_and_hms(to.year, to.month, to.day, to.hour, to.minute, to.second).single();
    match (a, b) {
        (Some(a), Some(b)) => (b - a).num_seconds(),
        _ => 0,
    }
}


/// The date of day number `n` has day number `n`: the two calendar conversions
/// undo each other.
pub proof fn lemma_days_civil_round_trip(n: int)
    ensures
        days_from_civil(civil_from_days(n).0, civil_from_days(n).1, civil_from_days(n).2) == n,
{
    let z = n + 719468;
    let era = z / 146097;
    let doe = z - era * 146097;
    assert(0 <= doe < 146097);
    let num = doe - doe / 1460 + doe / 36524 - doe / 146096;
    assert(0 <= num <= 145999) by (nonlinear_arith)
        requires
            0 <= doe < 146097,
            num == doe - doe / 1460 + doe / 36524 - doe / 146096,
    ;
    let yoe = num / 365;
    assert(0 <= yoe < 400);
    let doy = doe - (365 * yoe + yoe / 4 - yoe / 100);
    assert(0 <= doy <= 365) by (nonlinear_arith)
        requires
            0 <= doe < 146097,
            num == doe - doe / 1460 + doe / 36524 - doe / 146096,
            yoe == num / 365,
            0 <= yoe < 400,
            doy == doe - (365 * yoe + yoe / 4 - yoe / 100),
    ;
    let mp = (5 * doy + 2) / 153;
    assert(0 <= mp <= 11);
    let day = doy - (153 * mp + 2) / 5 + 1;
    let month = if mp < 10 { mp + 3 } else { mp - 9 };
    let year = yoe + era * 400 + if month <= 2 { 1int } else { 0int };
    assert(civil_from_days(n) == (year, month, day)) by {
        reveal(civil_from_days);
    }
    let y = if month <= 2 { year - 1 } else { year };
    assert(y == yoe + era * 400);
    assert(y / 400 == era) by (nonlinear_arith)
        requires
            y == yoe + era * 400,
            0 <= yoe < 400,
    ;
    // Going back: the same era, year of era, month index and day of year.
    let mp2 = if month > 2 { month - 3 } else { month + 9 };
    assert(mp2 == mp);
    let doy2 = (153 * mp2 + 2) / 5 + day - 1;
    assert(doy2 == doy);
    let yoe2 = y - era * 400;
    let doe2 = yoe2 * 365 + yoe2 / 4 - yoe2 / 100 + doy2;
    assert(doe2 == doe);
    assert(days_from_civil(year, month, day) == era * 146097 + doe2 - 719468) by {
        reveal(days_from_civil);
    }
}
} // verus!
