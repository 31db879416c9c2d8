//! What the scheduler decides on each tick: which jobs are due by their cron,
//! calendar or interval schedules, and the fire times it keeps between ticks.
use crate::datetime::{
    civil_from_days, date_add_days, date_at, date_from_ymd, date_pred, date_text, date_ymd_text,
    days_from_civil, dt_less, dt_lt, in_day_range, opt_ymd, prev_second, spec_prev_second,
    valid_date, weekday_from_monday, CalDate, UtcDateTime,
};
use crate::scheduler::calendar::{
    last_day_days, last_weekday_of_month, next_month_exists, nth_weekday_in_range,
    nth_weekday_of_month, parse_weekday, spec_last_weekday, spec_nth_weekday, spec_parse_weekday,
};
use crate::scheduler::cron_parser::{is_next_fire, next_fire, spec_cron_parse, CronModel, CronSchedule};
use crate::text::{is_prefix, parse_u32_chars, parse_u32_spec, str_eq};
use std::collections::HashMap;
use vstd::prelude::*;

verus! {

broadcast use vstd::std_specs::hash::group_hash_axioms;

/// A monthly calendar rule: an anchor day of the month, shifted by an offset,
/// fired once at a time of day, with optional month, weekend and holiday filters.
#[derive(Debug, Clone)]
pub struct CalendarSchedule {
    /// `last_day`, `day_<n>`, `nth_weekday`, `first_<weekday>` or `last_<weekday>`.
    pub anchor: String,
    /// Which occurrence, for `nth_weekday` (1 when absent).
    pub nth: Option<u32>,
    /// The weekday, for `nth_weekday` (Monday when absent).
    pub weekday: Option<String>,
    pub hour: u32,
    pub minute: u32,
    /// Days added to the anchor day.
    pub offset_days: i32,
    pub skip_weekends: bool,
    /// Dates (`YYYY-MM-DD`) on which the job does not fire.
    pub holidays: Vec<String>,
    /// Months (1..=12) in which the job fires; all when empty.
    pub months: Vec<u32>,
}

/// The anchor day of a calendar rule in a month.
pub open spec fn spec_anchor(cal: CalendarSchedule, year: int, month: int) -> Option<(int, int, int)> {
    let a = cal.anchor@;
    if a == "last_day"@ {
        if !next_month_exists(year, month) {
            None
        } else {
            match date_at(last_day_days(year, month)) {
                Some(t) => Some(t),
                None => Some(
                    if month == 12 {
                        (year + 1, 1int, 1int)
                    } else {
                        (year, month + 1, 1int)
                    },
                ),
            }
        }
    } else if is_prefix("day_"@, a) {
        let day = match parse_u32_spec(a.skip(4)) {
            Some(d) => d as int,
            None => 1,
        };
        if valid_date(year, month, day) {
            Some((year, month, day))
        } else {
            None
        }
    } else if a == "nth_weekday"@ {
        spec_nth_weekday(
            year,
            month,
            spec_parse_weekday(
                match cal.weekday {
                    Some(w) => w@,
                    None => "monday"@,
                },
            ),
            match cal.nth {
                Some(n) => n as int,
                None => 1,
            },
        )
    } else if is_prefix("first_"@, a) {
        spec_nth_weekday(year, month, spec_parse_weekday(a.skip(6)), 1)
    } else if is_prefix("last_"@, a) {
        spec_last_weekday(year, month, spec_parse_weekday(a.skip(5)))
    } else {
        None
    }
}

/// Whether the date arithmetic of a calendar rule stays within `chrono`'s range
/// in the month of `now` (outside it the computation panics).
pub open spec fn calendar_in_range(cal: CalendarSchedule, now: UtcDateTime) -> bool {
    let y = now.year as int;
    let m = now.month as int;
    let a = cal.anchor@;
    &&& a == "nth_weekday"@ ==> nth_weekday_in_range(
        y,
        m,
        spec_parse_weekday(
            match cal.weekday {
                Some(w) => w@,
                None => "monday"@,
            },
        ),
        match cal.nth {
            Some(n) => n as int,
            None => 1,
        },
    )
    &&& (a != "nth_weekday"@ && !is_prefix("day_"@, a) && a != "last_day"@ && is_prefix("first_"@, a))
        ==> nth_weekday_in_range(y, m, spec_parse_weekday(a.skip(6)), 1)
    &&& (spec_anchor(cal, y, m) matches Some(t) ==> in_day_range(
        days_from_civil(t.0, t.1, t.2) + cal.offset_days,
    ))
}

/// The date part of an instant.
pub open spec fn day_of(t: UtcDateTime) -> (int, int, int) {
    (t.year as int, t.month as int, t.day as int)
}

/// Whether a calendar job fires at `now`: not yet fired today, in an allowed
/// month, past its time of day, and today is its target day (unless that day is a
/// skipped weekend day or a holiday).
pub open spec fn spec_calendar_due(cal: CalendarSchedule, now: UtcDateTime, last_fired: Option<UtcDateTime>) -> bool {
    if last_fired matches Some(l) && day_of(l) == day_of(now) {
        false
    } else if cal.months@.len() > 0 && !cal.months@.contains(now.month) {
        false
    } else if !(cal.hour < 24 && cal.minute < 60) {
        false
    } else if now.hour < cal.hour || (now.hour == cal.hour && now.minute < cal.minute) {
        false
    } else {
        match spec_anchor(cal, now.year as int, now.month as int) {
            None => false,
            Some(t) => {
                let n = days_from_civil(t.0, t.1, t.2) + cal.offset_days;
                let target = civil_from_days(n);
                if cal.skip_weekends && ((n + 3) % 7 == 5 || (n + 3) % 7 == 6) {
                    false
                } else if exists|i: int|
                    0 <= i < cal.holidays@.len() && #[trigger] cal.holidays@[i]@ == date_text(target) {
                    false
                } else {
                    target == day_of(now)
                }
            },
        }
    }
}

fn anchor_date(cal: &CalendarSchedule, year: i32, month: u32) -> (r: Option<CalDate>)
    requires
        crate::datetime::valid_date(year as int, month as int, 1),
        calendar_in_range(*cal, UtcDateTime { year, month, day: 1, hour: 0, minute: 0, second: 0 }),
    ensures
        opt_ymd(r) == spec_anchor(*cal, year as int, month as int),
        r matches Some(d) ==> d.valid(),
{
    let a = cal.anchor.as_str();
    let ac = crate::text::chars_of(a);
    let n = ac.len();
    proof {
        reveal_strlit("day_");
        reveal_strlit("first_");
        reveal_strlit("last_");
    }
    if str_eq(a, "last_day") {
        let next = if month == 12 {
            date_from_ymd(year + 1, 1, 1)
        } else {
            date_from_ymd(year, month + 1, 1)
        };
        match next {
            Some(d) => match date_pred(d) {
                Some(p) => Some(p),
                None => Some(d),
            },
            None => None,
        }
    } else if crate::text::starts_with(ac.as_slice(), crate::text::chars_of("day_").as_slice()) {
        let rest = crate::text::slice_chars(ac.as_slice(), 4, n);
        assert(rest@ == a@.skip(4));
        let day = match parse_u32_chars(rest.as_slice()) {
            Some(d) => d,
            None => 1,
        };
        date_from_ymd(year, month, day)
    } else if str_eq(a, "nth_weekday") {
        let wd = match &cal.weekday {
            Some(w) => parse_weekday(w.as_str()),
            None => parse_weekday("monday"),
        };
        let nth = match cal.nth {
            Some(k) => k,
            None => 1,
        };
        nth_weekday_of_month(year, month, wd, nth)
    } else if crate::text::starts_with(ac.as_slice(), crate::text::chars_of("first_").as_slice()) {
        let rest = crate::text::string_from_chars(crate::text::slice_chars(ac.as_slice(), 6, n).as_slice());
        assert(rest@ == a@.skip(6));
        nth_weekday_of_month(year, month, parse_weekday(rest.as_str()), 1)
    } else if crate::text::starts_with(ac.as_slice(), crate::text::chars_of("last_").as_slice()) {
        let rest = crate::text::string_from_chars(crate::text::slice_chars(ac.as_slice(), 5, n).as_slice());
        assert(rest@ == a@.skip(5));
        last_weekday_of_month(year, month, parse_weekday(rest.as_str()))
    } else {
        None
    }
}

fn listed(list: &Vec<String>, text: &str) -> (r: bool)
    ensures
        r == exists|i: int| 0 <= i < list@.len() && #[trigger] list@[i]@ == text@,
{
    let mut i: usize = 0;
    while i < list.len()
        invariant
            i <= list@.len(),
            forall|k: int| 0 <= k < i ==> #[trigger] list@[k]@ != text@,
        decreases list.len() - i,
    {
        if str_eq(list[i].as_str(), text) {
            return true;
        }
        i = i + 1;
    }
    false
}

/// Decides whether a calendar job fires at `now`, given when it last fired.
pub fn calendar_due(cal: &CalendarSchedule, now: UtcDateTime, last_fired: Option<UtcDateTime>) -> (r: bool)
    requires
        now.wf(),
        calendar_in_range(*cal, now),
    ensures
        r == spec_calendar_due(*cal, now, last_fired),
{
    match last_fired {
        Some(l) => {
            if l.year == now.year && l.month == now.month && l.day == now.day {
                return false;
            }
        },
        None => {},
    }
    if cal.months.len() > 0 {
        let mut found = false;
        let mut i: usize = 0;
        while i < cal.months.len()
            invariant
                i <= cal.months@.len(),
                found == (exists|k: int| 0 <= k < i && cal.months@[k] == now.month),
            decreases cal.months.len() - i,
        {
            if cal.months[i] == now.month {
                found = true;
            }
            i = i + 1;
        }
        if !found {
            return false;
        }
    }
    if !(cal.hour < 24 && cal.minute < 60) {
        return false;
    }
    if now.hour < cal.hour || (now.hour == cal.hour && now.minute < cal.minute) {
        return false;
    }
    assert(calendar_in_range(*cal, UtcDateTime { year: now.year, month: now.month, day: 1, hour: 0, minute: 0, second: 0 }));
    let anchor = match anchor_date(cal, now.year, now.month) {
        Some(a) => a,
        None => return false,
    };
    let target = match date_add_days(anchor, cal.offset_days as i64) {
        Some(t) => t,
        None => return false,
    };
    let ghost n = anchor.days() + cal.offset_days;
    assert(target.ymd() == civil_from_days(n));
    if cal.skip_weekends {
        let wd = weekday_from_monday(target);
        if wd == 5 || wd == 6 {
            return false;
        }
    }
    if cal.holidays.len() > 0 {
        let text = date_ymd_text(target);
        if listed(&cal.holidays, text.as_str()) {
            return false;
        }
    }
    target.year == now.year && target.month == now.month && target.day == now.day
}

/// The value stored under `k`, if any.
pub open spec fn entry(m: Map<u128, UtcDateTime>, k: u128) -> Option<UtcDateTime> {
    if m.dom().contains(k) {
        Some(m[k])
    } else {
        None
    }
}

/// `m` with `k` set to `v` when there is a value.
pub open spec fn put(m: Map<u128, UtcDateTime>, k: u128, v: Option<UtcDateTime>) -> Map<u128, UtcDateTime> {
    match v {
        Some(x) => m.insert(k, x),
        None => m,
    }
}

/// Every stored instant is a valid one.
pub open spec fn all_wf(m: Map<u128, UtcDateTime>) -> bool {
    forall|k: u128| m.dom().contains(k) ==> (#[trigger] m[k]).wf()
}

/// The schedule a cron expression describes, when it is valid.
pub open spec fn parsed_model(expr: Seq<char>) -> Option<CronModel> {
    match spec_cron_parse(expr) {
        Ok(m) => Some(m),
        Err(_) => None,
    }
}

/// One tick's decision for a cron job: whether it fires, and its next fire time
/// and last fire time afterwards. A job without a known next fire time gets the
/// first run after the second before `now`; a due job fires unless it already
/// fired for that time, and its next fire time moves to the first run after `now`.
pub open spec fn spec_check_cron(
    parsed: Option<CronModel>,
    now: UtcDateTime,
    old_next: Option<UtcDateTime>,
    old_last: Option<UtcDateTime>,
) -> (bool, Option<UtcDateTime>, Option<UtcDateTime>) {
    let fire_time = match old_next {
        Some(ft) => Some(ft),
        None => match parsed {
            Some(m) => match spec_prev_second(now) {
                Some(p) => next_fire(m, p),
                None => None,
            },
            None => None,
        },
    };
    match fire_time {
        None => (false, old_next, old_last),
        Some(ft) => if dt_lt(now, ft) {
            (false, Some(ft), old_last)
        } else {
            let refreshed = match parsed {
                Some(m) => match next_fire(m, now) {
                    Some(n) => Some(n),
                    None => Some(ft),
                },
                None => Some(ft),
            };
            match old_last {
                Some(l) => if !dt_lt(l, ft) {
                    (false, refreshed, old_last)
                } else {
                    (true, refreshed, Some(ft))
                },
                None => (true, refreshed, Some(ft)),
            }
        },
    }
}

/// A cron job fires at most once per fire time: a firing records a fire time later
/// than the one recorded before, and a second tick at the same instant, on the
/// times the first one left, does not fire again.
pub proof fn lemma_cron_fires_once(
    parsed: Option<CronModel>,
    now: UtcDateTime,
    next: Option<UtcDateTime>,
    last: Option<UtcDateTime>,
)
    requires
        spec_check_cron(parsed, now, next, last).0,
    ensures
        ({
            let o = spec_check_cron(parsed, now, next, last);
            &&& o.2 matches Some(f) && !dt_lt(now, f) && (last matches Some(l) ==> dt_lt(l, f))
            &&& !spec_check_cron(parsed, now, o.1, o.2).0
        }),
{
    let o = spec_check_cron(parsed, now, next, last);
    if let Some(m) = parsed {
        if let Some(n) = next_fire(m, now) {
            assert(is_next_fire(m, now, Some(n)));
        }
    }
}

/// A calendar job fires at most once a day: once it fired at `now`, it is not
/// due again on the same day.
pub proof fn lemma_calendar_fires_once_a_day(cal: CalendarSchedule, now: UtcDateTime, later: UtcDateTime)
    requires
        day_of(later) == day_of(now),
    ensures
        !spec_calendar_due(cal, later, Some(now)),
{
}

/// The times the scheduler keeps between ticks: each job's next cron fire time
/// and the last time each job fired.
pub struct FireTimes {
    next_fire_times: HashMap<u128, UtcDateTime>,
    last_fired: HashMap<u128, UtcDateTime>,
}

impl View for FireTimes {
    type V = (Map<u128, UtcDateTime>, Map<u128, UtcDateTime>);

    closed spec fn view(&self) -> (Map<u128, UtcDateTime>, Map<u128, UtcDateTime>) {
        (self.next_fire_times@, self.last_fired@)
    }
}

fn lookup(m: &HashMap<u128, UtcDateTime>, k: u128) -> (r: Option<UtcDateTime>)
    ensures
        r == entry(m@, k),
{
    match m.get(&k) {
        Some(t) => Some(*t),
        None => None,
    }
}

impl FireTimes {
    /// No times known yet.
    pub fn new() -> (r: Self)
        ensures
            r@.0 == Map::<u128, UtcDateTime>::empty(),
            r@.1 == Map::<u128, UtcDateTime>::empty(),
    {
        FireTimes { next_fire_times: HashMap::new(), last_fired: HashMap::new() }
    }

    /// Forgets every next fire time (after the jobs were reloaded); the last fire
    /// times stay.
    pub fn invalidate(&mut self)
        ensures
            final(self)@.0 == Map::<u128, UtcDateTime>::empty(),
            final(self)@.1 == old(self)@.1,
    {
        self.next_fire_times.clear();
    }

    /// When a job last fired, if it did.
    pub fn last_fired_at(&self, job_id: u128) -> (r: Option<UtcDateTime>)
        ensures
            r == entry(self@.1, job_id),
    {
        lookup(&self.last_fired, job_id)
    }

    /// The next time a cron job is due, if known.
    pub fn next_fire_at(&self, job_id: u128) -> (r: Option<UtcDateTime>)
        ensures
            r == entry(self@.0, job_id),
    {
        lookup(&self.next_fire_times, job_id)
    }

    /// Decides whether a cron job fires at `now`, and updates its times.
    pub fn check_cron(&mut self, job_id: u128, cron_expr: &str, now: UtcDateTime) -> (fire: bool)
        requires
            now.wf(),
            spec_prev_second(now) is Some,
            all_wf(old(self)@.0),
            all_wf(old(self)@.1),
        ensures
            ({
                let o = spec_check_cron(
                    parsed_model(cron_expr@),
                    now,
                    entry(old(self)@.0, job_id),
                    entry(old(self)@.1, job_id),
                );
                &&& fire == o.0
                &&& final(self)@.0 == put(old(self)@.0, job_id, o.1)
                &&& final(self)@.1 == put(old(self)@.1, job_id, o.2)
            }),
            all_wf(final(self)@.0),
            all_wf(final(self)@.1),
    {
        let ghost old_next = self.next_fire_times@;
        let ghost old_last = self.last_fired@;
        let fire_time = match lookup(&self.next_fire_times, job_id) {
            Some(t) => t,
            None => {
                let sched = match CronSchedule::parse(cron_expr) {
                    Ok(s) => s,
                    Err(_) => return false,
                };
                let before = match prev_second(now) {
                    Some(p) => p,
                    None => return false,
                };
                match sched.next_after(before) {
                    Some(t) => {
                        self.next_fire_times.insert(job_id, t);
                        t
                    },
                    None => return false,
                }
            },
        };
        assert(fire_time.wf());
        if dt_less(&now, &fire_time) {
            assert(self.next_fire_times@ =~= put(old_next, job_id, Some(fire_time)));
            return false;
        }
        let already = match lookup(&self.last_fired, job_id) {
            Some(l) => !dt_less(&l, &fire_time),
            None => false,
        };
        if !already {
            self.last_fired.insert(job_id, fire_time);
        }
        match CronSchedule::parse(cron_expr) {
            Ok(s) => match s.next_after(now) {
                Some(n) => {
                    self.next_fire_times.insert(job_id, n);
                },
                None => {},
            },
            Err(_) => {},
        }
        proof {
            let o = spec_check_cron(parsed_model(cron_expr@), now, entry(old_next, job_id), entry(old_last, job_id));
            assert(self.next_fire_times@ =~= put(old_next, job_id, o.1));
            assert(self.last_fired@ =~= put(old_last, job_id, o.2));
        }
        !already
    }

    /// Decides whether a calendar job fires at `now`; when it does, `now` becomes
    /// its last fire time.
    pub fn check_calendar(&mut self, job_id: u128, cal: &CalendarSchedule, now: UtcDateTime) -> (fire: bool)
        requires
            now.wf(),
            calendar_in_range(*cal, now),
            all_wf(old(self)@.1),
        ensures
            fire == spec_calendar_due(*cal, now, entry(old(self)@.1, job_id)),
            final(self)@.0 == old(self)@.0,
            final(self)@.1 == (if fire {
                old(self)@.1.insert(job_id, now)
            } else {
                old(self)@.1
            }),
            all_wf(final(self)@.1),
    {
        let last = lookup(&self.last_fired, job_id);
        let due = calendar_due(cal, now, last);
        if due {
            self.last_fired.insert(job_id, now);
        }
        due
    }
}

/// The shape of a job's schedule, as far as the tick needs it.
pub enum ScheduleShape {
    Cron,
    OneShot(UtcDateTime),
    Calendar,
    Interval,
    OnDemand,
    Event,
}

/// What a tick does with one job.
#[derive(Debug, Clone, Copy, PartialEq, Eq, Structural)]
pub enum TickAction {
    /// Nothing this tick.
    Skip,
    /// Its window has closed: mark it unscheduled.
    Expire,
    /// Run the cron check.
    CheckCron,
    /// Fire it once and mark it unscheduled.
    FireOnce,
    /// Run the calendar check.
    CheckCalendar,
    /// Run the interval check.
    CheckInterval,
}

/// What a tick does with a job: only scheduled jobs inside their window are
/// considered; an expired one is unscheduled; otherwise its schedule decides.
pub open spec fn spec_tick_action(
    scheduled: bool,
    starts_at: Option<UtcDateTime>,
    expires_at: Option<UtcDateTime>,
    now: UtcDateTime,
    shape: ScheduleShape,
) -> TickAction {
    if !scheduled {
        TickAction::Skip
    } else if starts_at matches Some(s) && dt_lt(now, s) {
        TickAction::Skip
    } else if expires_at matches Some(e) && dt_lt(e, now) {
        TickAction::Expire
    } else {
        match shape {
            ScheduleShape::Cron => TickAction::CheckCron,
            ScheduleShape::OneShot(at) => if dt_lt(now, at) {
                TickAction::Skip
            } else {
                TickAction::FireOnce
            },
            ScheduleShape::Calendar => TickAction::CheckCalendar,
            ScheduleShape::Interval => TickAction::CheckInterval,
            _ => TickAction::Skip,
        }
    }
}

/// Decides what a tick does with a job.
pub fn tick_action(
    status: crate::db::models::JobStatus,
    starts_at: Option<UtcDateTime>,
    expires_at: Option<UtcDateTime>,
    now: UtcDateTime,
    shape: &ScheduleShape,
) -> (r: TickAction)
    ensures
        r == spec_tick_action(status == crate::db::models::JobStatus::Scheduled, starts_at, expires_at, now, *shape),
{
    if status != crate::db::models::JobStatus::Scheduled {
        return TickAction::Skip;
    }
    match starts_at {
        Some(s) => {
            if dt_less(&now, &s) {
                return TickAction::Skip;
            }
        },
        None => {},
    }
    match expires_at {
        Some(e) => {
            if dt_less(&e, &now) {
                return TickAction::Expire;
            }
        },
        None => {},
    }
    match shape {
        ScheduleShape::Cron => TickAction::CheckCron,
        ScheduleShape::OneShot(at) => if dt_less(&now, at) {
            TickAction::Skip
        } else {
            TickAction::FireOnce
        },
        ScheduleShape::Calendar => TickAction::CheckCalendar,
        ScheduleShape::Interval => TickAction::CheckInterval,
        _ => TickAction::Skip,
    }
}

/// What is known of a job's latest execution.
pub enum LastRun {
    /// It could not be read.
    Unavailable,
    /// The job never ran.
    Never,
    /// Its status and, if recorded, when it finished.
    Finished(crate::db::models::ExecutionStatus, Option<UtcDateTime>),
}

/// Whether an interval job is due: never run, or its last run is over and
/// finished at least the interval ago (or without a recorded finish).
pub open spec fn spec_interval_due(last: LastRun, now: UtcDateTime, interval_secs: u64) -> bool {
    match last {
        LastRun::Unavailable => false,
        LastRun::Never => true,
        LastRun::Finished(status, finished) => if status == crate::db::models::ExecutionStatus::Running
            || status == crate::db::models::ExecutionStatus::Pending {
            false
        } else {
            match finished {
                None => true,
                Some(f) => crate::datetime::instant_secs(now) - crate::datetime::instant_secs(f) >= (interval_secs as i64) as int,
            }
        },
    }
}

/// Decides whether an interval job is due.
pub fn interval_due(last: &LastRun, now: UtcDateTime, interval_secs: u64) -> (r: bool)
    requires
        now.wf(),
        last matches LastRun::Finished(_, Some(f)) ==> f.wf(),
    ensures
        r == spec_interval_due(*last, now, interval_secs),
{
    match last {
        LastRun::Unavailable => false,
        LastRun::Never => true,
        LastRun::Finished(status, finished) => {
            if *status == crate::db::models::ExecutionStatus::Running || *status
                == crate::db::models::ExecutionStatus::Pending {
                return false;
            }
            match finished {
                None => true,
                Some(f) => {
                    let elapsed = crate::datetime::seconds_between(*f, now);
                    elapsed >= interval_secs as i64
                },
            }
        },
    }
}

/// Whether the dependencies of a job must be checked before it fires.
pub fn needs_dependency_check(skip_deps: bool, dependency_count: usize) -> (r: bool)
    ensures
        r == (!skip_deps && dependency_count > 0),
{
    !skip_deps && dependency_count > 0
}

/// Whether a job may start another run: no limit (0), or a known number of
/// running executions below the limit.
pub fn concurrency_allows(max_concurrent: u32, running: Option<u32>) -> (r: bool)
    ensures
        r == (max_concurrent == 0 || (running matches Some(c) && c < max_concurrent)),
{
    if max_concurrent == 0 {
        return true;
    }
    match running {
        Some(c) => c < max_concurrent,
        None => false,
    }
}

/// Whether an execution nobody is running any more can be marked cancelled in the
/// database: only while it is still running or pending there.
pub fn force_cancellable(status: crate::db::models::ExecutionStatus) -> (r: bool)
    ensures
        r == (status == crate::db::models::ExecutionStatus::Running || status
            == crate::db::models::ExecutionStatus::Pending),
{
    status == crate::db::models::ExecutionStatus::Running || status
        == crate::db::models::ExecutionStatus::Pending
}

/// `a` comes before `b` when jobs are ordered by priority, highest first, jobs of
/// equal priority keeping their order.
pub open spec fn ranks_before(p: Seq<i32>, a: int, b: int) -> bool {
    p[a] > p[b] || (p[a] == p[b] && a < b)
}

/// `order` lists every index of `p` once, ordered by [`ranks_before`].
pub open spec fn priority_sorted(p: Seq<i32>, order: Seq<usize>) -> bool {
    &&& order.len() == p.len()
    &&& forall|i: int| 0 <= i < order.len() ==> #[trigger] order[i] < p.len()
    &&& forall|i: int, j: int|
        0 <= i < j < order.len() ==> ranks_before(p, #[trigger] order[i] as int, #[trigger] order[j] as int)
}

/// The order in which jobs of the given priorities fire: highest priority first,
/// ties in their given order (what a stable descending sort gives).
pub fn priority_order(priorities: &Vec<i32>) -> (order: Vec<usize>)
    ensures
        priority_sorted(priorities@, order@),
{
    let ghost p = priorities@;
    let mut order: Vec<usize> = Vec::new();
    let mut k: usize = 0;
    while k < priorities.len()
        invariant
            k <= p.len(),
            p == priorities@,
            order@.len() == k,
            forall|i: int| 0 <= i < order@.len() ==> #[trigger] order@[i] < k,
            forall|i: int, j: int|
                0 <= i < j < order@.len() ==> ranks_before(p, #[trigger] order@[i] as int, #[trigger] order@[j] as int),
        decreases p.len() - k,
    {
        let pk = priorities[k];
        let mut pos: usize = 0;
        while pos < order.len() && priorities[order[pos]] >= pk
            invariant
                pos <= order@.len(),
                p == priorities@,
                k < p.len(),
                pk == p[k as int],
                forall|i: int| 0 <= i < order@.len() ==> #[trigger] order@[i] < k,
                forall|i: int| 0 <= i < pos ==> p[#[trigger] order@[i] as int] >= pk,
            decreases order.len() - pos,
        {
            pos = pos + 1;
        }
        let ghost before = order@;
        order.insert(pos, k);
        assert forall|i: int, j: int|
            0 <= i < j < order@.len() implies ranks_before(p, #[trigger] order@[i] as int, #[trigger] order@[j] as int) by {
            if j < pos {
                assert(order@[i] == before[i] && order@[j] == before[j]);
            } else if j == pos {
                assert(order@[i] == before[i]);
                assert(p[before[i] as int] >= pk);
            } else if i == pos {
                assert(order@[j] == before[j - 1]);
                assert(p[before[pos as int] as int] < pk);
                if j - 1 > pos {
                    assert(ranks_before(p, before[pos as int] as int, before[j - 1] as int));
                }
            } else if i < pos {
                assert(order@[i] == before[i] && order@[j] == before[j - 1]);
            } else {
                assert(order@[i] == before[i - 1] && order@[j] == before[j - 1]);
            }
        }
        k = k + 1;
    }
    order
}


/// An interval job whose latest execution is still pending or running is not
/// due, however long ago that execution was recorded and whatever the interval.
pub proof fn lemma_unfinished_run_blocks_interval(
    status: crate::db::models::ExecutionStatus,
    finished: Option<UtcDateTime>,
    now: UtcDateTime,
    interval_secs: u64,
)
    requires
        status == crate::db::models::ExecutionStatus::Pending || status
            == crate::db::models::ExecutionStatus::Running,
    ensures
        !spec_interval_due(LastRun::Finished(status, finished), now, interval_secs),
{
}


/// A calendar rule that skips weekends never fires on a Saturday or a Sunday:
/// whenever it is due, the day it fires is a weekday.
pub proof fn lemma_skip_weekends_never_on_weekend(
    cal: CalendarSchedule,
    now: UtcDateTime,
    last_fired: Option<UtcDateTime>,
)
    requires
        cal.skip_weekends,
        spec_calendar_due(cal, now, last_fired),
    ensures
        crate::datetime::weekday_from_sunday(now.year as int, now.month as int, now.day as int) != 0,
        crate::datetime::weekday_from_sunday(now.year as int, now.month as int, now.day as int) != 6,
{
    let t = spec_anchor(cal, now.year as int, now.month as int)->Some_0;
    let n = days_from_civil(t.0, t.1, t.2) + cal.offset_days;
    crate::datetime::lemma_days_civil_round_trip(n);
    assert(civil_from_days(n) == day_of(now));
    assert(days_from_civil(now.year as int, now.month as int, now.day as int) == n);
}
} // verus!
