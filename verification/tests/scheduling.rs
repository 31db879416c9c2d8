use kronforce::datetime::{dt_less, weekday_from_monday, CalDate, UtcDateTime};
use kronforce::db::models::{ExecutionStatus, JobStatus};
use kronforce::scheduler::calendar::{last_weekday_of_month, nth_weekday_of_month, parse_weekday, Weekday};
use kronforce::scheduler::tick::{
    calendar_due, concurrency_allows, force_cancellable, interval_due, needs_dependency_check,
    priority_order, tick_action, CalendarSchedule, FireTimes, LastRun, ScheduleShape, TickAction,
};

fn at(y: i32, mo: u32, d: u32, h: u32, mi: u32, s: u32) -> UtcDateTime {
    UtcDateTime::from_ymd_hms(y, mo, d, h, mi, s).unwrap()
}

fn cal(anchor: &str) -> CalendarSchedule {
    CalendarSchedule {
        anchor: anchor.to_string(),
        nth: None,
        weekday: None,
        hour: 9,
        minute: 30,
        offset_days: 0,
        skip_weekends: false,
        holidays: vec![],
        months: vec![],
    }
}

#[test]
fn weekday_names() {
    assert!(parse_weekday("Tuesday") == Weekday::Tue);
    assert!(parse_weekday("SUN") == Weekday::Sun);
    assert!(parse_weekday("someday") == Weekday::Mon);
}

#[test]
fn nth_and_last_weekdays() {
    let d = nth_weekday_of_month(2024, 1, Weekday::Tue, 2).unwrap();
    assert_eq!((d.year, d.month, d.day), (2024, 1, 9));
    assert!(nth_weekday_of_month(2024, 2, Weekday::Thu, 5).is_some());
    assert!(nth_weekday_of_month(2024, 2, Weekday::Fri, 5).is_none());
    assert!(nth_weekday_of_month(2024, 2, Weekday::Fri, 0).is_none());
    let d = last_weekday_of_month(2024, 2, Weekday::Fri).unwrap();
    assert_eq!((d.year, d.month, d.day), (2024, 2, 23));
    let d = last_weekday_of_month(2023, 12, Weekday::Sun).unwrap();
    assert_eq!((d.year, d.month, d.day), (2023, 12, 31));
}

#[test]
fn calendar_rules() {
    let now = at(2024, 1, 31, 10, 0, 0);
    assert!(calendar_due(&cal("last_day"), now, None));
    assert!(!calendar_due(&cal("last_day"), at(2024, 1, 31, 9, 0, 0), None));
    assert!(!calendar_due(&cal("last_day"), now, Some(at(2024, 1, 31, 9, 30, 0))));
    assert!(calendar_due(&cal("day_15"), at(2024, 3, 15, 9, 30, 0), None));
    assert!(!calendar_due(&cal("day_15"), at(2024, 3, 16, 9, 30, 0), None));
    assert!(calendar_due(&cal("first_monday"), at(2024, 4, 1, 12, 0, 0), None));
    assert!(calendar_due(&cal("last_friday"), at(2024, 5, 31, 12, 0, 0), None));
    let mut c = cal("nth_weekday");
    c.nth = Some(2);
    c.weekday = Some("wed".to_string());
    assert!(calendar_due(&c, at(2024, 5, 8, 9, 30, 0), None));
    let mut c = cal("day_1");
    c.offset_days = -1;
    assert!(calendar_due(&c, at(2024, 6, 30, 9, 45, 0), None) == false);
    let mut c = cal("last_day");
    c.months = vec![2];
    assert!(!calendar_due(&c, now, None));
    let mut c = cal("day_6");
    c.skip_weekends = true;
    assert!(!calendar_due(&c, at(2024, 1, 6, 10, 0, 0), None));
    let mut c = cal("day_2");
    c.holidays = vec!["2024-01-02".to_string()];
    assert!(!calendar_due(&c, at(2024, 1, 2, 10, 0, 0), None));
}

#[test]
fn cron_fire_times() {
    let mut ft = FireTimes::new();
    let t0 = at(2024, 1, 1, 0, 0, 30);
    assert!(!ft.check_cron(7, "0 * * * * *", t0));
    assert_eq!(ft.next_fire_at(7), Some(at(2024, 1, 1, 0, 1, 0)));
    assert!(ft.check_cron(7, "0 * * * * *", at(2024, 1, 1, 0, 1, 0)));
    assert_eq!(ft.last_fired_at(7), Some(at(2024, 1, 1, 0, 1, 0)));
    assert_eq!(ft.next_fire_at(7), Some(at(2024, 1, 1, 0, 2, 0)));
    assert!(!ft.check_cron(8, "bad cron", t0));
    ft.invalidate();
    assert_eq!(ft.next_fire_at(7), None);
    assert!(!ft.check_cron(7, "0 * * * * *", at(2024, 1, 1, 0, 1, 0)));
    assert!(ft.check_cron(9, "0 * * * * *", at(2024, 1, 1, 0, 1, 0)));
}

#[test]
fn calendar_fire_times() {
    let mut ft = FireTimes::new();
    let now = at(2024, 1, 31, 10, 0, 0);
    assert!(ft.check_calendar(1, &cal("last_day"), now));
    assert!(!ft.check_calendar(1, &cal("last_day"), at(2024, 1, 31, 11, 0, 0)));
}

#[test]
fn tick_actions() {
    let now = at(2024, 1, 1, 12, 0, 0);
    assert!(tick_action(JobStatus::Paused, None, None, now, &ScheduleShape::Cron) == TickAction::Skip);
    assert!(tick_action(JobStatus::Scheduled, Some(at(2024, 2, 1, 0, 0, 0)), None, now, &ScheduleShape::Cron) == TickAction::Skip);
    assert!(tick_action(JobStatus::Scheduled, None, Some(at(2023, 12, 1, 0, 0, 0)), now, &ScheduleShape::Cron) == TickAction::Expire);
    assert!(tick_action(JobStatus::Scheduled, None, None, now, &ScheduleShape::OneShot(at(2024, 1, 1, 11, 0, 0))) == TickAction::FireOnce);
    assert!(tick_action(JobStatus::Scheduled, None, None, now, &ScheduleShape::OneShot(at(2024, 1, 2, 0, 0, 0))) == TickAction::Skip);
    assert!(tick_action(JobStatus::Scheduled, None, None, now, &ScheduleShape::Event) == TickAction::Skip);
    assert!(tick_action(JobStatus::Scheduled, None, None, now, &ScheduleShape::Interval) == TickAction::CheckInterval);
}

#[test]
fn interval_and_gates() {
    let now = at(2024, 1, 1, 12, 0, 0);
    assert!(interval_due(&LastRun::Never, now, 60));
    assert!(!interval_due(&LastRun::Unavailable, now, 60));
    assert!(!interval_due(&LastRun::Finished(ExecutionStatus::Running, None), now, 60));
    assert!(interval_due(&LastRun::Finished(ExecutionStatus::Succeeded, Some(at(2024, 1, 1, 11, 59, 0))), now, 60));
    assert!(!interval_due(&LastRun::Finished(ExecutionStatus::Failed, Some(at(2024, 1, 1, 11, 59, 30))), now, 60));
    assert!(interval_due(&LastRun::Finished(ExecutionStatus::Failed, None), now, 60));
    assert!(needs_dependency_check(false, 2));
    assert!(!needs_dependency_check(true, 2));
    assert!(concurrency_allows(0, None));
    assert!(!concurrency_allows(2, Some(2)));
    assert!(concurrency_allows(2, Some(1)));
    assert!(!concurrency_allows(2, None));
    assert!(force_cancellable(ExecutionStatus::Pending));
    assert!(!force_cancellable(ExecutionStatus::Succeeded));
}

#[test]
fn priorities_order_jobs() {
    assert_eq!(priority_order(&vec![1, 5, 1, 7]), vec![3, 1, 0, 2]);
    assert_eq!(priority_order(&vec![]), Vec::<usize>::new());
}

#[test]
fn cron_does_not_fire_twice_at_one_instant() {
    let mut ft = FireTimes::new();
    assert!(!ft.check_cron(3, "0 */5 * * * *", at(2024, 3, 1, 8, 4, 59)));
    let now = at(2024, 3, 1, 8, 5, 0);
    assert!(ft.check_cron(3, "0 */5 * * * *", now));
    assert!(!ft.check_cron(3, "0 */5 * * * *", now));
    assert_eq!(ft.last_fired_at(3), Some(now));
    assert_eq!(ft.next_fire_at(3), Some(at(2024, 3, 1, 8, 10, 0)));
}

#[test]
fn dates_and_weekdays() {
    assert!(UtcDateTime::from_ymd_hms(2023, 2, 29, 0, 0, 0).is_none());
    assert!(UtcDateTime::from_ymd_hms(2024, 2, 29, 23, 59, 59).is_some());
    assert!(UtcDateTime::from_ymd_hms(2024, 1, 1, 24, 0, 0).is_none());
    assert_eq!(at(2024, 1, 7, 0, 0, 0).weekday_from_sunday(), 0);
    assert_eq!(at(2024, 1, 10, 0, 0, 0).weekday_from_sunday(), 3);
    assert_eq!(weekday_from_monday(CalDate { year: 2024, month: 1, day: 1 }), 0);
    assert_eq!(weekday_from_monday(CalDate { year: 2000, month: 2, day: 27 }), 6);
    assert_eq!(Weekday::Sun.num_days_from_monday(), 6);
    assert!(dt_less(&at(2024, 1, 1, 0, 0, 59), &at(2024, 1, 1, 0, 1, 0)));
    assert!(!dt_less(&at(2024, 1, 1, 0, 1, 0), &at(2024, 1, 1, 0, 1, 0)));
}

#[test]
fn first_tick_counts_a_fire_time_at_now() {
    let mut ft = FireTimes::new();
    assert!(ft.check_cron(4, "0 0 0 1 1 *", at(2025, 1, 1, 0, 0, 0)));
    assert_eq!(ft.next_fire_at(4), Some(at(2026, 1, 1, 0, 0, 0)));
}

#[test]
fn calendar_offsets_cross_months() {
    let mut c = cal("day_1");
    c.offset_days = -1;
    assert!(calendar_due(&c, at(2024, 2, 29, 9, 45, 0), None) == false);
    let mut c = cal("last_day");
    c.offset_days = 1;
    assert!(!calendar_due(&c, at(2024, 2, 1, 9, 45, 0), None));
    let mut c = cal("day_31");
    c.offset_days = 1;
    assert!(!calendar_due(&c, at(2024, 4, 1, 10, 0, 0), None));
    let mut c = cal("day_30");
    c.holidays = vec!["2024-04-30".to_string()];
    assert!(!calendar_due(&c, at(2024, 4, 30, 10, 0, 0), None));
    c.holidays = vec!["2024-4-30".to_string()];
    assert!(calendar_due(&c, at(2024, 4, 30, 10, 0, 0), None));
}
