use kronforce::datetime::UtcDateTime;
use kronforce::scheduler::cron_parser::CronSchedule;

fn at(y: i32, mo: u32, d: u32, h: u32, mi: u32, s: u32) -> UtcDateTime {
    UtcDateTime::from_ymd_hms(y, mo, d, h, mi, s).unwrap()
}

#[test]
fn test_every_second() {
    let cron = CronSchedule::parse("* * * * * *").unwrap();
    let base = at(2024, 1, 1, 0, 0, 0);
    let next = cron.next_after(base).unwrap();
    assert_eq!(next, at(2024, 1, 1, 0, 0, 1));
}

#[test]
fn test_every_minute() {
    let cron = CronSchedule::parse("0 * * * * *").unwrap();
    let base = at(2024, 1, 1, 0, 0, 30);
    let next = cron.next_after(base).unwrap();
    assert_eq!(next, at(2024, 1, 1, 0, 1, 0));
}

#[test]
fn test_specific_time() {
    let cron = CronSchedule::parse("0 30 14 * * *").unwrap();
    let base = at(2024, 1, 1, 12, 0, 0);
    let next = cron.next_after(base).unwrap();
    assert_eq!(next, at(2024, 1, 1, 14, 30, 0));
}

#[test]
fn test_step() {
    let cron = CronSchedule::parse("*/15 * * * * *").unwrap();
    let base = at(2024, 1, 1, 0, 0, 10);
    let next = cron.next_after(base).unwrap();
    assert_eq!(next, at(2024, 1, 1, 0, 0, 15));
}

#[test]
fn test_invalid_field_count() {
    assert!(CronSchedule::parse("* * * * *").is_err());
}
