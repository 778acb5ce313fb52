use valedesk_core::schedule::{
    calculate_next_run, is_recurring_schedule, parse_schedule, valid_date, NextRun, Schedule, Unit,
};
use valedesk_core::schedule::should_notify;
use valedesk_core::schedule::after_run;
use valedesk_core::schedule::AfterRun;

#[test]
fn recurring_schedules() {
    assert!(is_recurring_schedule("every 10m"));
    assert!(is_recurring_schedule("daily 09:00"));
    assert!(is_recurring_schedule("everything"));
    assert!(!is_recurring_schedule("5m"));
    assert!(!is_recurring_schedule("2026-01-20 15:30"));
    assert!(!is_recurring_schedule(" every 1h"));
    assert!(!is_recurring_schedule(""));
}

#[test]
fn delays() {
    assert_eq!(parse_schedule("1m"), Some(Schedule::After { amount: 1, unit: Unit::Minutes }));
    assert_eq!(parse_schedule("2h"), Some(Schedule::After { amount: 2, unit: Unit::Hours }));
    assert_eq!(parse_schedule("007d"), Some(Schedule::After { amount: 7, unit: Unit::Days }));
    assert_eq!(parse_schedule("0m"), Some(Schedule::After { amount: 0, unit: Unit::Minutes }));
    assert_eq!(
        parse_schedule("9223372036854775807m"),
        Some(Schedule::After { amount: i64::MAX, unit: Unit::Minutes })
    );
    assert_eq!(parse_schedule("9223372036854775808m"), None);
    assert_eq!(parse_schedule("99999999999999999999999m"), None);
}

#[test]
fn intervals() {
    assert_eq!(parse_schedule("every 10m"), Some(Schedule::Every { amount: 10, unit: Unit::Minutes }));
    assert_eq!(parse_schedule("every 1d"), Some(Schedule::Every { amount: 1, unit: Unit::Days }));
    assert_eq!(parse_schedule("every  1d"), None);
    assert_eq!(parse_schedule("every 1"), None);
    assert_eq!(parse_schedule("every m"), None);
    assert_eq!(parse_schedule("every 99999999999999999999h"), None);
}

#[test]
fn times_of_day() {
    assert_eq!(parse_schedule("daily 09:00"), Some(Schedule::Daily { hours: 9, minutes: 0 }));
    assert_eq!(parse_schedule("daily 23:59"), Some(Schedule::Daily { hours: 23, minutes: 59 }));
    assert_eq!(parse_schedule("daily 24:00"), None);
    assert_eq!(parse_schedule("daily 12:60"), None);
    assert_eq!(parse_schedule("daily 9:00"), None);
    assert_eq!(parse_schedule("daily 09-00"), None);
    assert_eq!(parse_schedule("daily 09:000"), None);
}

#[test]
fn dates() {
    assert_eq!(
        parse_schedule("2026-01-20 15:30"),
        Some(Schedule::At { year: 2026, month: 1, day: 20, hours: 15, minutes: 30 })
    );
    assert_eq!(
        parse_schedule("2024-02-29 00:00"),
        Some(Schedule::At { year: 2024, month: 2, day: 29, hours: 0, minutes: 0 })
    );
    assert_eq!(parse_schedule("2023-02-29 00:00"), None);
    assert_eq!(parse_schedule("2026-13-01 00:00"), None);
    assert_eq!(parse_schedule("2026-00-01 00:00"), None);
    assert_eq!(parse_schedule("2026-04-31 00:00"), None);
    assert_eq!(parse_schedule("2026-01-20T15:30"), None);
    assert_eq!(parse_schedule("2026-01-20 25:30"), None);
    assert_eq!(parse_schedule("2026/01/20 15:30"), None);
}

#[test]
fn the_calendar() {
    assert!(valid_date(2000, 2, 29));
    assert!(!valid_date(1900, 2, 29));
    assert!(valid_date(2026, 12, 31));
    assert!(!valid_date(2026, 11, 31));
    assert!(!valid_date(2026, 1, 0));
    assert!(!valid_date(2026, 0, 1));
}

#[test]
fn what_is_no_schedule() {
    for s in ["", "m", "5", "5x", "5 m", " 5m", "5m ", "5m\n", "-5m", "٣m", "daily", "tomorrow", "5M"] {
        assert_eq!(parse_schedule(s), None, "{:?}", s);
        assert_eq!(calculate_next_run(s, 0), NextRun::Invalid);
    }
}

#[test]
fn the_next_run_of_a_delay() {
    assert_eq!(calculate_next_run("5m", 1_000), NextRun::At(301_000));
    assert_eq!(calculate_next_run("1h", 0), NextRun::At(3_600_000));
    assert_eq!(calculate_next_run("1d", -86_400_000), NextRun::At(0));
    assert_eq!(calculate_next_run("every 10m", 7), NextRun::At(600_007));
    assert_eq!(calculate_next_run("every 2d", 0), NextRun::At(172_800_000));
    assert_eq!(calculate_next_run("0m", 42), NextRun::At(42));
}

#[test]
fn the_next_run_beyond_the_clock() {
    assert_eq!(calculate_next_run("9223372036854775807m", 0), NextRun::Invalid);
    assert_eq!(calculate_next_run("153722867280912m", 0), NextRun::At(153_722_867_280_912 * 60_000));
    assert_eq!(calculate_next_run("153722867280913m", 0), NextRun::Invalid);
    assert_eq!(calculate_next_run("1m", i64::MAX), NextRun::Invalid);
    assert_eq!(calculate_next_run("1m", i64::MAX - 60_000), NextRun::At(i64::MAX));
}

#[test]
fn local_times_are_left_to_the_caller() {
    assert_eq!(calculate_next_run("daily 14:30", 5), NextRun::DailyAt { hours: 14, minutes: 30 });
    assert_eq!(
        calculate_next_run("2026-01-20 15:30", 5),
        NextRun::LocalAt { year: 2026, month: 1, day: 20, hours: 15, minutes: 30 }
    );
}

#[test]
fn advance_notices() {
    let run = 10_000_000;
    assert!(should_notify(run - 600_000, run, Some(10), false));
    assert!(should_notify(run - 1, run, Some(10), false));
    assert!(!should_notify(run - 600_001, run, Some(10), false));
    assert!(!should_notify(run, run, Some(10), false));
    assert!(!should_notify(run - 1, run, Some(10), true));
    assert!(!should_notify(run - 1, run, None, false));
    assert!(!should_notify(run - 1, run, Some(0), false));
    assert!(should_notify(i64::MIN, 0, Some(i64::MAX), false));
    assert!(!should_notify(0, 1, Some(i64::MIN), false));
}

#[test]
fn what_becomes_of_a_task_that_ran() {
    assert_eq!(after_run(false, "5m", 0), AfterRun::Disable);
    assert_eq!(after_run(true, "every 5m", 1), AfterRun::Reschedule(NextRun::At(300_001)));
    assert_eq!(
        after_run(true, "daily 08:15", 1),
        AfterRun::Reschedule(NextRun::DailyAt { hours: 8, minutes: 15 })
    );
    assert_eq!(after_run(true, "every now and then", 1), AfterRun::Keep);
}
