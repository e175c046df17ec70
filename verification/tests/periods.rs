//! Period boundary tests at the timestamp level, driven through the
//! public queries with instants built in the machine's local zone.
use chrono::Datelike;
use chrono::TimeZone;
use chrono::Timelike;

fn local_ms(y: i32, mo: u32, d: u32, h: u32, mi: u32, s: u32) -> i64 {
    chrono::Local.with_ymd_and_hms(y, mo, d, h, mi, s).unwrap().timestamp_millis()
}

fn local_of_ms(ms: i64) -> chrono::DateTime<chrono::Local> {
    chrono::DateTime::from_timestamp_millis(ms).unwrap().with_timezone(&chrono::Local)
}

#[test]
fn test_is_same_day() {
    let dt1 = local_ms(2025, 12, 27, 10, 0, 0);
    let dt2 = local_ms(2025, 12, 27, 15, 30, 0);
    let dt3 = local_ms(2025, 12, 28, 10, 0, 0);

    assert!(tria::period::is_goal_in_period(dt1, "daily".to_string(), dt2, 2).unwrap());
    assert!(!tria::period::is_goal_in_period(dt1, "daily".to_string(), dt3, 2).unwrap());
}

#[test]
fn test_is_same_week() {
    // Week starting on Monday (week_start = 2)
    let monday = local_ms(2025, 12, 22, 10, 0, 0);
    let friday = local_ms(2025, 12, 26, 10, 0, 0);
    let next_monday = local_ms(2025, 12, 29, 10, 0, 0);

    assert!(tria::period::is_goal_in_period(monday, "weekly".to_string(), friday, 2).unwrap());
    assert!(!tria::period::is_goal_in_period(monday, "weekly".to_string(), next_monday, 2).unwrap());
}

#[test]
fn test_is_same_month() {
    let dt1 = local_ms(2025, 12, 1, 10, 0, 0);
    let dt2 = local_ms(2025, 12, 31, 15, 30, 0);
    let dt3 = local_ms(2026, 1, 1, 10, 0, 0);

    assert!(tria::period::is_goal_in_period(dt1, "monthly".to_string(), dt2, 2).unwrap());
    assert!(!tria::period::is_goal_in_period(dt1, "monthly".to_string(), dt3, 2).unwrap());
}

#[test]
fn test_get_week_start_monday() {
    // December 26, 2025 is a Friday
    let friday = local_ms(2025, 12, 26, 15, 30, 0);
    let week_start_ms = tria::period::get_period_start(friday, "weekly".to_string(), 2).unwrap();
    let week_start = local_of_ms(week_start_ms);

    // Should be December 22, 2025 (Monday)
    assert_eq!(week_start.year(), 2025);
    assert_eq!(week_start.month(), 12);
    assert_eq!(week_start.day(), 22);
    assert_eq!(week_start.hour(), 0);
    assert_eq!(week_start.minute(), 0);
    assert_eq!(week_start.second(), 0);
}

#[test]
fn test_get_week_start_all_days() {
    // December 26, 2025 is a Friday
    let friday = local_ms(2025, 12, 26, 15, 30, 0);

    // Test all week start days
    let tests = vec![
        (1, 21), // Sunday -> Dec 21 (Sunday)
        (2, 22), // Monday -> Dec 22 (Monday)
        (3, 23), // Tuesday -> Dec 23 (Tuesday)
        (4, 24), // Wednesday -> Dec 24 (Wednesday)
        (5, 25), // Thursday -> Dec 25 (Thursday)
        (6, 26), // Friday -> Dec 26 (Friday, same day)
        (7, 20), // Saturday -> Dec 20 (Saturday)
    ];

    for (week_start, expected_day) in tests {
        let ms = tria::period::get_period_start(friday, "weekly".to_string(), week_start).unwrap();
        let week_start_dt = local_of_ms(ms);
        assert_eq!(week_start_dt.day(), expected_day, "week_start={}", week_start);
        assert_eq!(week_start_dt.month(), 12);
        assert_eq!(week_start_dt.year(), 2025);
    }
}

#[test]
fn test_get_month_start() {
    let dt = local_ms(2025, 12, 27, 15, 30, 0);
    let month_start_ms = tria::period::get_period_start(dt, "monthly".to_string(), 2).unwrap();
    let month_start = local_of_ms(month_start_ms);

    assert_eq!(month_start.year(), 2025);
    assert_eq!(month_start.month(), 12);
    assert_eq!(month_start.day(), 1);
    assert_eq!(month_start.hour(), 0);
    assert_eq!(month_start.minute(), 0);
    assert_eq!(month_start.second(), 0);
}

#[test]
fn test_get_day_start() {
    let dt = local_ms(2025, 12, 27, 15, 30, 0);
    let day_start = local_of_ms(tria::period::get_period_start(dt, "daily".to_string(), 2).unwrap());
    assert_eq!(day_start.year(), 2025);
    assert_eq!(day_start.month(), 12);
    assert_eq!(day_start.day(), 27);
    assert_eq!(day_start.hour(), 0);
}

#[test]
fn test_period_errors() {
    let dt = local_ms(2025, 12, 27, 15, 30, 0);
    assert_eq!(
        tria::period::is_goal_in_period(dt, "yearly".to_string(), dt, 2),
        Err(tria::period::PeriodError::InvalidLevel)
    );
    assert_eq!(
        tria::period::is_goal_in_period(dt, "weekly".to_string(), dt, 9),
        Err(tria::period::PeriodError::InvalidWeekStartConfig)
    );
    assert_eq!(
        tria::period::is_goal_in_period(i64::MAX, "weekly".to_string(), dt, 2),
        Err(tria::period::PeriodError::InvalidTimestamp)
    );
    assert_eq!(
        tria::period::get_period_start(dt, "yearly".to_string(), 2),
        Err(tria::period::PeriodError::InvalidLevel)
    );
    assert_eq!(
        tria::period::get_period_start(dt, "weekly".to_string(), 0),
        Err(tria::period::PeriodError::InvalidWeekStartConfig)
    );
    assert_eq!(
        tria::period::get_period_start(i64::MIN, "daily".to_string(), 2),
        Err(tria::period::PeriodError::InvalidTimestamp)
    );
    // An unconvertible instant is reported before a bad level, as the
    // conversion comes first.
    assert_eq!(
        tria::period::is_goal_in_period(i64::MAX, "yearly".to_string(), dt, 2),
        Err(tria::period::PeriodError::InvalidTimestamp)
    );
}

#[test]
fn test_week_start_date_level() {
    // The date-level calculator agrees with the calendar: week start of
    // Friday 2025-12-26 under Monday weeks is Monday 2025-12-22, and
    // taking the week start twice changes nothing.
    let friday = tria::calendar::LocalDate::from_ymd(2025, 12, 26).unwrap();
    let ws = friday.week_start_date(2);
    assert_eq!((ws.year, ws.month, ws.day), (2025, 12, 22));
    let ws2 = ws.week_start_date(2);
    assert_eq!((ws2.year, ws2.month, ws2.day), (2025, 12, 22));
    assert!(ws.same_week(&friday, 2));
    assert!(friday.same_day(&friday));
    assert!(!ws.same_day(&friday));
    assert!(ws.same_month(&friday));
}

#[test]
fn test_leap_year_boundaries() {
    // 2024 is a leap year: Feb 29 exists and the month start works.
    let feb29 = tria::calendar::LocalDate::from_ymd(2024, 2, 29).unwrap();
    assert_eq!(feb29.month_start_date().day, 1);
    assert!(tria::calendar::LocalDate::from_ymd(2025, 2, 29).is_none());
    assert!(tria::calendar::LocalDate::from_ymd(1900, 2, 29).is_none());
    assert!(tria::calendar::LocalDate::from_ymd(2000, 2, 29).is_some());
    // Day numbers are contiguous across the leap day.
    let feb28 = tria::calendar::LocalDate::from_ymd(2024, 2, 28).unwrap();
    let mar1 = tria::calendar::LocalDate::from_ymd(2024, 3, 1).unwrap();
    assert_eq!(feb28.days + 1, feb29.days);
    assert_eq!(feb29.days + 1, mar1.days);
}
