//! Reminder scheduler tests: first-run suppression, the one-shot
//! de-duplicated firing across a week boundary, and the disabled
//! no-op.
use chrono::TimeZone;
use tria::reminder::ReminderState;

fn local_ms(y: i32, mo: u32, d: u32, h: u32, mi: u32, s: u32) -> i64 {
    chrono::Local.with_ymd_and_hms(y, mo, d, h, mi, s).unwrap().timestamp_millis()
}

fn state(enabled: bool, last_checked: i64) -> ReminderState {
    ReminderState {
        enabled,
        last_checked_at_millis: last_checked,
        last_shown_weekly_key: String::new(),
        last_shown_monthly_key: String::new(),
    }
}

#[test]
fn test_detect_never_checked() {
    // A last-checked sentinel of 0 never reports a change.
    for now in [0i64, 1, 1766707200000, -5, i64::MAX] {
        assert_eq!(tria::reminder::detect_period_change(0, now, 2), Ok((false, false)));
    }
}

#[test]
fn test_detect_week_and_month_changes() {
    let fri = local_ms(2025, 12, 26, 10, 0, 0);
    let sat = local_ms(2025, 12, 27, 10, 0, 0);
    let mon = local_ms(2025, 12, 29, 10, 0, 0);
    let jan = local_ms(2026, 1, 2, 10, 0, 0);
    // Same Monday-start week, same month.
    assert_eq!(tria::reminder::detect_period_change(fri, sat, 2), Ok((false, false)));
    // Next Monday-start week, same month.
    assert_eq!(tria::reminder::detect_period_change(fri, mon, 2), Ok((true, false)));
    // Week and month both changed.
    assert_eq!(tria::reminder::detect_period_change(fri, jan, 2), Ok((true, true)));
    // With Saturday weeks, Friday and Saturday are different weeks.
    assert_eq!(tria::reminder::detect_period_change(fri, sat, 7), Ok((true, false)));
    // Invalid week-start setting.
    assert_eq!(
        tria::reminder::detect_period_change(fri, sat, 0),
        Err(tria::period::PeriodError::InvalidWeekStartConfig)
    );
}

#[test]
fn test_check_fires_once_across_week_change() {
    // Last check on Friday 2025-12-26, now Monday 2025-12-29: the week
    // changed (Monday weeks), the month did not.
    let last = local_ms(2025, 12, 26, 9, 0, 0);
    let now = local_ms(2025, 12, 29, 9, 0, 0);
    let st = state(true, last);

    let outcome = tria::reminder::check_step(&st, now, 2).unwrap();
    let ev = outcome.event.expect("a weekly reminder is owed");
    assert!(ev.has_weekly_change);
    assert!(!ev.has_monthly_change);
    assert_eq!(ev.current_week_key, "2026-W01");
    assert_eq!(outcome.state.last_shown_weekly_key, "2026-W01");
    assert_eq!(outcome.state.last_shown_monthly_key, "");
    assert_eq!(outcome.state.last_checked_at_millis, now);
    assert!(outcome.state.enabled);

    // A second check at the same instant sees no period change and
    // emits nothing; the state only re-records the check instant.
    let outcome2 = tria::reminder::check_step(&outcome.state, now, 2).unwrap();
    assert!(outcome2.event.is_none());
    assert_eq!(outcome2.state.last_shown_weekly_key, "2026-W01");
    assert_eq!(outcome2.state.last_checked_at_millis, now);
}

#[test]
fn test_check_deduplicates_by_stored_key() {
    // Even if the last-checked instant still lies in the old week (a
    // persist of it failed, say), a week key that was already shown is
    // not shown again.
    let last = local_ms(2025, 12, 26, 9, 0, 0);
    let now = local_ms(2025, 12, 29, 9, 0, 0);
    let st = ReminderState {
        enabled: true,
        last_checked_at_millis: last,
        last_shown_weekly_key: "2026-W01".to_string(),
        last_shown_monthly_key: String::new(),
    };
    let outcome = tria::reminder::check_step(&st, now, 2).unwrap();
    assert!(outcome.event.is_none());
    assert_eq!(outcome.state.last_shown_weekly_key, "2026-W01");
    assert_eq!(outcome.state.last_checked_at_millis, now);
}

#[test]
fn test_check_combined_weekly_and_monthly() {
    // December into January: one event carries both flags and keys.
    let last = local_ms(2025, 12, 26, 9, 0, 0);
    let now = local_ms(2026, 1, 2, 9, 0, 0);
    let st = state(true, last);
    let outcome = tria::reminder::check_step(&st, now, 2).unwrap();
    let ev = outcome.event.expect("both reminders are owed");
    assert!(ev.has_weekly_change);
    assert!(ev.has_monthly_change);
    assert_eq!(ev.current_week_key, "2026-W01");
    assert_eq!(ev.current_month_key, "2026-01");
    assert_eq!(outcome.state.last_shown_weekly_key, "2026-W01");
    assert_eq!(outcome.state.last_shown_monthly_key, "2026-01");
}

#[test]
fn test_check_disabled_changes_nothing() {
    // Disabled: no event and no state mutation, not even the
    // last-checked instant.
    let last = local_ms(2025, 12, 26, 9, 0, 0);
    let now = local_ms(2026, 1, 2, 9, 0, 0);
    let st = ReminderState {
        enabled: false,
        last_checked_at_millis: last,
        last_shown_weekly_key: "w".to_string(),
        last_shown_monthly_key: "m".to_string(),
    };
    let outcome = tria::reminder::check_step(&st, now, 2).unwrap();
    assert!(outcome.event.is_none());
    assert!(!outcome.state.enabled);
    assert_eq!(outcome.state.last_checked_at_millis, last);
    assert_eq!(outcome.state.last_shown_weekly_key, "w");
    assert_eq!(outcome.state.last_shown_monthly_key, "m");
}

#[test]
fn test_check_first_run_records_only() {
    // First run (sentinel 0): nothing fires, but the check instant is
    // recorded so the second check onward can detect changes.
    let now = local_ms(2025, 12, 29, 9, 0, 0);
    let st = state(true, 0);
    let outcome = tria::reminder::check_step(&st, now, 2).unwrap();
    assert!(outcome.event.is_none());
    assert_eq!(outcome.state.last_checked_at_millis, now);
    assert_eq!(outcome.state.last_shown_weekly_key, "");
}

#[test]
fn test_check_rejects_bad_week_start() {
    let now = local_ms(2025, 12, 29, 9, 0, 0);
    let st = state(true, 0);
    assert!(matches!(
        tria::reminder::check_step(&st, now, 8),
        Err(tria::period::PeriodError::InvalidWeekStartConfig)
    ));
    assert!(matches!(
        tria::reminder::check_step(&state(true, i64::MAX - 7), now, 2),
        Err(tria::period::PeriodError::InvalidTimestamp)
    ));
}
