//! Period key and settings-codec tests, including the year-boundary
//! week keys and a cross-check against chrono's ISO week numbering.
use chrono::Datelike;
use tria::models::GoalLevel;

fn date(y: i32, m: u8, d: u8) -> tria::calendar::LocalDate {
    tria::calendar::LocalDate::from_ymd(y, m, d).unwrap()
}

#[test]
fn test_week_key_values() {
    // Friday 2025-12-26, Monday weeks: the week of Monday 2025-12-22,
    // ISO week 52 of 2025.
    assert_eq!(date(2025, 12, 26).week_key(2).unwrap(), "2025-W52");
    // The next Monday starts ISO week 1 of 2026 even though the date
    // is still in 2025: the key follows the week's own start.
    assert_eq!(date(2025, 12, 29).week_key(2).unwrap(), "2026-W01");
    // A date inside that same configured week gets the same key across
    // the year boundary.
    assert_eq!(date(2026, 1, 1).week_key(2).unwrap(), "2026-W01");
}

#[test]
fn test_week_key_matches_chrono_iso_week() {
    // The verified ISO week computation agrees with chrono's over a
    // range of week starts (Monday weeks make the start the ISO
    // anchor itself).
    for offset in 0..400i64 {
        let nd = chrono::NaiveDate::from_ymd_opt(2024, 1, 1).unwrap()
            + chrono::Duration::days(offset);
        let d = date(nd.year(), nd.month() as u8, nd.day() as u8);
        let ws = d.week_start_date(2);
        let ws_nd =
            chrono::NaiveDate::from_ymd_opt(ws.year, ws.month as u32, ws.day as u32).unwrap();
        let expected = format!("{}-W{:02}", ws_nd.iso_week().year(), ws_nd.iso_week().week());
        assert_eq!(d.week_key(2).unwrap(), expected, "offset={}", offset);
    }
}

#[test]
fn test_month_key_values() {
    assert_eq!(date(2025, 12, 26).month_key().unwrap(), "2025-12");
    assert_eq!(date(2026, 1, 1).month_key().unwrap(), "2026-01");
    assert_eq!(date(987, 3, 7).month_key().unwrap(), "987-03");
}

#[test]
fn test_week_key_separates_weeks() {
    // Same configured week, same key; different week, different key.
    let a = date(2025, 12, 22);
    let b = date(2025, 12, 26);
    let c = date(2025, 12, 29);
    assert_eq!(a.week_key(2), b.week_key(2));
    assert_ne!(a.week_key(2), c.week_key(2));
    // With Sunday weeks the same dates group differently.
    assert_eq!(date(2025, 12, 21).week_key(1), date(2025, 12, 26).week_key(1).clone());
    assert_ne!(date(2025, 12, 20).week_key(1), date(2025, 12, 21).week_key(1));
}

#[test]
fn test_render_and_parse_i64() {
    assert_eq!(tria::text::render_i64(0), "0");
    assert_eq!(tria::text::render_i64(1766707200000), "1766707200000");
    assert_eq!(tria::text::render_i64(-42), "-42");
    assert_eq!(tria::text::render_i64(i64::MIN), "-9223372036854775808");
    assert_eq!(tria::text::render_i64(i64::MAX), "9223372036854775807");

    assert_eq!(tria::text::parse_i64("0"), Some(0));
    assert_eq!(tria::text::parse_i64("1766707200000"), Some(1766707200000));
    assert_eq!(tria::text::parse_i64("-42"), Some(-42));
    assert_eq!(tria::text::parse_i64("-9223372036854775808"), Some(i64::MIN));
    assert_eq!(tria::text::parse_i64("9223372036854775807"), Some(i64::MAX));

    assert_eq!(tria::text::parse_i64(""), None);
    assert_eq!(tria::text::parse_i64("-"), None);
    assert_eq!(tria::text::parse_i64("007"), None);
    assert_eq!(tria::text::parse_i64("-0"), None);
    assert_eq!(tria::text::parse_i64("12a3"), None);
    assert_eq!(tria::text::parse_i64("true"), None);
    assert_eq!(tria::text::parse_i64("9223372036854775808"), None);
    assert_eq!(tria::text::parse_i64("-9223372036854775809"), None);
    assert_eq!(tria::text::parse_i64("99999999999999999999999"), None);
}

#[test]
fn test_parse_round_trip() {
    for v in [0i64, 1, -1, 7, 299999, -1766707200000, i64::MIN, i64::MAX] {
        assert_eq!(tria::text::parse_i64(&tria::text::render_i64(v)), Some(v));
    }
}

#[test]
fn test_settings_values() {
    assert!(tria::text::enabled_of_text("true"));
    assert!(!tria::text::enabled_of_text("false"));
    assert!(!tria::text::enabled_of_text("TRUE"));
    assert_eq!(tria::text::parse_week_start("1"), Some(1));
    assert_eq!(tria::text::parse_week_start("7"), Some(7));
    assert_eq!(tria::text::parse_week_start("2"), Some(2));
    assert_eq!(tria::text::parse_week_start("0"), None);
    assert_eq!(tria::text::parse_week_start("8"), None);
    assert_eq!(tria::text::parse_week_start("02"), None);
    assert_eq!(tria::text::parse_week_start("monday"), None);
}

#[test]
fn test_menu_text() {
    assert_eq!(tria::menu::get_menu_text("en", "show_floating"), "Show Floating Window");
    assert_eq!(tria::menu::get_menu_text("en", "quit"), "Quit");
    assert_eq!(
        tria::menu::get_menu_text("ja", "show_floating"),
        "フローティングウィンドウを表示"
    );
    assert_eq!(tria::menu::get_menu_text("system", "quit"), "終了");
    assert_eq!(tria::menu::get_menu_text("en", "help"), "Unknown");
}

#[test]
fn test_goal_level_round_trip() {
    for l in [GoalLevel::Daily, GoalLevel::Weekly, GoalLevel::Monthly] {
        assert_eq!(GoalLevel::from_str(l.as_str()), Some(l));
    }
    assert_eq!(GoalLevel::from_str("daily"), Some(GoalLevel::Daily));
    assert_eq!(GoalLevel::from_str("Daily"), None);
    assert_eq!(GoalLevel::from_str("yearly"), None);
    assert_eq!(GoalLevel::from_str(""), None);
}

#[test]
fn test_goal_and_reflection_new() {
    let g = tria::models::Goal::new("read".to_string(), GoalLevel::Weekly, 123);
    assert_eq!(g.id.len(), 36);
    assert_eq!(g.title, "read");
    assert_eq!(g.level, GoalLevel::Weekly);
    assert!(!g.is_completed);
    assert_eq!(g.completed_at, None);
    assert_eq!(g.period_start, 123);
    assert!(g.created_at > 1_600_000_000_000);
    let g2 = tria::models::Goal::new("read".to_string(), GoalLevel::Weekly, 123);
    assert_ne!(g.id, g2.id);

    let r = tria::models::Reflection::new(
        GoalLevel::Monthly,
        "2025-12".to_string(),
        Some("a".to_string()),
        None,
        None,
    );
    assert_eq!(r.id, None);
    assert_eq!(r.period_key, "2025-12");
    assert_eq!(r.insight_1, Some("a".to_string()));
    assert_eq!(r.insight_2, None);
}
