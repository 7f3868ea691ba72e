use ccusage_ui::dates::CalendarDate;
use ccusage_ui::errors::AppError;
use ccusage_ui::models::{
    check_bounds, choose_timezone, parse_optional_date, RangeKind, UsageRequest,
};
use ccusage_ui::settings::Settings;

fn june_24() -> CalendarDate {
    CalendarDate::from_ymd_opt(2026, 6, 24).unwrap()
}

#[test]
fn normalizes_last_7_days() {
    let request = UsageRequest {
        range: RangeKind::Last7Days,
        timezone: Some("America/Los_Angeles".to_string()),
        ..UsageRequest::default()
    };
    let normalized = request
        .normalize(
            &Settings::default(),
            CalendarDate::from_ymd_opt(2026, 6, 24).unwrap(),
        )
        .unwrap();

    assert_eq!(normalized.since.as_deref(), Some("2026-06-18"));
    assert_eq!(normalized.until.as_deref(), Some("2026-06-24"));
    assert_eq!(normalized.timezone, "America/Los_Angeles");
}

#[test]
fn rejects_reversed_custom_range() {
    let request = UsageRequest {
        range: RangeKind::Custom,
        since: Some("2026-06-25".to_string()),
        until: Some("2026-06-24".to_string()),
        ..UsageRequest::default()
    };

    assert!(request
        .normalize(
            &Settings::default(),
            CalendarDate::from_ymd_opt(2026, 6, 24).unwrap()
        )
        .is_err());
}

#[test]
fn reversed_range_names_the_problem() {
    let request = UsageRequest {
        range: RangeKind::Custom,
        since: Some("2026-06-25".to_string()),
        until: Some("2026-06-24".to_string()),
        ..UsageRequest::default()
    };
    match request.normalize(&Settings::default(), june_24()) {
        Err(AppError::InvalidRequest { details }) => {
            assert_eq!(details, "since must be on or before until")
        }
        _ => panic!("expected an invalid request"),
    }
}

#[test]
fn fixed_ranges_end_today() {
    let settings = Settings::default();
    let today = UsageRequest {
        range: RangeKind::Today,
        ..UsageRequest::default()
    }
    .normalize(&settings, june_24())
    .unwrap();
    assert_eq!(today.since.as_deref(), Some("2026-06-24"));
    assert_eq!(today.until.as_deref(), Some("2026-06-24"));
    assert_eq!(today.timezone, "UTC");

    let month = UsageRequest::default().normalize(&settings, june_24()).unwrap();
    assert_eq!(month.since.as_deref(), Some("2026-05-26"));
    assert_eq!(month.until.as_deref(), Some("2026-06-24"));
    assert!(!month.force_refresh);

    let all = UsageRequest {
        range: RangeKind::All,
        force_refresh: true,
        ..UsageRequest::default()
    }
    .normalize(&settings, june_24())
    .unwrap();
    assert_eq!(all.since, None);
    assert_eq!(all.until, None);
    assert!(all.force_refresh);
}

#[test]
fn custom_range_reads_trimmed_dates_and_open_bounds() {
    let request = UsageRequest {
        range: RangeKind::Custom,
        since: Some("  2024-02-29 ".to_string()),
        until: Some("   ".to_string()),
        ..UsageRequest::default()
    };
    let normalized = request.normalize(&Settings::default(), june_24()).unwrap();
    assert_eq!(normalized.since.as_deref(), Some("2024-02-29"));
    assert_eq!(normalized.until, None);
}

#[test]
fn unreadable_dates_are_refused_by_name() {
    let request = UsageRequest {
        range: RangeKind::Custom,
        since: Some("2026-06-01".to_string()),
        until: Some("June 24".to_string()),
        ..UsageRequest::default()
    };
    match request.normalize(&Settings::default(), june_24()) {
        Err(AppError::InvalidRequest { details }) => {
            assert_eq!(details, "until must use YYYY-MM-DD")
        }
        _ => panic!("expected an invalid request"),
    }

    match parse_optional_date(&Some("2026-02-30".to_string()), "since") {
        Err(AppError::InvalidRequest { details }) => {
            assert_eq!(details, "since must use YYYY-MM-DD")
        }
        _ => panic!("expected an invalid request"),
    }
    assert!(matches!(parse_optional_date(&None, "since"), Ok(None)));
}

#[test]
fn timezone_falls_back_to_settings_then_utc() {
    let mut settings = Settings::default();
    assert_eq!(choose_timezone(None, &settings), "UTC");
    settings.timezone = Some("Europe/Berlin".to_string());
    assert_eq!(choose_timezone(None, &settings), "Europe/Berlin");
    assert_eq!(
        choose_timezone(Some("  ".to_string()), &settings),
        "Europe/Berlin"
    );
    assert_eq!(
        choose_timezone(Some("Asia/Tokyo".to_string()), &settings),
        "Asia/Tokyo"
    );
}

#[test]
fn bounds_in_order_pass() {
    let a = CalendarDate::from_ymd_opt(2026, 1, 1);
    let b = CalendarDate::from_ymd_opt(2026, 1, 2);
    assert!(check_bounds(&a, &b).is_ok());
    assert!(check_bounds(&a, &a).is_ok());
    assert!(check_bounds(&b, &a).is_err());
    assert!(check_bounds(&None, &a).is_ok());
}

#[test]
fn calendar_dates_follow_chrono() {
    assert!(CalendarDate::from_ymd_opt(2026, 2, 29).is_none());
    assert!(CalendarDate::from_ymd_opt(2024, 13, 1).is_none());
    let first = CalendarDate::from_ymd_opt(1, 1, 1).unwrap();
    assert_eq!(first.days_from_ce(), 1);
    assert_eq!(first.format_ymd(), "0001-01-01");
    let d = june_24();
    assert_eq!(d.days_earlier(24).format_ymd(), "2026-05-31");
    let parsed = CalendarDate::parse_ymd("2026-06-24").unwrap();
    assert_eq!(parsed.days_from_ce(), d.days_from_ce());
    assert!(CalendarDate::parse_ymd("2026/06/24").is_none());
    let back = CalendarDate::from_days_from_ce(d.days_from_ce()).unwrap();
    assert_eq!(back.format_ymd(), "2026-06-24");
    assert!(CalendarDate::from_days_from_ce(i32::MAX).is_none());
}

#[test]
fn ranges_reach_back() {
    assert_eq!(RangeKind::Today.days_back(), 0);
    assert_eq!(RangeKind::Last7Days.days_back(), 6);
    assert_eq!(RangeKind::Last30Days.days_back(), 29);
    assert_eq!(RangeKind::All.days_back(), 0);
    assert_eq!(RangeKind::Custom.days_back(), 0);
    assert_eq!(RangeKind::default(), RangeKind::Last30Days);
}
