use clock_roles::render::{format_label, render, Instant, RenderError};
use clock_roles::zone::LAST_INSTANT_MILLIS;

fn at(millis: i64) -> Instant {
    Instant::from_millis(millis).unwrap()
}

#[test]
fn instant_starts_at_the_epoch() {
    assert!(Instant::from_millis(-1).is_none());
    assert!(Instant::from_millis(i64::MIN).is_none());
    assert_eq!(Instant::from_millis(0).unwrap().millis(), 0);
}

#[test]
fn instant_ends_with_the_year_9999() {
    assert_eq!(LAST_INSTANT_MILLIS, 253_402_300_799_999);
    assert_eq!(at(LAST_INSTANT_MILLIS).millis(), LAST_INSTANT_MILLIS);
    assert!(Instant::from_millis(LAST_INSTANT_MILLIS + 1).is_none());
    assert!(Instant::from_millis(i64::MAX).is_none());
}

#[test]
fn instant_keeps_its_milliseconds() {
    assert_eq!(at(1_600_000_000_123).millis(), 1_600_000_000_123);
}

#[test]
fn format_label_pads_hour_and_minute() {
    assert_eq!(format_label("UTC", 0, 0), "UTC 00:00");
    assert_eq!(format_label("UTC", 5, 7), "UTC 05:07");
    assert_eq!(format_label("Europe/Paris", 23, 59), "Europe/Paris 23:59");
    assert_eq!(format_label("Asia/Tokyo", 10, 9), "Asia/Tokyo 10:09");
}

#[test]
fn format_label_tells_hour_from_minute() {
    assert_ne!(format_label("UTC", 1, 10), format_label("UTC", 10, 1));
    assert_ne!(format_label("UTC", 12, 0), format_label("UTC", 0, 12));
}

#[test]
fn render_utc_at_the_epoch() {
    assert_eq!(render("UTC", at(0)), Ok("UTC 00:00".to_string()));
}

#[test]
fn render_uses_the_local_time_of_the_zone() {
    // 2020-09-13 12:26:40 UTC
    let instant = at(1_600_000_000_000);
    assert_eq!(render("UTC", instant), Ok("UTC 12:26".to_string()));
    assert_eq!(render("America/New_York", instant), Ok("America/New_York 08:26".to_string()));
    assert_eq!(render("Asia/Kolkata", instant), Ok("Asia/Kolkata 17:56".to_string()));
    assert_eq!(render("Asia/Tokyo", instant), Ok("Asia/Tokyo 21:26".to_string()));
}

#[test]
fn render_follows_daylight_saving() {
    // 2021-01-15 12:00:00 UTC and 2021-07-15 12:00:00 UTC
    assert_eq!(render("Europe/London", at(1_610_712_000_000)), Ok("Europe/London 12:00".to_string()));
    assert_eq!(render("Europe/London", at(1_626_350_400_000)), Ok("Europe/London 13:00".to_string()));
}

#[test]
fn render_rejects_an_unknown_zone() {
    assert_eq!(render("Mars/Olympus_Mons", at(0)), Err(RenderError::InvalidTimezone));
    assert_eq!(render("", at(0)), Err(RenderError::InvalidTimezone));
    assert_eq!(render("all", at(0)), Err(RenderError::InvalidTimezone));
    assert_eq!(render("utc ", at(0)), Err(RenderError::InvalidTimezone));
}

#[test]
fn render_is_deterministic() {
    let instant = at(1_700_000_000_000);
    let first = render("Australia/Sydney", instant);
    let second = render("Australia/Sydney", instant);
    assert!(first.is_ok());
    assert_eq!(first, second);
}

#[test]
fn render_truncates_to_the_minute() {
    assert_eq!(render("UTC", at(0)), render("UTC", at(59_999)));
    assert_eq!(render("UTC", at(59_999)), Ok("UTC 00:00".to_string()));
    assert_eq!(render("UTC", at(60_000)), Ok("UTC 00:01".to_string()));
}

#[test]
fn render_changes_when_the_minute_changes() {
    let before = render("Asia/Tokyo", at(1_600_000_019_999)).unwrap();
    let after = render("Asia/Tokyo", at(1_600_000_020_000)).unwrap();
    assert_eq!(before, "Asia/Tokyo 21:26");
    assert_eq!(after, "Asia/Tokyo 21:27");
}

#[test]
fn render_wraps_at_midnight() {
    assert_eq!(render("UTC", at(86_399_999)), Ok("UTC 23:59".to_string()));
    assert_eq!(render("UTC", at(86_400_000)), Ok("UTC 00:00".to_string()));
}

#[test]
fn render_at_the_last_instant() {
    assert_eq!(render("UTC", at(LAST_INSTANT_MILLIS)), Ok("UTC 23:59".to_string()));
    assert!(render("Pacific/Kiritimati", at(LAST_INSTANT_MILLIS)).is_ok());
    assert!(render("Pacific/Niue", at(LAST_INSTANT_MILLIS)).is_ok());
}

#[test]
fn render_names_the_zone_as_the_database_does() {
    assert_eq!(render("US/Eastern", at(1_600_000_000_000)), Ok("US/Eastern 08:26".to_string()));
    assert_eq!(render("Etc/GMT+4", at(0)), Ok("Etc/GMT+4 20:00".to_string()));
}
