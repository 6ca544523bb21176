use cc_sessions_viewer::time::{format_relative_time_at, format_ymd_hms};
use chrono::TimeZone;

fn millis(y: i32, mo: u32, d: u32, h: u32, mi: u32, s: u32) -> i64 {
    chrono::Utc.with_ymd_and_hms(y, mo, d, h, mi, s).unwrap().timestamp_millis()
}

#[test]
fn format_ymd_hms_renders_utc() {
    assert_eq!(format_ymd_hms(millis(2026, 1, 15, 10, 0, 0)), "2026-01-15 10:00:00");
}

#[test]
fn relative_time_within_a_day_shows_clock_time() {
    let now = millis(2026, 1, 15, 12, 0, 0);
    let shown = format_relative_time_at("2026-01-15T09:30:00Z", now);
    assert_eq!(shown, "09:30");
}

#[test]
fn relative_time_within_a_week_counts_days() {
    let now = millis(2026, 1, 15, 12, 0, 0);
    let shown = format_relative_time_at("2026-01-12T12:00:00Z", now);
    assert_eq!(shown, "3 days ago");
}

#[test]
fn relative_time_older_shows_month_and_day() {
    let now = millis(2026, 1, 15, 12, 0, 0);
    let shown = format_relative_time_at("2025-11-03T12:00:00Z", now);
    assert_eq!(shown, "Nov 03");
}

#[test]
fn relative_time_unparsable_text_is_kept() {
    let now = millis(2026, 1, 15, 12, 0, 0);
    assert_eq!(format_relative_time_at("not a date", now), "not a date");
}
