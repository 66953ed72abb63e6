use chrono::TimeZone;
use switchbot::feedback::{escape_for_applescript, format_log_line};

fn stamp(now: chrono::DateTime<chrono::Local>) -> String {
    now.format("%Y-%m-%dT%H:%M:%S%:z").to_string()
}

#[test]
fn log_format_has_iso8601_timestamp() {
    let now = chrono::Local.with_ymd_and_hms(2026, 5, 4, 12, 34, 56).unwrap();
    let line = format_log_line(&stamp(now), "INFO", "hello");
    assert!(line.starts_with("2026-05-04T12:34:56"));
    assert!(line.contains(" INFO  hello"));
    assert!(line.ends_with('\n'));
}

#[test]
fn log_strips_extra_lines_in_message() {
    let now = chrono::Local.with_ymd_and_hms(2026, 5, 4, 12, 34, 56).unwrap();
    let line = format_log_line(&stamp(now), "ERROR", "first line\nsecond line");
    assert!(line.contains("first line"));
    assert!(!line.contains("second line"));
}

#[test]
fn applescript_escape_doubles_backslash_and_quote() {
    assert_eq!(escape_for_applescript(r#"a"b\c"#), r#"a\"b\\c"#);
    assert_eq!(escape_for_applescript("plain"), "plain");
}

#[test]
fn applescript_escape_replaces_newlines_with_space() {
    assert_eq!(escape_for_applescript("line1\nline2"), "line1 line2");
    assert_eq!(escape_for_applescript("a\nb\nc"), "a b c");
}

#[test]
fn applescript_escape_strips_carriage_returns() {
    assert_eq!(escape_for_applescript("line1\r\nline2"), "line1 line2");
    assert_eq!(escape_for_applescript("a\rb"), "ab");
}

#[test]
fn applescript_escape_handles_combined() {
    assert_eq!(
        escape_for_applescript("error: \"bad\" input\nusage: ..."),
        r#"error: \"bad\" input usage: ..."#
    );
}
