use rsquid::text::parse_u16;
use rsquid::utils::{
    format_duration, format_seconds, is_readonly_query, is_valid_db_type, sanitize_input,
    truncate_string,
};

#[test]
fn test_truncate_string() {
    assert_eq!(truncate_string("hello", 10), "hello");
    assert_eq!(truncate_string("hello world", 8), "hello...");
}

#[test]
fn test_is_valid_db_type() {
    assert!(is_valid_db_type("postgres"));
    assert!(is_valid_db_type("mysql"));
    assert!(is_valid_db_type("sqlite"));
    assert!(!is_valid_db_type("mongodb"));
}

#[test]
fn test_is_readonly_query() {
    assert!(is_readonly_query("SELECT * FROM users"));
    assert!(is_readonly_query("  select id from table"));
    assert!(!is_readonly_query("INSERT INTO users VALUES (1)"));
    assert!(!is_readonly_query("UPDATE users SET name = 'test'"));
}

#[test]
fn truncate_keeps_short_strings() {
    assert_eq!(truncate_string("", 0), "");
    assert_eq!(truncate_string("abc", 3), "abc");
}

#[test]
fn truncate_with_tiny_limit() {
    assert_eq!(truncate_string("abcdef", 2), "...");
    assert_eq!(truncate_string("abcdef", 3), "...");
    assert_eq!(truncate_string("abcdef", 4), "a...");
}

#[test]
fn format_seconds_exact() {
    assert_eq!(format_seconds(0), "0s");
    assert_eq!(format_seconds(45), "45s");
    assert_eq!(format_seconds(59), "59s");
    assert_eq!(format_seconds(75), "1m 15s");
    assert_eq!(format_seconds(3599), "59m 59s");
    assert_eq!(format_seconds(3700), "1h 1m");
}

#[test]
fn format_duration_matches_format_seconds() {
    let d = std::time::Duration::from_secs(75);
    assert_eq!(format_duration(d), "1m 15s");
}

#[test]
fn sanitize_removes_control_characters() {
    assert_eq!(sanitize_input("ab\u{0}c\u{7f}d"), "abcd");
    assert_eq!(sanitize_input("a\nb\tc"), "a\nb\tc");
    assert_eq!(sanitize_input("\r"), "");
    assert_eq!(sanitize_input("plain"), "plain");
}

#[test]
fn readonly_covers_all_keywords() {
    assert!(is_readonly_query("SHOW TABLES"));
    assert!(is_readonly_query("describe users"));
    assert!(is_readonly_query("EXPLAIN SELECT 1"));
    assert!(!is_readonly_query("WITH cte AS (SELECT 1) SELECT * FROM cte"));
    assert!(!is_readonly_query(""));
}

#[test]
fn parse_u16_like_std() {
    assert_eq!(parse_u16("5432"), Some(5432));
    assert_eq!(parse_u16("+80"), Some(80));
    assert_eq!(parse_u16("0"), Some(0));
    assert_eq!(parse_u16("65535"), Some(65535));
    assert_eq!(parse_u16("65536"), None);
    assert_eq!(parse_u16(""), None);
    assert_eq!(parse_u16("+"), None);
    assert_eq!(parse_u16("12a"), None);
    assert_eq!(parse_u16("999999999999"), None);
}
