//! Tests for the text utilities: trimming command output, parsing commit
//! timestamps, string equality, and timestamp rendering.

use sprout::{format_ts, parse_timestamp, str_eq, trim_bytes};

#[test]
fn trim_removes_surrounding_whitespace() {
    assert_eq!(trim_bytes(&b"  hello \n".to_vec()), b"hello".to_vec());
    assert_eq!(trim_bytes(&b"\t\r\n".to_vec()), b"".to_vec());
    assert_eq!(trim_bytes(&b"inner  space".to_vec()), b"inner  space".to_vec());
    assert_eq!(trim_bytes(&b"".to_vec()), b"".to_vec());
}

#[test]
fn parse_timestamp_reads_trimmed_decimal() {
    assert_eq!(parse_timestamp(&b"1700000000\n".to_vec()), 1_700_000_000);
    assert_eq!(parse_timestamp(&b"  42  ".to_vec()), 42);
    assert_eq!(parse_timestamp(&b"-5".to_vec()), -5);
    assert_eq!(parse_timestamp(&b"+7".to_vec()), 7);
}

#[test]
fn parse_timestamp_falls_back_to_zero() {
    assert_eq!(parse_timestamp(&b"".to_vec()), 0);
    assert_eq!(parse_timestamp(&b"   ".to_vec()), 0);
    assert_eq!(parse_timestamp(&b"abc".to_vec()), 0);
    assert_eq!(parse_timestamp(&b"12x".to_vec()), 0);
    assert_eq!(parse_timestamp(&b"-".to_vec()), 0);
    assert_eq!(parse_timestamp(&b"+".to_vec()), 0);
    assert_eq!(parse_timestamp(&b"99999999999999999999999".to_vec()), 0);
}

#[test]
fn parse_timestamp_handles_the_extremes() {
    assert_eq!(parse_timestamp(&b"9223372036854775807".to_vec()), i64::MAX);
    assert_eq!(parse_timestamp(&b"-9223372036854775808".to_vec()), i64::MIN);
    assert_eq!(parse_timestamp(&b"9223372036854775808".to_vec()), 0);
    assert_eq!(parse_timestamp(&b"-9223372036854775809".to_vec()), 0);
}

#[test]
fn str_eq_compares_by_characters() {
    assert!(str_eq("abc", "abc"));
    assert!(!str_eq("abc", "abd"));
    assert!(!str_eq("abc", "ab"));
    assert!(str_eq("", ""));
    assert!(str_eq("héllo", "héllo"));
    assert!(!str_eq("héllo", "hello"));
}

#[test]
fn unknown_timestamp_renders_as_dash() {
    assert_eq!(format_ts(0), "-");
    assert_eq!(format_ts(-3), "-");
}

#[test]
fn known_timestamp_renders_a_local_datetime() {
    // Mid-1971: every time zone agrees on the year.
    let s = format_ts(47_500_000);
    assert!(s.starts_with("1971-"));
    assert_eq!(s.len(), "1971-01-01 00:00:00".len());
}
