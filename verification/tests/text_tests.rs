use gitx::utils::format_duration;
use gitx::utils::text::{
    decimal_i64, decimal_u64, pad_right, remove_all, short_hash, str_contains, str_starts_with,
};
use gitx::repo::{CommitFilter, CommitRecord};

#[test]
fn test_format_duration() {
    assert_eq!(format_duration(0), "0s");
    assert_eq!(format_duration(42), "42s");
    assert_eq!(format_duration(3600), "3600s");
}

#[test]
fn test_decimal() {
    assert_eq!(decimal_u64(0), "0");
    assert_eq!(decimal_u64(1234567890), "1234567890");
    assert_eq!(decimal_u64(u64::MAX), u64::MAX.to_string());
    assert_eq!(decimal_i64(-42), "-42");
    assert_eq!(decimal_i64(i64::MIN), i64::MIN.to_string());
    assert_eq!(decimal_i64(7), "7");
}

#[test]
fn test_pad_right() {
    assert_eq!(pad_right("ab", 5), "ab   ");
    assert_eq!(pad_right("abcdef", 3), "abcdef");
    assert_eq!(pad_right("é", 3), "é  ");
    assert_eq!(pad_right("ab", 5), format!("{:<5}", "ab"));
}

#[test]
fn test_short_hash() {
    assert_eq!(short_hash("0123456789abcdef"), "0123456");
    assert_eq!(short_hash("0123456"), "0123456");
    assert_eq!(short_hash("abc"), "abc");
}

#[test]
fn test_contains_and_starts_with() {
    assert!(str_contains("refactor parser", "parse"));
    assert!(!str_contains("refactor", "parse"));
    assert!(str_contains("abc", ""));
    assert!(!str_contains("ab", "abc"));
    assert!(str_starts_with("deadbeef", "dead"));
    assert!(!str_starts_with("deadbeef", "beef"));
}

#[test]
fn test_remove_all() {
    assert_eq!(remove_all("refs/tags/v1.0", "refs/tags/"), "v1.0");
    assert_eq!(remove_all("v2", "refs/tags/"), "v2");
    assert_eq!(remove_all("aaaa", "aa"), "");
    assert_eq!(remove_all("abc", ""), "abc");
    assert_eq!(remove_all("xrefs/tags/y", "refs/tags/"), "xy");
}

#[test]
fn test_lowercase() {
    let mut f = CommitFilter::default();
    f.author = Some("aUTHOR one".to_string());
    let rec = CommitRecord {
        hash: "abc".to_string(),
        author: Some("Author ONE".to_string()),
        summary: None,
        parent_count: 1,
        branches: Vec::new(),
    };
    assert!(f.matches(&rec));
}
