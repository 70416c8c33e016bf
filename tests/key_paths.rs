use colink::key_path::{get_path_timestamp, parse_path_timestamp};
use colink::numfmt::decimal_u64;

#[test]
fn timestamp_after_last_at() {
    assert_eq!(get_path_timestamp("alice::tasks:1:status@123"), 123);
    assert_eq!(get_path_timestamp("a@b@7"), 7);
    assert_eq!(get_path_timestamp("x@-5"), -5);
    assert_eq!(get_path_timestamp("x@+42"), 42);
}

#[test]
fn timestamp_bounds_of_i64() {
    assert_eq!(parse_path_timestamp("k@9223372036854775807"), Some(i64::MAX));
    assert_eq!(parse_path_timestamp("k@-9223372036854775808"), Some(i64::MIN));
    assert_eq!(parse_path_timestamp("k@9223372036854775808"), None);
    assert_eq!(parse_path_timestamp("k@-9223372036854775809"), None);
}

#[test]
fn timestamp_malformed_paths() {
    assert_eq!(parse_path_timestamp("no-timestamp"), None);
    assert_eq!(parse_path_timestamp("k@"), None);
    assert_eq!(parse_path_timestamp("k@-"), None);
    assert_eq!(parse_path_timestamp("k@12x"), None);
    assert_eq!(parse_path_timestamp(""), None);
}

#[test]
fn decimal_rendering() {
    assert_eq!(decimal_u64(0), "0");
    assert_eq!(decimal_u64(7), "7");
    assert_eq!(decimal_u64(1024), "1024");
    assert_eq!(decimal_u64(u64::MAX), "18446744073709551615");
}
