use colink::policy::{applied_timestamp, apply_wait_start, get_timestamp, shows_applied, ApplyStart, PolicyError};

#[test]
fn applied_records_are_little_endian_i64() {
    assert_eq!(applied_timestamp(&5i64.to_le_bytes()), Some(5));
    assert_eq!(applied_timestamp(&(-2i64).to_le_bytes()), Some(-2));
    assert_eq!(applied_timestamp(&i64::MIN.to_le_bytes()), Some(i64::MIN));
    assert_eq!(applied_timestamp(&i64::MAX.to_le_bytes()), Some(i64::MAX));
    assert_eq!(applied_timestamp(&[1, 2, 3]), None);
}

#[test]
fn wait_start_cases() {
    assert!(matches!(apply_wait_start(None, 10), Ok(ApplyStart::SubscribeFrom(0))));
    assert!(matches!(apply_wait_start(Some(("k@7", &20i64.to_le_bytes())), 10), Ok(ApplyStart::Applied)));
    assert!(matches!(apply_wait_start(Some(("k@7", &10i64.to_le_bytes())), 10), Ok(ApplyStart::Applied)));
    assert!(matches!(apply_wait_start(Some(("k@7", &3i64.to_le_bytes())), 10), Ok(ApplyStart::SubscribeFrom(8))));
    assert!(matches!(apply_wait_start(Some(("k", &3i64.to_le_bytes())), 10), Err(PolicyError::MalformedKeyPath)));
    assert!(matches!(apply_wait_start(Some(("k@7", &[3u8][..])), 10), Err(PolicyError::MalformedRecord)));
}

#[test]
fn applied_notifications() {
    assert_eq!(shows_applied("delete", &[], 10), Ok(false));
    assert_eq!(shows_applied("update", &12i64.to_le_bytes(), 10), Ok(true));
    assert_eq!(shows_applied("create", &9i64.to_le_bytes(), 10), Ok(false));
    assert_eq!(shows_applied("update", &[0; 4], 10), Err(PolicyError::MalformedRecord));
    assert_eq!(get_timestamp("_policy_module:settings@42"), 42);
}

