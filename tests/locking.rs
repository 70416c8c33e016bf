use colink::lock::{
    bytes_to_nonce, check_release, lock_entry_key, nonce_to_bytes, token_payload, CoLinkLockToken, LockAcquisition,
    LockError, LockStep, DEFAULT_RETRY_CAP_MS,
};
use std::collections::HashMap;

#[test]
fn lock_entry_name() {
    assert_eq!(lock_entry_key("example_lock_name"), "_lock:example_lock_name");
}

#[test]
fn nonce_bytes_are_little_endian() {
    assert_eq!(nonce_to_bytes(1), vec![1, 0, 0, 0]);
    assert_eq!(nonce_to_bytes(-1), vec![255, 255, 255, 255]);
    assert_eq!(nonce_to_bytes(0x01020304), vec![4, 3, 2, 1]);
    assert_eq!(nonce_to_bytes(i32::MIN), i32::MIN.to_le_bytes().to_vec());
    assert_eq!(bytes_to_nonce(&[4, 3, 2, 1]), Some(0x01020304));
    assert_eq!(bytes_to_nonce(&[1, 2, 3]), None);
    assert_eq!(bytes_to_nonce(&[]), None);
}

#[test]
fn release_checks_the_stored_nonce() {
    let token = CoLinkLockToken { key: "k".to_string(), rnd_num: 77 };
    assert_eq!(check_release(&token, &token_payload(&token)), Ok(()));
    assert_eq!(check_release(&token, &nonce_to_bytes(78)), Err(LockError::InvalidToken));
}

#[test]
fn backoff_doubles_up_to_the_cap() {
    let mut acq = LockAcquisition::with_nonce("k", 5, DEFAULT_RETRY_CAP_MS);
    assert_eq!(acq.entry_key(), "_lock:k");
    assert_eq!(acq.entry_payload(), vec![5, 0, 0, 0]);
    let mut caps = vec![];
    for _ in 0..9 {
        let cap = acq.backoff_cap;
        match acq.on_create_result(false) {
            LockStep::Retry(ms) => assert!(ms < cap),
            LockStep::Acquired(_) => panic!("acquired on a failed create"),
        }
        caps.push(acq.backoff_cap);
    }
    assert_eq!(caps, vec![2, 4, 8, 16, 32, 64, 100, 100, 100]);
    match acq.on_create_result(true) {
        LockStep::Acquired(t) => {
            assert_eq!(t.key, "k");
            assert_eq!(t.rnd_num, 5);
        }
        LockStep::Retry(_) => panic!("retry on a successful create"),
    }
}

#[test]
fn smallest_retry_cap_keeps_a_positive_cap() {
    let mut acq = LockAcquisition::with_nonce("k", 1, 1);
    assert!(matches!(acq.on_create_result(false), LockStep::Retry(0)));
    assert_eq!(acq.backoff_cap, 1);
    assert!(matches!(acq.on_create_result(false), LockStep::Retry(0)));
    assert_eq!(acq.backoff_cap, 1);
}

#[test]
fn fresh_acquisitions_start_at_the_initial_cap() {
    let acq = LockAcquisition::new("k", 50);
    assert_eq!(acq.key, "k");
    assert_eq!(acq.backoff_cap, 1);
    assert_eq!(acq.retry_cap, 50);
}

fn create_if_absent(store: &mut HashMap<String, Vec<u8>>, key: String, value: Vec<u8>) -> bool {
    if store.contains_key(&key) {
        false
    } else {
        store.insert(key, value);
        true
    }
}

#[test]
fn ten_workers_serialise_a_counter() {
    let mut store: HashMap<String, Vec<u8>> = HashMap::new();
    let mut counter: u32 = 0;
    let mut seen = vec![];
    let mut workers: Vec<LockAcquisition> =
        (0..10).map(|i| LockAcquisition::with_nonce("example_lock_counter", 1000 + i, 100)).collect();
    let mut holder: Option<(usize, CoLinkLockToken)> = None;
    let mut done = vec![false; 10];
    while done.iter().any(|d| !d) {
        for i in 0..10 {
            if done[i] || holder.as_ref().map(|h| h.0) == Some(i) {
                continue;
            }
            let created = create_if_absent(&mut store, workers[i].entry_key(), workers[i].entry_payload());
            match workers[i].on_create_result(created) {
                LockStep::Acquired(t) => {
                    assert!(holder.is_none());
                    holder = Some((i, t));
                }
                LockStep::Retry(_) => {}
            }
        }
        if let Some((i, t)) = holder.take() {
            seen.push(counter);
            counter += 1;
            let key = lock_entry_key(&t.key);
            assert_eq!(check_release(&t, &store[&key]), Ok(()));
            store.remove(&key);
            done[i] = true;
        }
    }
    assert_eq!(counter, 10);
    seen.sort();
    assert_eq!(seen, (0..10).collect::<Vec<u32>>());
}

#[test]
fn stale_token_keeps_the_current_lock() {
    let mut store: HashMap<String, Vec<u8>> = HashMap::new();
    let current = CoLinkLockToken { key: "r".to_string(), rnd_num: 9 };
    store.insert(lock_entry_key("r"), token_payload(&current));
    let stale = CoLinkLockToken { key: "r".to_string(), rnd_num: 8 };
    assert_eq!(check_release(&stale, &store[&lock_entry_key("r")]), Err(LockError::InvalidToken));
    assert_eq!(store[&lock_entry_key("r")], vec![9, 0, 0, 0]);
}
