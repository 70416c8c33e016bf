//! Waiting until the policy module has applied a settings change: the module
//! records, under `_policy_module:applied_settings_timestamp`, the timestamp
//! of the settings it last applied, as eight little-endian bytes.
use vstd::prelude::*;
use crate::key_path::{parse_path_timestamp, path_timestamp};

verus! {

/// The unsigned value of little-endian bytes.
pub open spec fn le_value(b: Seq<u8>) -> nat
    decreases b.len(),
{
    if b.len() == 0 {
        0
    } else {
        b[0] as nat + 256 * le_value(b.subrange(1, b.len() as int))
    }
}

/// An unsigned 64-bit value read as two's complement.
pub open spec fn as_signed(v: nat) -> int {
    if v >= 0x8000_0000_0000_0000 {
        v - 0x1_0000_0000_0000_0000
    } else {
        v as int
    }
}

/// The applied timestamp that a record holds, if it has eight bytes.
pub open spec fn applied_timestamp_spec(b: Seq<u8>) -> Option<int> {
    if b.len() == 8 {
        Some(as_signed(le_value(b)))
    } else {
        None
    }
}

pub open spec fn pow256(k: nat) -> nat
    decreases k,
{
    if k == 0 { 1 } else { 256 * pow256((k - 1) as nat) }
}

/// Reads an applied-settings record.
pub fn applied_timestamp(b: &[u8]) -> (r: Option<i64>)
    ensures
        match applied_timestamp_spec(b@) {
            Some(v) => r == Some(v as i64) && i64::MIN <= v <= i64::MAX,
            None => r is None,
        },
{
    if b.len() != 8 {
        return None;
    }
    let mut acc: u64 = 0;
    let mut i: usize = 8;
    assert(b@.subrange(8, 8) =~= Seq::<u8>::empty());
    while i > 0
        invariant
            i <= 8 == b@.len(),
            acc as nat == le_value(b@.subrange(i as int, 8)),
            (acc as nat) < pow256((8 - i) as nat),
        decreases i,
    {
        let byte = b[i - 1];
        assert(b@.subrange(i - 1, 8).subrange(1, (8 - (i - 1)) as int) =~= b@.subrange(i as int, 8));
        proof {
            let k = (8 - i) as nat;
            assert(pow256(k + 1) == 256 * pow256(k));
            assert((acc as nat) * 256 + (byte as nat) < 256 * pow256(k)) by (nonlinear_arith)
                requires (acc as nat) < pow256(k), byte < 256;
            lemma_pow256_eight();
            lemma_pow256_monotone(k + 1, 8);
        }
        acc = acc * 256 + byte as u64;
        i = i - 1;
    }
    assert(b@.subrange(0, 8) =~= b@);
    if acc >= 0x8000_0000_0000_0000u64 {
        Some(-((u64::MAX - acc) as i64) - 1)
    } else {
        Some(acc as i64)
    }
}

proof fn lemma_pow256_eight()
    ensures
        pow256(8) == 0x1_0000_0000_0000_0000,
{
    assert(pow256(0) == 1);
    assert(pow256(1) == 0x100);
    assert(pow256(2) == 0x1_0000);
    assert(pow256(3) == 0x100_0000);
    assert(pow256(4) == 0x1_0000_0000);
    assert(pow256(5) == 0x100_0000_0000);
    assert(pow256(6) == 0x1_0000_0000_0000);
    assert(pow256(7) == 0x100_0000_0000_0000);
}

proof fn lemma_pow256_monotone(a: nat, b: nat)
    requires
        a <= b,
    ensures
        pow256(a) <= pow256(b),
    decreases b - a,
{
    if a < b {
        lemma_pow256_monotone(a, (b - 1) as nat);
        assert(pow256(b) == 256 * pow256((b - 1) as nat));
    }
}

/// Reads the timestamp of a versioned key path known to carry one.
pub fn get_timestamp(key_path: &str) -> (r: i64)
    requires
        path_timestamp(key_path@) is Some,
    ensures
        path_timestamp(key_path@) == Some(r),
{
    match parse_path_timestamp(key_path) {
        Some(t) => t,
        None => 0,
    }
}

/// How a wait for applied settings begins.
pub enum ApplyStart {
    /// The settings at the target timestamp are applied already.
    Applied,
    /// Subscribe to the applied-settings record from this timestamp on.
    SubscribeFrom(i64),
}

/// Why a wait for applied settings cannot proceed.
#[derive(Clone, Copy, Debug, PartialEq, Eq, Structural)]
pub enum PolicyError {
    /// The record does not hold eight bytes.
    MalformedRecord,
    /// The record's key path carries no timestamp.
    MalformedKeyPath,
}

/// Decides how to wait for the settings written at `target`, given the
/// current applied-settings record (its key path and payload), if any: no
/// record means subscribing from zero; a record at or past the target means
/// done; otherwise subscribe from just after the record's own write.
pub fn apply_wait_start(record: Option<(&str, &[u8])>, target: i64) -> (r: Result<ApplyStart, PolicyError>)
    ensures
        match record {
            None => r matches Ok(ApplyStart::SubscribeFrom(0)),
            Some((path, payload)) => match applied_timestamp_spec(payload@) {
                None => r == Err::<ApplyStart, PolicyError>(PolicyError::MalformedRecord),
                Some(v) => if v >= target {
                    r matches Ok(ApplyStart::Applied)
                } else {
                    match path_timestamp(path@) {
                        Some(t) => if t < i64::MAX {
                            r matches Ok(ApplyStart::SubscribeFrom(s)) && s == t + 1
                        } else {
                            r == Err::<ApplyStart, PolicyError>(PolicyError::MalformedKeyPath)
                        },
                        None => r == Err::<ApplyStart, PolicyError>(PolicyError::MalformedKeyPath),
                    }
                },
            },
        },
{
    match record {
        None => Ok(ApplyStart::SubscribeFrom(0)),
        Some((path, payload)) => match applied_timestamp(payload) {
            None => Err(PolicyError::MalformedRecord),
            Some(v) => {
                if v >= target {
                    return Ok(ApplyStart::Applied);
                }
                match parse_path_timestamp(path) {
                    Some(t) => if t < i64::MAX {
                        Ok(ApplyStart::SubscribeFrom(t + 1))
                    } else {
                        Err(PolicyError::MalformedKeyPath)
                    },
                    None => Err(PolicyError::MalformedKeyPath),
                }
            },
        },
    }
}

/// Whether a notification on the applied-settings record shows the target
/// applied: it is no deletion and records a timestamp at or past `target`.
pub fn shows_applied(change_type: &str, payload: &[u8], target: i64) -> (r: Result<bool, PolicyError>)
    ensures
        crate::change_feed::is_delete_spec(change_type@) ==> r == Ok::<bool, PolicyError>(false),
        !crate::change_feed::is_delete_spec(change_type@) ==> match applied_timestamp_spec(payload@) {
            None => r == Err::<bool, PolicyError>(PolicyError::MalformedRecord),
            Some(v) => r == Ok::<bool, PolicyError>(v >= target),
        },
{
    if crate::change_feed::is_delete_change(change_type) {
        return Ok(false);
    }
    match applied_timestamp(payload) {
        None => Err(PolicyError::MalformedRecord),
        Some(v) => Ok(v >= target),
    }
}

} // verus!
