//! A mutual-exclusion lock over a storage service with create-if-absent
//! semantics: the lock on `key` is the entry `_lock:<key>`, holding the
//! holder's nonce in four little-endian bytes.
use vstd::prelude::*;
use vstd::string::*;
use crate::random::random_in_range;

verus! {

/// The backoff cap, in milliseconds, that the first failed attempt draws from.
pub const INITIAL_BACKOFF_MS: u64 = 1;

/// The retry cap that `CoLink::lock` uses when the caller names none.
pub const DEFAULT_RETRY_CAP_MS: u64 = 100;

pub open spec fn lock_entry_key_spec(key: Seq<char>) -> Seq<char> {
    "_lock:"@ + key
}

/// The four little-endian bytes of a nonce.
pub open spec fn nonce_le_bytes(n: i32) -> Seq<u8> {
    let u = n as u32;
    seq![(u & 0xff) as u8, ((u >> 8u32) & 0xff) as u8, ((u >> 16u32) & 0xff) as u8, ((u >> 24u32) & 0xff) as u8]
}

/// The nonce that four stored bytes encode, if there are four of them.
pub open spec fn stored_nonce(b: Seq<u8>) -> Option<i32> {
    if b.len() == 4 {
        Some((b[0] as u32 | (b[1] as u32) << 8u32 | (b[2] as u32) << 16u32 | (b[3] as u32) << 24u32) as i32)
    } else {
        None
    }
}

/// The backoff cap after one more failed attempt: doubled, but never above
/// the retry cap.
pub open spec fn next_backoff_cap(cap: u64, retry_cap: u64) -> u64 {
    if cap * 2 > retry_cap {
        retry_cap
    } else {
        (cap * 2) as u64
    }
}

/// Proof of one acquisition: the lock's key and the nonce written for it.
pub struct CoLinkLockToken {
    pub key: String,
    pub rnd_num: i32,
}

/// Why a lock could not be released.
#[derive(Debug, PartialEq, Eq, Structural)]
pub enum LockError {
    /// The stored nonce is not the token's: the lock is held by someone else.
    InvalidToken,
}

/// What a token may do with the lock entry it found.
pub open spec fn release_allowed(token_nonce: i32, stored: Seq<u8>) -> Result<(), LockError> {
    if stored_nonce(stored) == Some(token_nonce) {
        Ok(())
    } else {
        Err(LockError::InvalidToken)
    }
}

/// The storage after a release attempt by a token whose lock entry holds
/// `stored`: the entry goes only when the release is allowed.
pub open spec fn store_after_release(
    store: Map<Seq<char>, Seq<u8>>,
    key: Seq<char>,
    token_nonce: i32,
) -> Map<Seq<char>, Seq<u8>> {
    let k = lock_entry_key_spec(key);
    if store.contains_key(k) && release_allowed(token_nonce, store[k]) is Ok {
        store.remove(k)
    } else {
        store
    }
}

/// Whether the token with this key and nonce holds the lock in `store`.
pub open spec fn holds_lock(store: Map<Seq<char>, Seq<u8>>, key: Seq<char>, nonce: i32) -> bool {
    let k = lock_entry_key_spec(key);
    store.contains_key(k) && store[k] == nonce_le_bytes(nonce)
}

/// The name of the storage entry that stands for the lock on `key`.
pub fn lock_entry_key(key: &str) -> (r: String)
    ensures
        r@ == lock_entry_key_spec(key@),
{
    String::from_str("_lock:").concat(key)
}

proof fn lemma_nonce_round_trip(n: i32)
    ensures
        stored_nonce(nonce_le_bytes(n)) == Some(n),
{
    let u = n as u32;
    let b0 = (u & 0xff) as u8;
    let b1 = ((u >> 8u32) & 0xff) as u8;
    let b2 = ((u >> 16u32) & 0xff) as u8;
    let b3 = ((u >> 24u32) & 0xff) as u8;
    assert((b0 as u32 | (b1 as u32) << 8u32 | (b2 as u32) << 16u32 | (b3 as u32) << 24u32) == u) by (bit_vector)
        requires
            b0 == (u & 0xff) as u8,
            b1 == ((u >> 8u32) & 0xff) as u8,
            b2 == ((u >> 16u32) & 0xff) as u8,
            b3 == ((u >> 24u32) & 0xff) as u8,
    ;
    assert((u as i32) == n) by (bit_vector)
        requires
            u == n as u32,
    ;
    assert(nonce_le_bytes(n) =~= seq![b0, b1, b2, b3]);
}

/// Encodes a nonce as the lock entry's payload.
pub fn nonce_to_bytes(n: i32) -> (r: Vec<u8>)
    ensures
        r@ == nonce_le_bytes(n),
{
    let u = n as u32;
    let mut v: Vec<u8> = Vec::new();
    v.push((u & 0xff) as u8);
    v.push(((u >> 8u32) & 0xff) as u8);
    v.push(((u >> 16u32) & 0xff) as u8);
    v.push(((u >> 24u32) & 0xff) as u8);
    assert(v@ =~= nonce_le_bytes(n));
    v
}

/// Decodes the payload of a lock entry.
pub fn bytes_to_nonce(b: &[u8]) -> (r: Option<i32>)
    ensures
        r == stored_nonce(b@),
{
    if b.len() != 4 {
        return None;
    }
    let u: u32 = b[0] as u32 | (b[1] as u32) << 8u32 | (b[2] as u32) << 16u32 | (b[3] as u32) << 24u32;
    Some(u as i32)
}

/// Decides whether `token` may delete the lock entry that holds `stored`.
/// `Ok` means the entry is the token's own and may be deleted. Lock entries
/// are written with four bytes, and only such an entry is read here.
pub fn check_release(token: &CoLinkLockToken, stored: &[u8]) -> (r: Result<(), LockError>)
    requires
        stored@.len() == 4,
    ensures
        r == release_allowed(token.rnd_num, stored@),
{
    match bytes_to_nonce(stored) {
        Some(n) => if n == token.rnd_num {
            Ok(())
        } else {
            Err(LockError::InvalidToken)
        },
        None => Err(LockError::InvalidToken),
    }
}

/// The payload that an acquisition writes, so that its holder is known.
pub fn token_payload(token: &CoLinkLockToken) -> (r: Vec<u8>)
    ensures
        r@ == nonce_le_bytes(token.rnd_num),
{
    nonce_to_bytes(token.rnd_num)
}

/// What to do after one attempt to create the lock entry.
pub enum LockStep {
    /// The entry was created: the lock is held with this token.
    Acquired(CoLinkLockToken),
    /// The entry exists: sleep this many milliseconds, then try again.
    Retry(u64),
}

/// One acquisition in progress: the nonce it writes and its backoff state.
pub struct LockAcquisition {
    pub key: String,
    pub nonce: i32,
    pub backoff_cap: u64,
    pub retry_cap: u64,
}

impl LockAcquisition {
    /// Backoff caps stay positive, so that each sleep is drawn from a
    /// non-empty range.
    pub open spec fn wf(&self) -> bool {
        self.backoff_cap >= 1 && self.retry_cap >= 1
    }

    /// Starts an acquisition of the lock on `key` with a fresh random nonce.
    pub fn new(key: &str, retry_cap_ms: u64) -> (r: LockAcquisition)
        requires
            retry_cap_ms >= 1,
        ensures
            r.wf(),
            r.key@ == key@,
            r.backoff_cap == INITIAL_BACKOFF_MS,
            r.retry_cap == retry_cap_ms,
    {
        let nonce: i32 = rand::random::<i32>();
        LockAcquisition::with_nonce(key, nonce, retry_cap_ms)
    }

    /// Starts an acquisition of the lock on `key` that writes `nonce`.
    pub fn with_nonce(key: &str, nonce: i32, retry_cap_ms: u64) -> (r: LockAcquisition)
        requires
            retry_cap_ms >= 1,
        ensures
            r.wf(),
            r.key@ == key@,
            r.nonce == nonce,
            r.backoff_cap == INITIAL_BACKOFF_MS,
            r.retry_cap == retry_cap_ms,
    {
        LockAcquisition { key: String::from_str(key), nonce, backoff_cap: INITIAL_BACKOFF_MS, retry_cap: retry_cap_ms }
    }

    /// The entry that each attempt creates.
    pub fn entry_key(&self) -> (r: String)
        ensures
            r@ == lock_entry_key_spec(self.key@),
    {
        lock_entry_key(self.key.as_str())
    }

    /// The payload that each attempt writes.
    pub fn entry_payload(&self) -> (r: Vec<u8>)
        ensures
            r@ == nonce_le_bytes(self.nonce),
    {
        nonce_to_bytes(self.nonce)
    }

    /// Takes the outcome of one create-if-absent attempt. On success the token
    /// carries this acquisition's key and nonce; on failure the sleep is drawn
    /// below the current backoff cap, and the cap doubles up to the retry cap.
    pub fn on_create_result(&mut self, created: bool) -> (r: LockStep)
        requires
            old(self).wf(),
        ensures
            final(self).wf(),
            final(self).key == old(self).key,
            final(self).nonce == old(self).nonce,
            final(self).retry_cap == old(self).retry_cap,
            created ==> final(self).backoff_cap == old(self).backoff_cap,
            !created ==> final(self).backoff_cap == next_backoff_cap(old(self).backoff_cap, old(self).retry_cap),
            match r {
                LockStep::Acquired(t) => created && t.key@ == old(self).key@ && t.rnd_num == old(self).nonce,
                LockStep::Retry(ms) => !created && ms < old(self).backoff_cap,
            },
    {
        if created {
            return LockStep::Acquired(CoLinkLockToken { key: self.key.clone(), rnd_num: self.nonce });
        }
        let sleep_ms = random_in_range(0, self.backoff_cap);
        self.backoff_cap = if self.backoff_cap > self.retry_cap / 2 {
            self.retry_cap
        } else {
            self.backoff_cap * 2
        };
        LockStep::Retry(sleep_ms)
    }
}

/// A token whose nonce differs from the one the lock entry holds is refused,
/// and releasing with it leaves the storage as it was.
pub proof fn lemma_stale_token_never_deletes(store: Map<Seq<char>, Seq<u8>>, key: Seq<char>, token_nonce: i32)
    requires
        store.contains_key(lock_entry_key_spec(key)),
        stored_nonce(store[lock_entry_key_spec(key)]) != Some(token_nonce),
    ensures
        release_allowed(token_nonce, store[lock_entry_key_spec(key)]) is Err,
        store_after_release(store, key, token_nonce) == store,
{
}

/// The holder's own token may release, and releasing removes the entry.
pub proof fn lemma_holder_releases(store: Map<Seq<char>, Seq<u8>>, key: Seq<char>, nonce: i32)
    requires
        holds_lock(store, key, nonce),
    ensures
        release_allowed(nonce, store[lock_entry_key_spec(key)]) is Ok,
        !store_after_release(store, key, nonce).contains_key(lock_entry_key_spec(key)),
{
    lemma_nonce_round_trip(nonce);
}

/// The storage after a create-if-absent of `key` with `value`: unchanged
/// when the key exists, else with the new entry.
pub open spec fn store_after_create(store: Map<Seq<char>, Seq<u8>>, key: Seq<char>, value: Seq<u8>) -> Map<Seq<char>, Seq<u8>> {
    if store.contains_key(key) {
        store
    } else {
        store.insert(key, value)
    }
}

/// While a lock is held, another acquisition's create fails and changes
/// nothing, so the holder keeps it; on a free lock the create succeeds and
/// its nonce holds the lock.
pub proof fn lemma_create_if_absent_excludes(store: Map<Seq<char>, Seq<u8>>, key: Seq<char>, holder: i32, other: i32)
    ensures
        holds_lock(store, key, holder) ==> store_after_create(store, lock_entry_key_spec(key), nonce_le_bytes(other)) == store
            && holds_lock(store_after_create(store, lock_entry_key_spec(key), nonce_le_bytes(other)), key, holder),
        !store.contains_key(lock_entry_key_spec(key))
            ==> holds_lock(store_after_create(store, lock_entry_key_spec(key), nonce_le_bytes(other)), key, other),
{
}

/// At any instant at most one nonce holds the lock on a key: two tokens that
/// both hold it carry the same nonce.
pub proof fn lemma_single_holder(store: Map<Seq<char>, Seq<u8>>, key: Seq<char>, n1: i32, n2: i32)
    requires
        holds_lock(store, key, n1),
        holds_lock(store, key, n2),
    ensures
        n1 == n2,
{
    lemma_nonce_round_trip(n1);
    lemma_nonce_round_trip(n2);
}

/// One step that a participant takes on the lock of a key.
pub enum LockEvent {
    /// A create-if-absent of the lock entry with this nonce.
    Acquire(i32),
    /// A release by the token with this nonce.
    Release(i32),
}

pub open spec fn is_release_by(ev: LockEvent, n: i32) -> bool {
    ev matches LockEvent::Release(m) && m == n
}

pub open spec fn apply_lock_event(store: Map<Seq<char>, Seq<u8>>, key: Seq<char>, ev: LockEvent) -> Map<Seq<char>, Seq<u8>> {
    match ev {
        LockEvent::Acquire(n) => store_after_create(store, lock_entry_key_spec(key), nonce_le_bytes(n)),
        LockEvent::Release(n) => store_after_release(store, key, n),
    }
}

/// The storage after a sequence of lock steps on one key.
pub open spec fn run_lock_events(store: Map<Seq<char>, Seq<u8>>, key: Seq<char>, evs: Seq<LockEvent>) -> Map<Seq<char>, Seq<u8>>
    decreases evs.len(),
{
    if evs.len() == 0 {
        store
    } else {
        apply_lock_event(run_lock_events(store, key, evs.drop_last()), key, evs.last())
    }
}

/// From an acquisition until its own release, the holder keeps the lock
/// whatever others do: every other acquisition fails, every other release is
/// refused, and so no second holder exists in between. Holding intervals of
/// distinct nonces are therefore disjoint.
pub proof fn lemma_holder_keeps_lock_until_release(
    store: Map<Seq<char>, Seq<u8>>,
    key: Seq<char>,
    holder: i32,
    evs: Seq<LockEvent>,
    other: i32,
)
    requires
        holds_lock(store, key, holder),
        forall|i: int| 0 <= i < evs.len() ==> !is_release_by(#[trigger] evs[i], holder),
    ensures
        holds_lock(run_lock_events(store, key, evs), key, holder),
        other != holder ==> !holds_lock(run_lock_events(store, key, evs), key, other),
    decreases evs.len(),
{
    lemma_nonce_round_trip(holder);
    if evs.len() > 0 {
        let pre = evs.drop_last();
        assert forall|i: int| 0 <= i < pre.len() implies !is_release_by(#[trigger] pre[i], holder) by {
            assert(pre[i] == evs[i]);
        }
        lemma_holder_keeps_lock_until_release(store, key, holder, pre, other);
        assert(!is_release_by(evs[evs.len() - 1], holder));
    }
    let end = run_lock_events(store, key, evs);
    if other != holder && holds_lock(end, key, other) {
        lemma_single_holder(end, key, holder, other);
    }
}

} // verus!
