//! The local inbox of direct variable transfer: the payloads that peers
//! delivered, keyed by sender and variable key, and the rules by which an
//! inbound delivery is accepted.
use vstd::prelude::*;
use vstd::string::*;
use crate::text::str_eq;

verus! {

/// The `user_id` claim of `token` when its signature verifies under `secret`
/// (expiry is not checked), as `jsonwebtoken::decode` reads it.
pub uninterp spec fn jwt_user_claim(secret: Seq<u8>, token: Seq<char>) -> Option<Seq<char>>;

/// The token that `jsonwebtoken::encode` signs with `secret` for the claim set
/// `{user_id}`.
pub uninterp spec fn jwt_for_user(secret: Seq<u8>, user_id: Seq<char>) -> Seq<char>;

/// Relies on jsonwebtoken::decode with HS256, the expiry check off and no
/// required claims: the `user_id` string claim of a token that verifies.
#[verifier::external_body]
fn verified_token_user(secret: &[u8], token: &str) -> (r: Option<String>)
    ensures
        match r {
            Some(u) => jwt_user_claim(secret@, token@) == Some(u@),
            None => jwt_user_claim(secret@, token@) is None,
        },
{
    let mut validation = jsonwebtoken::Validation::default();
    validation.validate_exp = false;
    validation.required_spec_claims.clear();
    let key = jsonwebtoken::DecodingKey::from_secret(secret);
    jsonwebtoken::decode::<serde_json::Value>(token, &key, &validation)
        .ok()
        .and_then(|t| t.claims.get("user_id").and_then(|v| v.as_str()).map(|s| s.to_string()))
}

/// Relies on jsonwebtoken::encode with the default HS256 header: signs the
/// claim set `{user_id}` with `secret`. An HMAC key matches the HS256
/// header, and a header or a map of strings always serialises, so it succeeds.
/// `jsonwebtoken::decode` with the same secret checks that HS256 signature and
/// reads back the `user_id` claim just written.
#[verifier::external_body]
fn sign_user_token(secret: &[u8], user_id: &str) -> (r: Option<String>)
    ensures
        r is Some,
        match r {
            Some(t) => t@ == jwt_for_user(secret@, user_id@) && jwt_user_claim(secret@, t@) == Some(user_id@),
            None => true,
        },
{
    let mut claims = serde_json::Map::new();
    claims.insert("user_id".to_string(), serde_json::Value::String(user_id.to_string()));
    let key = jsonwebtoken::EncodingKey::from_secret(secret);
    jsonwebtoken::encode(&jsonwebtoken::Header::default(), &claims, &key).ok()
}

/// The capability token that lets `sender` deliver to an inbox whose secret
/// is `secret`.
pub fn capability_token(secret: &[u8], sender: &str) -> (r: String)
    ensures
        r@ == jwt_for_user(secret@, sender@),
        jwt_user_claim(secret@, r@) == Some(sender@),
{
    match sign_user_token(secret, sender) {
        Some(t) => t,
        None => String::new(),
    }
}

/// The answer to an inbound delivery.
#[derive(Clone, Copy, Debug, PartialEq, Eq, Structural)]
pub enum InboxReply {
    /// 200: the payload is stored.
    Stored,
    /// 400: a header is missing.
    BadRequest,
    /// 401: the token does not verify, or names another sender.
    Unauthorized,
}

impl InboxReply {
    /// The HTTP status of the reply.
    pub fn status_code(&self) -> (r: u16)
        ensures
            r == match *self {
                InboxReply::Stored => 200u16,
                InboxReply::BadRequest => 400u16,
                InboxReply::Unauthorized => 401u16,
            },
    {
        match self {
            InboxReply::Stored => 200,
            InboxReply::BadRequest => 400,
            InboxReply::Unauthorized => 401,
        }
    }
}

/// The reply to a delivery whose headers are `user_id`, `key` and `token`
/// (`None` when absent), given the sender that the token names once verified.
pub open spec fn inbox_reply_spec(
    user_id: Option<Seq<char>>,
    key: Option<Seq<char>>,
    token: Option<Seq<char>>,
    claimed: Option<Seq<char>>,
) -> InboxReply {
    if user_id is None || key is None || token is None {
        InboxReply::BadRequest
    } else if claimed == user_id {
        InboxReply::Stored
    } else {
        InboxReply::Unauthorized
    }
}

pub open spec fn opt_view(o: Option<&str>) -> Option<Seq<char>> {
    match o {
        Some(s) => Some(s@),
        None => None,
    }
}

pub open spec fn opt_string_view(o: Option<String>) -> Option<Seq<char>> {
    match o {
        Some(s) => Some(s@),
        None => None,
    }
}

/// Decides a delivery from its headers and the sender its token names.
pub fn inbox_reply(user_id: Option<&str>, key: Option<&str>, token: Option<&str>, claimed: Option<String>) -> (r: InboxReply)
    ensures
        r == inbox_reply_spec(opt_view(user_id), opt_view(key), opt_view(token), opt_string_view(claimed)),
{
    match (user_id, key, token) {
        (Some(u), Some(_), Some(_)) => match claimed {
            Some(c) => if str_eq(c.as_str(), u) {
                InboxReply::Stored
            } else {
                InboxReply::Unauthorized
            },
            None => InboxReply::Unauthorized,
        },
        _ => InboxReply::BadRequest,
    }
}

/// One payload that a peer delivered.
pub struct PendingVariable {
    pub sender: String,
    pub key: String,
    pub payload: Vec<u8>,
}

/// The payloads that peers delivered to this process, at most one for each
/// sender and key.
pub struct PendingInbox {
    pub entries: Vec<PendingVariable>,
}

pub open spec fn same_slot(a: PendingVariable, sender: Seq<char>, key: Seq<char>) -> bool {
    a.sender@ == sender && a.key@ == key
}

impl PendingInbox {
    pub open spec fn wf(&self) -> bool {
        forall|i: int, j: int|
            0 <= i < j < self.entries@.len() ==> !same_slot(
                #[trigger] self.entries@[i],
                (#[trigger] self.entries@[j]).sender@,
                self.entries@[j].key@,
            )
    }

    /// What is pending, by sender and key.
    pub open spec fn view(&self) -> Map<(Seq<char>, Seq<char>), Seq<u8>> {
        Map::new(
            |k: (Seq<char>, Seq<char>)| exists|i: int| 0 <= i < self.entries@.len() && same_slot(#[trigger] self.entries@[i], k.0, k.1),
            |k: (Seq<char>, Seq<char>)| {
                let i = choose|i: int| 0 <= i < self.entries@.len() && same_slot(#[trigger] self.entries@[i], k.0, k.1);
                self.entries@[i].payload@
            },
        )
    }

    pub fn new() -> (r: PendingInbox)
        ensures
            r.wf(),
            r@ == Map::<(Seq<char>, Seq<char>), Seq<u8>>::empty(),
    {
        let r = PendingInbox { entries: Vec::new() };
        assert(r@ =~= Map::<(Seq<char>, Seq<char>), Seq<u8>>::empty());
        r
    }

    /// The position of the entry for `sender` and `key`.
    fn find(&self, sender: &str, key: &str) -> (r: Option<usize>)
        requires
            self.wf(),
        ensures
            match r {
                Some(i) => i < self.entries@.len() && same_slot(self.entries@[i as int], sender@, key@),
                None => forall|i: int| 0 <= i < self.entries@.len() ==> !same_slot(#[trigger] self.entries@[i], sender@, key@),
            },
    {
        let mut i: usize = 0;
        while i < self.entries.len()
            invariant
                i <= self.entries@.len(),
                forall|j: int| 0 <= j < i ==> !same_slot(#[trigger] self.entries@[j], sender@, key@),
            decreases self.entries@.len() - i,
        {
            if str_eq(self.entries[i].sender.as_str(), sender) && str_eq(self.entries[i].key.as_str(), key) {
                return Some(i);
            }
            i = i + 1;
        }
        None
    }

    /// The payload pending from `sender` under `key`, if one was delivered.
    pub fn get(&self, sender: &str, key: &str) -> (r: Option<Vec<u8>>)
        requires
            self.wf(),
        ensures
            match r {
                Some(p) => self@.contains_key((sender@, key@)) && self@[(sender@, key@)] == p@,
                None => !self@.contains_key((sender@, key@)),
            },
    {
        match self.find(sender, key) {
            Some(i) => {
                proof { self.lemma_slot_value(i as int); }
                Some(self.entries[i].payload.clone())
            },
            None => None,
        }
    }

    proof fn lemma_slot_value(&self, i: int)
        requires
            self.wf(),
            0 <= i < self.entries@.len(),
        ensures
            self@.contains_key((self.entries@[i].sender@, self.entries@[i].key@)),
            self@[(self.entries@[i].sender@, self.entries@[i].key@)] == self.entries@[i].payload@,
    {
        let k = (self.entries@[i].sender@, self.entries@[i].key@);
        assert(same_slot(self.entries@[i], k.0, k.1));
        let j = choose|j: int| 0 <= j < self.entries@.len() && same_slot(#[trigger] self.entries@[j], k.0, k.1);
        if j != i {
            if j < i {
                assert(!same_slot(self.entries@[j], self.entries@[i].sender@, self.entries@[i].key@));
            } else {
                assert(!same_slot(self.entries@[i], self.entries@[j].sender@, self.entries@[j].key@));
            }
        }
    }

    /// Stores a delivered payload, replacing an earlier one from the same
    /// sender under the same key.
    pub fn deliver(&mut self, sender: String, key: String, payload: Vec<u8>)
        requires
            old(self).wf(),
        ensures
            final(self).wf(),
            final(self)@ == old(self)@.insert((sender@, key@), payload@),
    {
        let ghost k = (sender@, key@);
        let ghost pv = payload@;
        match self.find(sender.as_str(), key.as_str()) {
            Some(i) => {
                let ghost before = self.entries@;
                self.entries.set(i, PendingVariable { sender, key, payload });
                proof {
                    assert forall|a: int, b: int| 0 <= a < b < self.entries@.len() implies !same_slot(
                        #[trigger] self.entries@[a], (#[trigger] self.entries@[b]).sender@, self.entries@[b].key@) by {
                        if a == i as int {
                            assert(!same_slot(before[b], before[a].sender@, before[a].key@) || a == b);
                        } else if b == i as int {
                            assert(!same_slot(before[a], before[b].sender@, before[b].key@));
                        }
                    }
                    assert forall|kk: (Seq<char>, Seq<char>)| #[trigger] self@.contains_key(kk)
                        == old(self)@.insert(k, pv).contains_key(kk) by {
                        if exists|x: int| 0 <= x < before.len() && same_slot(#[trigger] before[x], kk.0, kk.1) {
                            let x = choose|x: int| 0 <= x < before.len() && same_slot(#[trigger] before[x], kk.0, kk.1);
                            if x == i as int {
                                assert(same_slot(self.entries@[x], kk.0, kk.1));
                            } else {
                                assert(self.entries@[x] == before[x]);
                            }
                        }
                        if exists|x: int| 0 <= x < self.entries@.len() && same_slot(#[trigger] self.entries@[x], kk.0, kk.1) {
                            let x = choose|x: int| 0 <= x < self.entries@.len() && same_slot(#[trigger] self.entries@[x], kk.0, kk.1);
                            if x != i as int {
                                assert(before[x] == self.entries@[x]);
                            } else {
                                assert(same_slot(before[x], kk.0, kk.1));
                            }
                        }
                    }
                    assert forall|kk: (Seq<char>, Seq<char>)| #[trigger] self@.contains_key(kk)
                        implies self@[kk] == old(self)@.insert(k, pv)[kk] by {
                        let x = choose|x: int| 0 <= x < self.entries@.len() && same_slot(#[trigger] self.entries@[x], kk.0, kk.1);
                        self.lemma_slot_value(x);
                        if x != i as int {
                            assert(before[x] == self.entries@[x]);
                            old(self).lemma_slot_value(x);
                        }
                    }
                    assert(self@ =~= old(self)@.insert(k, pv));
                }
            },
            None => {
                let ghost before = self.entries@;
                self.entries.push(PendingVariable { sender, key, payload });
                proof {
                    let n = before.len() as int;
                    assert forall|a: int, b: int| 0 <= a < b < self.entries@.len() implies !same_slot(
                        #[trigger] self.entries@[a], (#[trigger] self.entries@[b]).sender@, self.entries@[b].key@) by {
                        if b == n {
                            assert(!same_slot(before[a], k.0, k.1));
                        } else {
                            assert(self.entries@[a] == before[a] && self.entries@[b] == before[b]);
                        }
                    }
                    assert forall|kk: (Seq<char>, Seq<char>)| #[trigger] self@.contains_key(kk)
                        == old(self)@.insert(k, pv).contains_key(kk) by {
                        if exists|x: int| 0 <= x < before.len() && same_slot(#[trigger] before[x], kk.0, kk.1) {
                            let x = choose|x: int| 0 <= x < before.len() && same_slot(#[trigger] before[x], kk.0, kk.1);
                            assert(self.entries@[x] == before[x]);
                        }
                        if kk == k {
                            assert(same_slot(self.entries@[n], kk.0, kk.1));
                        }
                        if exists|x: int| 0 <= x < self.entries@.len() && same_slot(#[trigger] self.entries@[x], kk.0, kk.1) {
                            let x = choose|x: int| 0 <= x < self.entries@.len() && same_slot(#[trigger] self.entries@[x], kk.0, kk.1);
                            if x < n {
                                assert(before[x] == self.entries@[x]);
                            }
                        }
                    }
                    assert forall|kk: (Seq<char>, Seq<char>)| #[trigger] self@.contains_key(kk)
                        implies self@[kk] == old(self)@.insert(k, pv)[kk] by {
                        let x = choose|x: int| 0 <= x < self.entries@.len() && same_slot(#[trigger] self.entries@[x], kk.0, kk.1);
                        self.lemma_slot_value(x);
                        if x < n {
                            assert(before[x] == self.entries@[x]);
                            old(self).lemma_slot_value(x);
                        }
                    }
                    assert(self@ =~= old(self)@.insert(k, pv));
                }
            },
        }
    }

    /// Handles one inbound delivery: checks its headers and its capability
    /// token against the inbox's `secret`, and stores the body when the token
    /// names the sender that the `user_id` header claims.
    pub fn handle_delivery(
        &mut self,
        secret: &[u8],
        user_id: Option<&str>,
        key: Option<&str>,
        token: Option<&str>,
        body: Vec<u8>,
    ) -> (r: InboxReply)
        requires
            old(self).wf(),
        ensures
            final(self).wf(),
            r == inbox_reply_spec(opt_view(user_id), opt_view(key), opt_view(token),
                match token { Some(t) => jwt_user_claim(secret@, t@), None => None }),
            r == InboxReply::Stored ==> final(self)@ == old(self)@.insert((user_id->Some_0@, key->Some_0@), body@),
            r != InboxReply::Stored ==> final(self)@ == old(self)@,
    {
        let claimed = match token {
            Some(t) => verified_token_user(secret, t),
            None => None,
        };
        let reply = inbox_reply(user_id, key, token, claimed);
        if reply == InboxReply::Stored {
            match (user_id, key) {
                (Some(u), Some(k)) => self.deliver(String::from_str(u), String::from_str(k), body),
                _ => {},
            }
        }
        reply
    }
}

/// A delivery that carries the token issued to its sender is stored, and a
/// later lookup for that sender and key returns the payload byte for byte.
pub proof fn lemma_issued_token_delivers(
    before: Map<(Seq<char>, Seq<char>), Seq<u8>>,
    secret: Seq<u8>,
    token: Seq<char>,
    sender: Seq<char>,
    key: Seq<char>,
    payload: Seq<u8>,
)
    requires
        jwt_user_claim(secret, token) == Some(sender),
    ensures
        inbox_reply_spec(Some(sender), Some(key), Some(token), jwt_user_claim(secret, token)) == InboxReply::Stored,
        before.insert((sender, key), payload).contains_key((sender, key)),
        before.insert((sender, key), payload)[(sender, key)] == payload,
{
}

} // verus!
