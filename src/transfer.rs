//! Variable transfer between the participants of a task: the relay path
//! through the storage service, and the decisions of the direct path.
use vstd::prelude::*;
use vstd::string::*;
use crate::keys::{relay_variable_key, relay_variable_key_spec, remote_variable_name, remote_variable_name_spec};
use crate::task::Participant;
use crate::text::str_eq;
use crate::inbox::{capability_token, jwt_for_user, jwt_user_claim};
use crate::numfmt::{decimal_u64, decimal_spec};

verus! {

/// The entry under which a provider of remote storage keeps `name` for `requester`.
pub open spec fn remote_storage_private_key_spec(requester: Seq<char>, name: Seq<char>) -> Seq<char> {
    "_remote_storage:private:"@ + requester + ":"@ + name
}

/// The entry under which a provider of remote storage keeps `name` for `requester`.
pub fn remote_storage_private_key(requester: &str, name: &str) -> (r: String)
    ensures
        r@ == remote_storage_private_key_spec(requester@, name@),
{
    String::from_str("_remote_storage:private:").concat(requester).concat(":").concat(name)
}

pub open spec fn requester_role() -> Seq<char> {
    "requester"@
}

pub open spec fn provider_role() -> Seq<char> {
    "provider"@
}

/// The participants of a remote-storage task: the requester first, then one
/// provider for each id in `providers`, in order.
pub open spec fn storage_participants_spec(me: Seq<char>, providers: Seq<Seq<char>>, r: Seq<Participant>) -> bool {
    &&& r.len() == providers.len() + 1
    &&& r[0].user_id@ == me && r[0].role@ == requester_role()
    &&& forall|i: int| 0 <= i < providers.len() ==> (#[trigger] r[i + 1]).user_id@ == providers[i]
        && r[i + 1].role@ == provider_role()
}

pub open spec fn views_of(v: Seq<String>) -> Seq<Seq<char>> {
    v.map_values(|s: String| s@)
}

/// Builds the participant list of a remote-storage task that `me` requests
/// from `providers`.
pub fn remote_storage_participants(me: &str, providers: &[String]) -> (r: Vec<Participant>)
    ensures
        storage_participants_spec(me@, views_of(providers@), r@),
{
    let mut r: Vec<Participant> = Vec::new();
    r.push(Participant { user_id: String::from_str(me), role: String::from_str("requester") });
    let mut i: usize = 0;
    while i < providers.len()
        invariant
            i <= providers@.len(),
            r@.len() == i + 1,
            r@[0].user_id@ == me@ && r@[0].role@ == requester_role(),
            forall|j: int| 0 <= j < i ==> (#[trigger] r@[j + 1]).user_id@ == providers@[j]@
                && r@[j + 1].role@ == provider_role(),
        decreases providers@.len() - i,
    {
        r.push(Participant { user_id: providers[i].clone(), role: String::from_str("provider") });
        i = i + 1;
    }
    r
}

/// The ids of the receivers other than `me`, in order.
pub open spec fn remote_receivers(rs: Seq<Participant>, me: Seq<char>) -> Seq<Seq<char>>
    decreases rs.len(),
{
    if rs.len() == 0 {
        Seq::empty()
    } else if rs.last().user_id@ == me {
        remote_receivers(rs.drop_last(), me)
    } else {
        remote_receivers(rs.drop_last(), me).push(rs.last().user_id@)
    }
}

/// Whether `me` is among the receivers.
pub open spec fn sends_to_self(rs: Seq<Participant>, me: Seq<char>) -> bool {
    exists|i: int| 0 <= i < rs.len() && (#[trigger] rs[i]).user_id@ == me
}

/// How a relayed variable reaches its receivers.
pub struct RelayPlan {
    /// The entry to write directly when this user is itself a receiver.
    pub local_key: Option<String>,
    /// The participants of the remote-storage task: this user as requester,
    /// then each other receiver as provider. The task runs even when this
    /// user is the only participant.
    pub participants: Vec<Participant>,
    /// The name under which each provider stores the payload for this user.
    pub remote_name: String,
}

/// Plans the relay of variable `key` of task `task_id` from `me` to `receivers`.
pub fn relay_plan(me: &str, task_id: &str, key: &str, receivers: &[Participant]) -> (r: RelayPlan)
    ensures
        match r.local_key {
            Some(k) => sends_to_self(receivers@, me@) && k@ == relay_variable_key_spec(me@, task_id@, key@),
            None => !sends_to_self(receivers@, me@),
        },
        storage_participants_spec(me@, remote_receivers(receivers@, me@), r.participants@),
        r.remote_name@ == remote_variable_name_spec(task_id@, key@),
{
    let mut providers: Vec<String> = Vec::new();
    let mut local = false;
    let mut i: usize = 0;
    while i < receivers.len()
        invariant
            i <= receivers@.len(),
            views_of(providers@) == remote_receivers(receivers@.subrange(0, i as int), me@),
            local == sends_to_self(receivers@.subrange(0, i as int), me@),
        decreases receivers@.len() - i,
    {
        let ghost pre = receivers@.subrange(0, i as int);
        let ghost next = receivers@.subrange(0, i + 1);
        assert(next.drop_last() =~= pre);
        if str_eq(receivers[i].user_id.as_str(), me) {
            local = true;
            assert(next[i as int] == receivers@[i as int]);
        } else {
            let ghost before = providers@;
            providers.push(receivers[i].user_id.clone());
            assert(views_of(providers@) =~= views_of(before).push(receivers@[i as int].user_id@));
        }
        proof {
            if local && !sends_to_self(pre, me@) {
                assert(next[i as int].user_id@ == me@);
            }
            if sends_to_self(pre, me@) {
                let w = choose|w: int| 0 <= w < pre.len() && (#[trigger] pre[w]).user_id@ == me@;
                assert(next[w] == pre[w]);
            }
            if sends_to_self(next, me@) && !sends_to_self(pre, me@) {
                let w = choose|w: int| 0 <= w < next.len() && (#[trigger] next[w]).user_id@ == me@;
                if w < i {
                    assert(pre[w] == next[w]);
                }
            }
        }
        i = i + 1;
    }
    assert(receivers@.subrange(0, receivers@.len() as int) =~= receivers@);
    let local_key = if local { Some(relay_variable_key(me, task_id, key)) } else { None };
    RelayPlan {
        local_key,
        participants: remote_storage_participants(me, providers.as_slice()),
        remote_name: remote_variable_name(task_id, key),
    }
}

/// What the relay's provider stores for a variable is what the receiver
/// reads: the provider's private entry for the sender, under the variable's
/// remote name, is the sender's relay entry of that task and key.
pub proof fn lemma_relay_keys_agree(sender: Seq<char>, task_id: Seq<char>, key: Seq<char>)
    ensures
        remote_storage_private_key_spec(sender, remote_variable_name_spec(task_id, key))
            == relay_variable_key_spec(sender, task_id, key),
{
    reveal_strlit(":");
    reveal_strlit("_variable_transfer:");
    reveal_strlit(":_variable_transfer:");
    assert(":"@ + "_variable_transfer:"@ =~= ":_variable_transfer:"@);
    assert(remote_storage_private_key_spec(sender, remote_variable_name_spec(task_id, key))
        =~= relay_variable_key_spec(sender, task_id, key));
}

/// Both paths hand the receiver the bytes that were sent: over the relay, the
/// provider's write under the sender's private key is what the receiver's
/// read of the relay key finds; directly, a delivery with the token issued to
/// the sender is stored and found under the sender and key.
pub proof fn lemma_both_paths_deliver_payload(
    relay: Map<Seq<char>, Seq<u8>>,
    inbox: Map<(Seq<char>, Seq<char>), Seq<u8>>,
    secret: Seq<u8>,
    token: Seq<char>,
    sender: Seq<char>,
    task_id: Seq<char>,
    key: Seq<char>,
    payload: Seq<u8>,
)
    requires
        jwt_user_claim(secret, token) == Some(sender),
    ensures
        relay.insert(remote_storage_private_key_spec(sender, remote_variable_name_spec(task_id, key)), payload)[
            relay_variable_key_spec(sender, task_id, key)] == payload,
        crate::inbox::inbox_reply_spec(Some(sender), Some(key), Some(token), jwt_user_claim(secret, token))
            == crate::inbox::InboxReply::Stored,
        inbox.insert((sender, key), payload)[(sender, key)] == payload,
{
    lemma_relay_keys_agree(sender, task_id, key);
    crate::inbox::lemma_issued_token_delivers(inbox, secret, token, sender, key, payload);
}

/// Why a variable could not be moved.
#[derive(Clone, Copy, Debug, PartialEq, Eq, Structural)]
pub enum TransferError {
    /// The handle is not bound to a task.
    NoTask,
    /// The peer's inbox is not available: use the relay.
    Unavailable,
    /// The inbox was signalled but holds no payload.
    DeliveryFailed,
}

/// Variables move only within a task: the handle must carry a task id.
pub fn check_task_context(task_id: &str) -> (r: Result<(), TransferError>)
    ensures
        r == if task_id@.len() == 0 { Err(TransferError::NoTask) } else { Ok(()) },
{
    if task_id.unicode_len() == 0 {
        Err(TransferError::NoTask)
    } else {
        Ok(())
    }
}

/// What a receiver publishes, over the relay, for one sender: where its inbox
/// listens, the token that sender must present, and the inbox's certificate.
/// An empty address means that there is no inbox.
pub struct InboxDescriptor {
    pub addr: String,
    pub vt_jwt: String,
    pub tls_cert: Vec<u8>,
}

impl View for InboxDescriptor {
    type V = (Seq<char>, Seq<char>, Seq<u8>);

    open spec fn view(&self) -> (Seq<char>, Seq<char>, Seq<u8>) {
        (self.addr@, self.vt_jwt@, self.tls_cert@)
    }
}

impl InboxDescriptor {
    /// A copy of the descriptor.
    pub fn duplicate(&self) -> (r: InboxDescriptor)
        ensures
            r@ == self@,
    {
        InboxDescriptor { addr: self.addr.clone(), vt_jwt: self.vt_jwt.clone(), tls_cert: self.tls_cert.clone() }
    }
}

pub open spec fn inbox_address_spec(public_addr: Seq<char>, port: u16) -> Seq<char> {
    "https://"@ + public_addr + ":"@ + decimal_spec(port as nat)
}

/// The address of an inbox listening on `port` of host `public_addr`.
pub fn inbox_address(public_addr: &str, port: u16) -> (r: String)
    ensures
        r@ == inbox_address_spec(public_addr@, port),
{
    let digits = decimal_u64(port as u64);
    String::from_str("https://").concat(public_addr).concat(":").concat(digits.as_str())
}

/// The descriptor that says there is no inbox.
pub fn no_inbox() -> (r: InboxDescriptor)
    ensures
        r.addr@.len() == 0,
        r.vt_jwt@.len() == 0,
        r.tls_cert@.len() == 0,
{
    InboxDescriptor { addr: String::new(), vt_jwt: String::new(), tls_cert: Vec::new() }
}

/// The descriptor to publish for `sender`: no inbox without a public address;
/// otherwise the inbox's address, a token signed for `sender` with the inbox's
/// secret, and its certificate.
pub fn descriptor_for_sender(
    public_addr: Option<&str>,
    port: u16,
    secret: &[u8],
    tls_cert: &Vec<u8>,
    sender: &str,
) -> (r: InboxDescriptor)
    ensures
        match public_addr {
            None => r.addr@.len() == 0 && r.vt_jwt@.len() == 0 && r.tls_cert@.len() == 0,
            Some(a) => r.addr@ == inbox_address_spec(a@, port) && r.vt_jwt@ == jwt_for_user(secret@, sender@)
                && jwt_user_claim(secret@, r.vt_jwt@) == Some(sender@) && r.tls_cert@ == tls_cert@,
        },
{
    match public_addr {
        None => no_inbox(),
        Some(a) => InboxDescriptor {
            addr: inbox_address(a, port),
            vt_jwt: capability_token(secret, sender),
            tls_cert: tls_cert.clone(),
        },
    }
}

/// One direct delivery: where it goes, the only certificate it trusts, its
/// three headers as (name, value) pairs, and its body.
pub struct InboxPost {
    pub addr: String,
    pub tls_cert: Vec<u8>,
    pub headers: Vec<(String, String)>,
    pub body: Vec<u8>,
}

/// The headers of a direct delivery: the sender's user id, the variable key
/// and the capability token that the receiver issued.
pub open spec fn post_headers_spec(me: Seq<char>, key: Seq<char>, token: Seq<char>) -> Seq<(Seq<char>, Seq<char>)> {
    seq![("user_id"@, me), ("key"@, key), ("token"@, token)]
}

pub open spec fn header_views(h: Seq<(String, String)>) -> Seq<(Seq<char>, Seq<char>)> {
    h.map_values(|p: (String, String)| (p.0@, p.1@))
}

/// Builds the POST that delivers `payload` as variable `key` from `me` to the
/// inbox that `d` describes.
pub fn direct_post(me: &str, key: &str, d: &InboxDescriptor, payload: &[u8]) -> (r: InboxPost)
    ensures
        r.addr@ == d.addr@,
        r.tls_cert@ == d.tls_cert@,
        header_views(r.headers@) == post_headers_spec(me@, key@, d.vt_jwt@),
        r.body@ == payload@,
{
    let mut headers: Vec<(String, String)> = Vec::new();
    headers.push((String::from_str("user_id"), String::from_str(me)));
    headers.push((String::from_str("key"), String::from_str(key)));
    headers.push((String::from_str("token"), d.vt_jwt.clone()));
    assert(header_views(headers@) =~= post_headers_spec(me@, key@, d.vt_jwt@));
    let mut body: Vec<u8> = Vec::new();
    let mut i: usize = 0;
    while i < payload.len()
        invariant
            i <= payload@.len(),
            body@ == payload@.subrange(0, i as int),
        decreases payload@.len() - i,
    {
        body.push(payload[i]);
        assert(body@ =~= payload@.subrange(0, i + 1));
        i = i + 1;
    }
    assert(body@ =~= payload@);
    InboxPost { addr: d.addr.clone(), tls_cert: d.tls_cert.clone(), headers, body }
}

/// A fetched descriptor with an empty address stands for no inbox.
pub fn usable_inbox(d: InboxDescriptor) -> (r: Option<InboxDescriptor>)
    ensures
        match r {
            Some(x) => d.addr@.len() > 0 && x == d,
            None => d.addr@.len() == 0,
        },
{
    if d.addr.unicode_len() == 0 {
        None
    } else {
        Some(d)
    }
}

/// The inboxes of peers as fetched so far, by user id; `None` records a peer
/// with no inbox. Entries are never evicted.
pub struct RemoteInboxCache {
    pub entries: Vec<(String, Option<InboxDescriptor>)>,
}

/// The first entry for `user`, if any.
pub open spec fn first_entry_for(entries: Seq<(String, Option<InboxDescriptor>)>, user: Seq<char>) -> Option<int> {
    if exists|i: int| 0 <= i < entries.len() && (#[trigger] entries[i]).0@ == user {
        Some(choose|i: int| 0 <= i < entries.len() && (#[trigger] entries[i]).0@ == user
            && forall|j: int| 0 <= j < i ==> (#[trigger] entries[j]).0@ != user)
    } else {
        None
    }
}

impl RemoteInboxCache {
    pub fn new() -> (r: RemoteInboxCache)
        ensures
            r.entries@.len() == 0,
    {
        RemoteInboxCache { entries: Vec::new() }
    }

    /// The position of the first entry for `user`.
    pub fn position(&self, user: &str) -> (r: Option<usize>)
        ensures
            match r {
                Some(i) => i < self.entries@.len() && self.entries@[i as int].0@ == user@
                    && forall|j: int| 0 <= j < i ==> (#[trigger] self.entries@[j]).0@ != user@,
                None => forall|j: int| 0 <= j < self.entries@.len() ==> (#[trigger] self.entries@[j]).0@ != user@,
            },
    {
        let mut i: usize = 0;
        while i < self.entries.len()
            invariant
                i <= self.entries@.len(),
                forall|j: int| 0 <= j < i ==> (#[trigger] self.entries@[j]).0@ != user@,
            decreases self.entries@.len() - i,
        {
            if str_eq(self.entries[i].0.as_str(), user) {
                return Some(i);
            }
            i = i + 1;
        }
        None
    }

    /// Records what was fetched for `user`, unless an entry exists already.
    pub fn remember(&mut self, user: String, inbox: Option<InboxDescriptor>)
        ensures
            (exists|j: int| 0 <= j < old(self).entries@.len() && (#[trigger] old(self).entries@[j]).0@ == user@)
                ==> final(self).entries@ == old(self).entries@,
            (forall|j: int| 0 <= j < old(self).entries@.len() ==> (#[trigger] old(self).entries@[j]).0@ != user@)
                ==> final(self).entries@ == old(self).entries@.push((user, inbox)),
    {
        match self.position(user.as_str()) {
            Some(_) => {},
            None => self.entries.push((user, inbox)),
        }
    }
}

/// The next thing the caller must do to deliver a variable to one receiver.
pub enum SendCommand<E> {
    /// Read the receiver's published descriptor over the relay.
    FetchDescriptor,
    /// POST the payload to this inbox.
    PostDirect(InboxDescriptor),
    /// Deliver over the relay instead.
    UseRelay,
    /// Delivered, or failed with this error.
    Finish(Result<(), E>),
}

/// Where a delivery to one receiver stands.
#[derive(Clone, Copy, Debug, PartialEq, Eq, Structural)]
pub enum SendPhase {
    Fetching,
    Posting,
    Relaying,
    Done,
}

/// Delivery of one variable to one receiver: directly when the receiver has
/// an inbox that accepts it, else over the relay.
pub struct DirectSend {
    pub phase: SendPhase,
}

impl DirectSend {
    /// Starts from what the cache holds for the receiver.
    pub fn start<E>(cached: Option<&Option<InboxDescriptor>>) -> (r: (DirectSend, SendCommand<E>))
        ensures
            match cached {
                None => r.0.phase == SendPhase::Fetching && r.1 is FetchDescriptor,
                Some(None) => r.0.phase == SendPhase::Relaying && r.1 is UseRelay,
                Some(Some(d)) => r.0.phase == SendPhase::Posting && (r.1 matches SendCommand::PostDirect(x) && x@ == d@),
            },
    {
        match cached {
            None => (DirectSend { phase: SendPhase::Fetching }, SendCommand::FetchDescriptor),
            Some(None) => (DirectSend { phase: SendPhase::Relaying }, SendCommand::UseRelay),
            Some(Some(d)) => (DirectSend { phase: SendPhase::Posting }, SendCommand::PostDirect(d.duplicate())),
        }
    }

    /// Takes the fetched descriptor (to be cached by the caller as
    /// `usable_inbox` gives it); a failed fetch falls back to the relay.
    pub fn on_descriptor<E>(&mut self, fetched: Result<Option<InboxDescriptor>, E>) -> (r: SendCommand<E>)
        requires
            old(self).phase == SendPhase::Fetching,
        ensures
            match fetched {
                Ok(Some(d)) => final(self).phase == SendPhase::Posting && (r matches SendCommand::PostDirect(x) && x == d),
                _ => final(self).phase == SendPhase::Relaying && r is UseRelay,
            },
    {
        match fetched {
            Ok(Some(d)) => {
                self.phase = SendPhase::Posting;
                SendCommand::PostDirect(d)
            },
            _ => {
                self.phase = SendPhase::Relaying;
                SendCommand::UseRelay
            },
        }
    }

    /// Takes the inbox's HTTP status: only a 200 completes the delivery; any
    /// other status, or a connection failure, falls back to the relay.
    pub fn on_post<E>(&mut self, status: Result<u16, E>) -> (r: SendCommand<E>)
        requires
            old(self).phase == SendPhase::Posting,
        ensures
            match status {
                Ok(200u16) => final(self).phase == SendPhase::Done && r matches SendCommand::Finish(Ok(_)),
                _ => final(self).phase == SendPhase::Relaying && r is UseRelay,
            },
    {
        match status {
            Ok(code) => if code == 200 {
                self.phase = SendPhase::Done;
                SendCommand::Finish(Ok(()))
            } else {
                self.phase = SendPhase::Relaying;
                SendCommand::UseRelay
            },
            Err(_) => {
                self.phase = SendPhase::Relaying;
                SendCommand::UseRelay
            },
        }
    }

    /// Takes the outcome of the relay, which ends the delivery.
    pub fn on_relayed<E>(&mut self, relayed: Result<(), E>) -> (r: SendCommand<E>)
        requires
            old(self).phase == SendPhase::Relaying,
        ensures
            final(self).phase == SendPhase::Done,
            match relayed {
                Ok(_) => r matches SendCommand::Finish(Ok(_)),
                Err(e) => r matches SendCommand::Finish(Err(x)) && x == e,
            },
    {
        self.phase = SendPhase::Done;
        match relayed {
            Ok(_) => SendCommand::Finish(Ok(())),
            Err(e) => SendCommand::Finish(Err(e)),
        }
    }
}

/// The next thing the caller must do to take a variable from the local inbox.
pub enum ReceiveCommand {
    /// Register a one-shot notification for this sender and key, then look again.
    RegisterWaiter,
    /// Block until the notification fires, then look again.
    Wait,
    /// The payload.
    Deliver(Vec<u8>),
    /// Stop with this error.
    Fail(TransferError),
}

/// Where a receive from the local inbox stands.
#[derive(Clone, Copy, Debug, PartialEq, Eq, Structural)]
pub enum ReceivePhase {
    FirstLook,
    LookAfterRegister,
    LookAfterWake,
    Done,
}

/// Taking one variable from the local inbox, without losing a wake-up that
/// races with registration: the inbox is looked at before registering, after
/// registering and after waking.
pub struct DirectReceive {
    pub phase: ReceivePhase,
}

impl DirectReceive {
    /// Starts a receive; a process with no inbox goes to the relay at once.
    pub fn start(has_inbox: bool) -> (r: (DirectReceive, Option<ReceiveCommand>))
        ensures
            has_inbox ==> r.0.phase == ReceivePhase::FirstLook && r.1 is None,
            !has_inbox ==> r.0.phase == ReceivePhase::Done
                && r.1 matches Some(ReceiveCommand::Fail(TransferError::Unavailable)),
    {
        if has_inbox {
            (DirectReceive { phase: ReceivePhase::FirstLook }, None)
        } else {
            (DirectReceive { phase: ReceivePhase::Done }, Some(ReceiveCommand::Fail(TransferError::Unavailable)))
        }
    }

    /// Takes one look at the inbox for the awaited sender and key.
    pub fn on_lookup(&mut self, found: Option<Vec<u8>>) -> (r: ReceiveCommand)
        requires
            old(self).phase != ReceivePhase::Done,
        ensures
            match found {
                Some(p) => final(self).phase == ReceivePhase::Done && (r matches ReceiveCommand::Deliver(x) && x@ == p@),
                None => match old(self).phase {
                    ReceivePhase::FirstLook => final(self).phase == ReceivePhase::LookAfterRegister && r is RegisterWaiter,
                    ReceivePhase::LookAfterRegister => final(self).phase == ReceivePhase::LookAfterWake && r is Wait,
                    _ => final(self).phase == ReceivePhase::Done
                        && r matches ReceiveCommand::Fail(TransferError::DeliveryFailed),
                },
            },
    {
        match found {
            Some(p) => {
                self.phase = ReceivePhase::Done;
                ReceiveCommand::Deliver(p)
            },
            None => match self.phase {
                ReceivePhase::FirstLook => {
                    self.phase = ReceivePhase::LookAfterRegister;
                    ReceiveCommand::RegisterWaiter
                },
                ReceivePhase::LookAfterRegister => {
                    self.phase = ReceivePhase::LookAfterWake;
                    ReceiveCommand::Wait
                },
                _ => {
                    self.phase = ReceivePhase::Done;
                    ReceiveCommand::Fail(TransferError::DeliveryFailed)
                },
            },
        }
    }
}

} // verus!
