use colink::inbox::{capability_token, InboxReply, PendingInbox};
use colink::keys::{relay_variable_key, remote_variable_name};
use colink::task::Participant;
use colink::transfer::{
    check_task_context, descriptor_for_sender, direct_post, inbox_address, no_inbox, relay_plan, remote_storage_participants,
    remote_storage_private_key, usable_inbox, DirectReceive, DirectSend, InboxDescriptor, ReceiveCommand,
    RemoteInboxCache, SendCommand, TransferError,
};
use std::collections::HashMap;

fn p(user: &str, role: &str) -> Participant {
    Participant { user_id: user.to_string(), role: role.to_string() }
}

#[test]
fn inbox_accepts_the_named_sender() {
    let secret = [7u8; 32];
    let token = capability_token(&secret, "alice");
    let mut inbox = PendingInbox::new();
    let r = inbox.handle_delivery(&secret, Some("alice"), Some("output"), Some(&token), b"hello".to_vec());
    assert_eq!(r, InboxReply::Stored);
    assert_eq!(r.status_code(), 200);
    assert_eq!(inbox.get("alice", "output"), Some(b"hello".to_vec()));
    assert_eq!(inbox.get("alice", "other"), None);
}

#[test]
fn inbox_refuses_another_sender() {
    let secret = [7u8; 32];
    let token = capability_token(&secret, "alice");
    let mut inbox = PendingInbox::new();
    let r = inbox.handle_delivery(&secret, Some("mallory"), Some("output"), Some(&token), b"x".to_vec());
    assert_eq!(r, InboxReply::Unauthorized);
    assert_eq!(r.status_code(), 401);
    assert_eq!(inbox.get("mallory", "output"), None);
    let other_secret = [8u8; 32];
    let r = inbox.handle_delivery(&other_secret, Some("alice"), Some("output"), Some(&token), b"x".to_vec());
    assert_eq!(r, InboxReply::Unauthorized);
    let r = inbox.handle_delivery(&secret, Some("alice"), Some("output"), Some("not-a-token"), b"x".to_vec());
    assert_eq!(r, InboxReply::Unauthorized);
}

#[test]
fn inbox_requires_all_headers() {
    let secret = [7u8; 32];
    let token = capability_token(&secret, "alice");
    let mut inbox = PendingInbox::new();
    let r = inbox.handle_delivery(&secret, Some("alice"), None, Some(&token), b"x".to_vec());
    assert_eq!(r, InboxReply::BadRequest);
    assert_eq!(r.status_code(), 400);
    assert_eq!(inbox.handle_delivery(&secret, None, Some("k"), Some(&token), vec![]), InboxReply::BadRequest);
    assert_eq!(inbox.handle_delivery(&secret, Some("alice"), Some("k"), None, vec![]), InboxReply::BadRequest);
}

#[test]
fn inbox_keeps_the_latest_delivery() {
    let mut inbox = PendingInbox::new();
    inbox.deliver("a".to_string(), "k".to_string(), vec![1]);
    inbox.deliver("b".to_string(), "k".to_string(), vec![2]);
    inbox.deliver("a".to_string(), "k".to_string(), vec![3]);
    assert_eq!(inbox.get("a", "k"), Some(vec![3]));
    assert_eq!(inbox.get("b", "k"), Some(vec![2]));
    assert_eq!(inbox.entries.len(), 2);
}

#[test]
fn relay_plan_splits_local_and_remote_receivers() {
    let plan = relay_plan("me", "t1", "output", &[p("me", "x"), p("bob", "y"), p("carol", "z")]);
    assert_eq!(plan.local_key, Some("_remote_storage:private:me:_variable_transfer:t1:output".to_string()));
    let ids: Vec<(String, String)> = plan.participants.iter().map(|q| (q.user_id.clone(), q.role.clone())).collect();
    assert_eq!(
        ids,
        vec![
            ("me".to_string(), "requester".to_string()),
            ("bob".to_string(), "provider".to_string()),
            ("carol".to_string(), "provider".to_string()),
        ]
    );
    assert_eq!(plan.remote_name, "_variable_transfer:t1:output");
    let only_remote = relay_plan("me", "t1", "output", &[p("bob", "y")]);
    assert_eq!(only_remote.local_key, None);
    assert_eq!(only_remote.participants.len(), 2);
}

#[test]
fn relay_path_delivers_the_exact_bytes() {
    let mut store: HashMap<String, Vec<u8>> = HashMap::new();
    let plan = relay_plan("initiator", "t9", "output", &[p("receiver", "receiver")]);
    let requester = &plan.participants[0].user_id;
    store.insert(remote_storage_private_key(requester, &plan.remote_name), b"hello".to_vec());
    let read_key = relay_variable_key("initiator", "t9", "output");
    assert_eq!(store.get(&read_key), Some(&b"hello".to_vec()));
}

#[test]
fn relay_and_direct_paths_agree() {
    let payload: Vec<u8> = (0..=255u8).cycle().take(5000).collect();
    let mut relay: HashMap<String, Vec<u8>> = HashMap::new();
    relay.insert(remote_storage_private_key("s", &remote_variable_name("t", "v")), payload.clone());
    let secret = [1u8; 32];
    let token = capability_token(&secret, "s");
    let mut inbox = PendingInbox::new();
    inbox.handle_delivery(&secret, Some("s"), Some("v"), Some(&token), payload.clone());
    assert_eq!(relay.get(&relay_variable_key("s", "t", "v")).cloned(), inbox.get("s", "v"));
}

#[test]
fn storage_participants_order() {
    let ps = remote_storage_participants("me", &["p1".to_string(), "p2".to_string()]);
    assert_eq!(ps.len(), 3);
    assert_eq!(ps[0].role, "requester");
    assert_eq!(ps[2].user_id, "p2");
    assert_eq!(ps[2].role, "provider");
}

#[test]
fn task_context_required() {
    assert_eq!(check_task_context(""), Err(TransferError::NoTask));
    assert_eq!(check_task_context("t1"), Ok(()));
}

#[test]
fn descriptors() {
    assert_eq!(inbox_address("10.0.0.1", 8443), "https://10.0.0.1:8443");
    assert_eq!(inbox_address("h", 0), "https://h:0");
    assert_eq!(inbox_address("h", 65535), "https://h:65535");
    let d = descriptor_for_sender(None, 1, &[0u8; 32], &vec![1, 2], "bob");
    assert!(d.addr.is_empty() && d.vt_jwt.is_empty() && d.tls_cert.is_empty());
    let secret = [3u8; 32];
    let d = descriptor_for_sender(Some("1.2.3.4"), 20000, &secret, &vec![9], "bob");
    assert_eq!(d.addr, "https://1.2.3.4:20000");
    assert_eq!(d.vt_jwt, capability_token(&secret, "bob"));
    assert_eq!(d.tls_cert, vec![9]);
    assert!(usable_inbox(no_inbox()).is_none());
    assert!(usable_inbox(d).is_some());
}

fn descriptor() -> InboxDescriptor {
    InboxDescriptor { addr: "https://h:1".to_string(), vt_jwt: "t".to_string(), tls_cert: vec![1] }
}

#[test]
fn direct_send_falls_back_to_relay() {
    let (mut s, c) = DirectSend::start::<String>(None);
    assert!(matches!(c, SendCommand::FetchDescriptor));
    assert!(matches!(s.on_descriptor::<String>(Ok(Some(descriptor()))), SendCommand::PostDirect(_)));
    assert!(matches!(s.on_post::<String>(Ok(500)), SendCommand::UseRelay));
    assert!(matches!(s.on_relayed::<String>(Ok(())), SendCommand::Finish(Ok(()))));
    let cached = Some(descriptor());
    let (mut s, c) = DirectSend::start::<String>(Some(&cached));
    assert!(matches!(c, SendCommand::PostDirect(d) if d.addr == "https://h:1"));
    assert!(matches!(s.on_post::<String>(Ok(200)), SendCommand::Finish(Ok(()))));
    let (_, c) = DirectSend::start::<String>(Some(&None));
    assert!(matches!(c, SendCommand::UseRelay));
    let (mut s, _) = DirectSend::start::<String>(None);
    assert!(matches!(s.on_descriptor::<String>(Err("no inbox".to_string())), SendCommand::UseRelay));
    let (mut s, _) = DirectSend::start::<String>(None);
    s.on_descriptor::<String>(Ok(None));
    assert!(matches!(s.on_relayed(Err("down".to_string())), SendCommand::Finish(Err(e)) if e == "down"));
}

#[test]
fn direct_receive_looks_three_times() {
    let (_, c) = DirectReceive::start(false);
    assert!(matches!(c, Some(ReceiveCommand::Fail(TransferError::Unavailable))));
    let (mut r, c) = DirectReceive::start(true);
    assert!(c.is_none());
    assert!(matches!(r.on_lookup(None), ReceiveCommand::RegisterWaiter));
    assert!(matches!(r.on_lookup(None), ReceiveCommand::Wait));
    assert!(matches!(r.on_lookup(None), ReceiveCommand::Fail(TransferError::DeliveryFailed)));
    let (mut r, _) = DirectReceive::start(true);
    r.on_lookup(None);
    assert!(matches!(r.on_lookup(Some(vec![5])), ReceiveCommand::Deliver(v) if v == vec![5]));
}

#[test]
fn inbox_cache_keeps_the_first_entry() {
    let mut cache = RemoteInboxCache::new();
    assert_eq!(cache.position("bob"), None);
    cache.remember("bob".to_string(), None);
    cache.remember("bob".to_string(), Some(descriptor()));
    cache.remember("carol".to_string(), Some(descriptor()));
    assert_eq!(cache.position("bob"), Some(0));
    assert!(cache.entries[0].1.is_none());
    assert_eq!(cache.position("carol"), Some(1));
}

#[test]
fn greetings_output_reaches_the_receiver() {
    let mut store: HashMap<String, Vec<u8>> = HashMap::new();
    let task_id = "greetings-task-1";
    let initiator = p("initiator", "initiator");
    let receiver = p("receiver", "receiver");
    let protocol_param = b"hello".to_vec();
    let plan = relay_plan(&initiator.user_id, task_id, "output", &[receiver.clone_participant()]);
    assert_eq!(plan.local_key, None);
    store.insert(remote_storage_private_key(&plan.participants[0].user_id, &plan.remote_name), protocol_param.clone());
    let received = store.get(&relay_variable_key(&initiator.user_id, task_id, "output")).cloned().unwrap();
    store.insert(format!("tasks:{}:output", task_id), received);
    assert_eq!(store.get(&format!("tasks:{}:output", task_id)), Some(&b"hello".to_vec()));
}

trait CloneParticipant {
    fn clone_participant(&self) -> Participant;
}

impl CloneParticipant for Participant {
    fn clone_participant(&self) -> Participant {
        Participant { user_id: self.user_id.clone(), role: self.role.clone() }
    }
}

#[test]
fn direct_post_carries_three_headers() {
    let d = descriptor();
    let post = direct_post("alice", "output", &d, b"hello");
    assert_eq!(post.addr, "https://h:1");
    assert_eq!(post.tls_cert, vec![1]);
    assert_eq!(
        post.headers,
        vec![
            ("user_id".to_string(), "alice".to_string()),
            ("key".to_string(), "output".to_string()),
            ("token".to_string(), "t".to_string()),
        ]
    );
    assert_eq!(post.body, b"hello".to_vec());
}

#[test]
fn signed_descriptor_token_opens_the_inbox() {
    let secret = [4u8; 32];
    let d = descriptor_for_sender(Some("h"), 443, &secret, &vec![], "alice");
    let post = direct_post("alice", "v", &d, b"bytes");
    let h = |n: &str| post.headers.iter().find(|(k, _)| k == n).map(|(_, v)| v.clone());
    let mut inbox = PendingInbox::new();
    let reply = inbox.handle_delivery(&secret, h("user_id").as_deref(), h("key").as_deref(), h("token").as_deref(), post.body.clone());
    assert_eq!(reply, InboxReply::Stored);
    assert_eq!(inbox.get("alice", "v"), Some(b"bytes".to_vec()));
}
