use colink::change_feed::{is_delete_change, ChangeFeedWait, Notification, WaitCommand, WaitPhase};
use colink::protocol::{classify_handler, init_required, initialized_flag, replay_start_timestamp, worker_plan, HandlerKind, StartedList};
use colink::runner::{
    DiscoveryCommand, DispatchCommand, LivenessMonitor, LivenessStep, QueueDiscovery, RunnerError, TaskDispatch,
};
use colink::task::{get_participant_index, Participant, Task};

fn note(change_type: &str, payload: &[u8]) -> Notification {
    Notification { change_type: change_type.to_string(), payload: payload.to_vec() }
}

#[test]
fn wait_returns_an_existing_value_in_one_read() {
    let mut w: ChangeFeedWait<String> = ChangeFeedWait::new();
    match w.on_read(Ok(b"v".to_vec())) {
        WaitCommand::Finish(Ok(v)) => assert_eq!(v, b"v".to_vec()),
        _ => panic!("expected the value"),
    }
    assert_eq!(w.phase, WaitPhase::Finished);
}

#[test]
fn wait_for_a_key_created_later() {
    let mut w: ChangeFeedWait<String> = ChangeFeedWait::new();
    let mut calls = 1;
    assert!(matches!(w.on_read(Err("not found".to_string())), WaitCommand::Subscribe));
    calls += 1;
    assert!(matches!(w.on_subscribe(Ok(())), WaitCommand::PullNext));
    calls += 1;
    assert!(matches!(w.on_notification(Ok(note("create", b"created later"))), WaitCommand::Unsubscribe));
    match w.on_unsubscribe(Ok(())) {
        WaitCommand::Finish(Ok(v)) => assert_eq!(v, b"created later".to_vec()),
        _ => panic!("expected the created payload"),
    }
    assert_eq!(calls, 3);
}

#[test]
fn wait_on_a_deleted_key_gives_the_read_error() {
    let mut w: ChangeFeedWait<String> = ChangeFeedWait::new();
    w.on_read(Err("not found".to_string()));
    w.on_subscribe(Ok(()));
    w.on_notification(Ok(note("delete", b"")));
    match w.on_unsubscribe(Ok(())) {
        WaitCommand::Finish(Err(e)) => assert_eq!(e, "not found"),
        _ => panic!("expected the read error"),
    }
}

#[test]
fn wait_fails_when_subscription_fails() {
    let mut w: ChangeFeedWait<String> = ChangeFeedWait::new();
    w.on_read(Err("not found".to_string()));
    match w.on_subscribe(Err("no queue".to_string())) {
        WaitCommand::Finish(Err(e)) => assert_eq!(e, "no queue"),
        _ => panic!("expected the subscribe error"),
    }
}

#[test]
fn delete_change_type() {
    assert!(is_delete_change("delete"));
    assert!(!is_delete_change("update"));
    assert!(!is_delete_change("deleted"));
}

#[test]
fn discovery_adopts_an_existing_queue() {
    let (mut d, first) = QueueDiscovery::start("greetings:receiver");
    match first {
        DiscoveryCommand::ReadQueueName(k) => assert_eq!(k, "_internal:protocols:greetings:receiver:operator_mq"),
        _ => panic!("expected a read of the queue name"),
    }
    assert!(matches!(d.on_queue_name::<String>(Ok("q1".to_string())), DiscoveryCommand::Unlock));
    match d.on_unlocked::<String>(Ok(())) {
        DiscoveryCommand::Ready(q) => assert_eq!(q, "q1"),
        _ => panic!("expected the adopted queue"),
    }
}

#[test]
fn discovery_creates_a_queue_from_the_earliest_task() {
    let (mut d, _) = QueueDiscovery::start("greetings:receiver");
    match d.on_queue_name::<String>(Err("absent".to_string())) {
        DiscoveryCommand::ReadStartedList(k) => assert_eq!(k, "_internal:protocols:greetings:receiver:started"),
        _ => panic!("expected a read of the started list"),
    }
    let list = StartedList {
        key_path: "alice::_internal:protocols:greetings:receiver:started@50".to_string(),
        task_key_paths: vec!["t@30".to_string(), "t@20".to_string(), "t@40".to_string()],
    };
    match d.on_started_list::<String>(Ok(list)) {
        DiscoveryCommand::Subscribe(k, ts) => {
            assert_eq!(k, "_internal:protocols:greetings:receiver:started:latest");
            assert_eq!(ts, 20);
        }
        _ => panic!("expected a subscription"),
    }
    match d.on_subscribed::<String>(Ok("q2".to_string())) {
        DiscoveryCommand::PersistQueueName(k, v) => {
            assert_eq!(k, "_internal:protocols:greetings:receiver:operator_mq");
            assert_eq!(v, "q2");
        }
        _ => panic!("expected the queue name to be recorded"),
    }
    assert!(matches!(d.on_persisted::<String>(Ok(())), DiscoveryCommand::Unlock));
    match d.on_unlocked::<String>(Ok(())) {
        DiscoveryCommand::Ready(q) => assert_eq!(q, "q2"),
        _ => panic!("expected the new queue"),
    }
}

#[test]
fn replay_start_cases() {
    assert_eq!(replay_start_timestamp(&None), Some(0));
    let empty = StartedList { key_path: "l@50".to_string(), task_key_paths: vec![] };
    assert_eq!(replay_start_timestamp(&Some(empty)), Some(50));
    let bad = StartedList { key_path: "l@50".to_string(), task_key_paths: vec!["t@1".to_string(), "t".to_string()] };
    assert_eq!(replay_start_timestamp(&Some(bad)), None);
}

#[test]
fn discovery_fails_on_a_malformed_path() {
    let (mut d, _) = QueueDiscovery::start("p:r");
    d.on_queue_name::<String>(Err("absent".to_string()));
    let bad = StartedList { key_path: "l".to_string(), task_key_paths: vec![] };
    assert!(matches!(d.on_started_list::<String>(Ok(bad)), DiscoveryCommand::Fail(RunnerError::MalformedKeyPath)));
}

fn task(status: &str) -> Task {
    Task {
        task_id: "t1".to_string(),
        protocol_name: "greetings".to_string(),
        protocol_param: b"hello".to_vec(),
        participants: vec![],
        status: status.to_string(),
    }
}

#[test]
fn failing_handler_still_finishes_its_task() {
    let (mut d, first) = TaskDispatch::on_delivery::<String>("create", Some("t1".to_string()));
    match first {
        DispatchCommand::ReadTask(k) => assert_eq!(k, "_internal:tasks:t1"),
        _ => panic!("expected a task read"),
    }
    match d.on_task::<String>(Ok(task("started"))) {
        DispatchCommand::RunHandler(t) => assert_eq!(t.protocol_param, b"hello".to_vec()),
        _ => panic!("expected the handler to run"),
    }
    match d.on_handler_done(Err("handler failed".to_string())) {
        DispatchCommand::FinishTask(id) => assert_eq!(id, "t1"),
        _ => panic!("expected the task to be finished"),
    }
    assert!(matches!(d.on_finished::<String>(Ok(())), DispatchCommand::Ack));
}

#[test]
fn dispatch_skips_tasks_not_started() {
    let (mut d, _) = TaskDispatch::on_delivery::<String>("update", Some("t1".to_string()));
    assert!(matches!(d.on_task::<String>(Ok(task("finished"))), DispatchCommand::Ack));
    let (_, c) = TaskDispatch::on_delivery::<String>("delete", Some("t1".to_string()));
    assert!(matches!(c, DispatchCommand::Ack));
    let (mut e, _) = TaskDispatch::on_delivery::<String>("create", Some("t2".to_string()));
    assert!(matches!(e.on_task::<String>(Err("gone".to_string())), DispatchCommand::Ack));
}

#[test]
fn finish_error_stops_without_ack() {
    let (mut d, _) = TaskDispatch::on_delivery::<String>("create", Some("t1".to_string()));
    d.on_task::<String>(Ok(task("started")));
    d.on_handler_done::<String>(Ok(()));
    match d.on_finished(Err("down".to_string())) {
        DispatchCommand::Fail(e) => assert_eq!(e, "down"),
        _ => panic!("expected a failure"),
    }
}

#[test]
fn third_failed_probe_shuts_down() {
    let mut m = LivenessMonitor::new();
    for _ in 0..2 {
        match m.on_probe(false) {
            LivenessStep::Continue(s) => assert!((32..64).contains(&s)),
            LivenessStep::Shutdown => panic!("too early"),
        }
    }
    assert!(matches!(m.on_probe(true), LivenessStep::Continue(_)));
    assert_eq!(m.failures, 0);
    m.on_probe(false);
    m.on_probe(false);
    assert!(matches!(m.on_probe(false), LivenessStep::Shutdown));
}

#[test]
fn handler_entries() {
    assert!(matches!(classify_handler("greetings:@init"), HandlerKind::Init(p) if p == "greetings"));
    assert!(matches!(classify_handler("greetings:initiator"), HandlerKind::Operator(p) if p == "greetings"));
    assert!(matches!(classify_handler("a:b:c"), HandlerKind::Operator(p) if p == "a:b"));
    assert!(matches!(classify_handler("plain"), HandlerKind::Operator(p) if p == "plain"));
}

#[test]
fn init_flag_reading() {
    assert!(init_required(&None));
    assert!(init_required(&Some(vec![0])));
    assert!(init_required(&Some(vec![])));
    assert!(!init_required(&Some(vec![1])));
    assert_eq!(initialized_flag(), vec![1]);
}

#[test]
fn failed_init_excludes_workers() {
    let entries: Vec<String> = ["p:a", "p:b", "q:@init", "q:x", "r:y"].iter().map(|s| s.to_string()).collect();
    let plan = worker_plan(&entries, &vec!["q".to_string()]);
    assert_eq!(plan.protocols, vec!["p".to_string(), "r".to_string()]);
    assert_eq!(plan.operators, vec![0, 1, 4]);
}

#[test]
fn participant_lookup() {
    let ps = vec![
        Participant { user_id: "a".to_string(), role: "initiator".to_string() },
        Participant { user_id: "b".to_string(), role: "receiver".to_string() },
    ];
    assert_eq!(get_participant_index(&ps, "b"), Some(1));
    assert_eq!(get_participant_index(&ps, "c"), None);
}
