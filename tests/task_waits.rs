use colink::task_wait::{
    is_finished, remote_status, shows_finished, task_output_key, task_status_key, task_wait_start, RemoteStatus,
    TaskWaitError, TaskWaitStart,
};

#[test]
fn task_wait_start_cases() {
    assert_eq!(task_wait_start(None), Ok(TaskWaitStart::SubscribeFrom(0)));
    assert_eq!(task_wait_start(Some(("alice::_internal:tasks:t1@9", "finished"))), Ok(TaskWaitStart::Finished));
    assert_eq!(task_wait_start(Some(("alice::_internal:tasks:t1@9", "started"))), Ok(TaskWaitStart::SubscribeFrom(10)));
    assert_eq!(task_wait_start(Some(("no-timestamp", "started"))), Err(TaskWaitError::MalformedKeyPath));
    assert_eq!(task_wait_start(Some(("k@9223372036854775807", "started"))), Err(TaskWaitError::MalformedKeyPath));
}

#[test]
fn finished_notifications() {
    assert!(is_finished("finished"));
    assert!(!is_finished("started"));
    assert!(shows_finished("update", "finished"));
    assert!(!shows_finished("delete", "finished"));
    assert!(!shows_finished("update", "started"));
}

#[test]
fn remote_storage_status() {
    assert_eq!(task_status_key("t1"), "tasks:t1:status");
    assert_eq!(task_output_key("t1"), "tasks:t1:output");
    assert_eq!(remote_status(&[0]), RemoteStatus::Succeeded);
    assert_eq!(remote_status(&[3, 0]), RemoteStatus::Failed(3));
    assert_eq!(remote_status(&[]), RemoteStatus::Empty);
}
