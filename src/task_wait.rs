//! Waiting for a task to finish, and reading what a remote-storage task
//! reported.
use vstd::prelude::*;
use vstd::string::*;
use crate::key_path::{parse_path_timestamp, path_timestamp};
use crate::text::str_eq;

verus! {

pub open spec fn is_finished_spec(status: Seq<char>) -> bool {
    status == "finished"@
}

/// Whether a task's status says it has finished.
pub fn is_finished(status: &str) -> (r: bool)
    ensures
        r == is_finished_spec(status@),
{
    str_eq(status, "finished")
}

/// How a wait for a task begins.
#[derive(Clone, Copy, Debug, PartialEq, Eq, Structural)]
pub enum TaskWaitStart {
    /// The task has finished already.
    Finished,
    /// Subscribe to the task's record from this timestamp on.
    SubscribeFrom(i64),
}

/// Why a wait for a task cannot proceed.
#[derive(Clone, Copy, Debug, PartialEq, Eq, Structural)]
pub enum TaskWaitError {
    /// The task record's key path carries no timestamp after which to listen.
    MalformedKeyPath,
}

/// Decides how to wait for a task, given its current record (key path and
/// status), if any: no record means subscribing from zero; a finished task
/// means done; otherwise subscribe from just after the record's write.
pub fn task_wait_start(record: Option<(&str, &str)>) -> (r: Result<TaskWaitStart, TaskWaitError>)
    ensures
        match record {
            None => r == Ok::<TaskWaitStart, TaskWaitError>(TaskWaitStart::SubscribeFrom(0)),
            Some((path, status)) => if is_finished_spec(status@) {
                r == Ok::<TaskWaitStart, TaskWaitError>(TaskWaitStart::Finished)
            } else {
                match path_timestamp(path@) {
                    Some(t) => if t < i64::MAX {
                        r == Ok::<TaskWaitStart, TaskWaitError>(TaskWaitStart::SubscribeFrom((t + 1) as i64))
                    } else {
                        r == Err::<TaskWaitStart, TaskWaitError>(TaskWaitError::MalformedKeyPath)
                    },
                    None => r == Err::<TaskWaitStart, TaskWaitError>(TaskWaitError::MalformedKeyPath),
                }
            },
        },
{
    match record {
        None => Ok(TaskWaitStart::SubscribeFrom(0)),
        Some((path, status)) => {
            if is_finished(status) {
                return Ok(TaskWaitStart::Finished);
            }
            match parse_path_timestamp(path) {
                Some(t) => if t < i64::MAX {
                    Ok(TaskWaitStart::SubscribeFrom(t + 1))
                } else {
                    Err(TaskWaitError::MalformedKeyPath)
                },
                None => Err(TaskWaitError::MalformedKeyPath),
            }
        },
    }
}

/// Whether a notification on a task's record shows it finished: it is no
/// deletion and the task's status is `finished`.
pub fn shows_finished(change_type: &str, status: &str) -> (r: bool)
    ensures
        r == (!crate::change_feed::is_delete_spec(change_type@) && is_finished_spec(status@)),
{
    !crate::change_feed::is_delete_change(change_type) && is_finished(status)
}

pub open spec fn task_status_key_spec(task_id: Seq<char>) -> Seq<char> {
    "tasks:"@ + task_id + ":status"@
}

pub open spec fn task_output_key_spec(task_id: Seq<char>) -> Seq<char> {
    "tasks:"@ + task_id + ":output"@
}

/// The entry where a task reports its status code.
pub fn task_status_key(task_id: &str) -> (r: String)
    ensures
        r@ == task_status_key_spec(task_id@),
{
    String::from_str("tasks:").concat(task_id).concat(":status")
}

/// The entry where a task leaves its output.
pub fn task_output_key(task_id: &str) -> (r: String)
    ensures
        r@ == task_output_key_spec(task_id@),
{
    String::from_str("tasks:").concat(task_id).concat(":output")
}

/// What a remote-storage task reported.
#[derive(Clone, Copy, Debug, PartialEq, Eq, Structural)]
pub enum RemoteStatus {
    /// Status code zero: the output is ready.
    Succeeded,
    /// A nonzero status code.
    Failed(u8),
    /// The status entry is empty.
    Empty,
}

/// Reads a status entry: its first byte is the status code.
pub fn remote_status(status: &[u8]) -> (r: RemoteStatus)
    ensures
        r == if status@.len() == 0 {
            RemoteStatus::Empty
        } else if status@[0] == 0 {
            RemoteStatus::Succeeded
        } else {
            RemoteStatus::Failed(status@[0])
        },
{
    if status.len() == 0 {
        RemoteStatus::Empty
    } else if status[0] == 0 {
        RemoteStatus::Succeeded
    } else {
        RemoteStatus::Failed(status[0])
    }
}

} // verus!
