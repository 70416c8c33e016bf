//! State machines of the protocol runner. The caller performs each command
//! against the storage service and hands back its outcome.
use vstd::prelude::*;
use crate::keys::{operator_mq_key, operator_mq_key_spec, started_latest_key, started_latest_key_spec,
    started_list_key, started_list_key_spec, task_entry_key, task_entry_key_spec};
use crate::protocol::{replay_start_spec, replay_start_timestamp, StartedList};
use crate::change_feed::{is_delete_change, is_delete_spec};
use crate::task::{is_started, is_started_spec, Task};
use crate::random::random_in_range;

verus! {

/// Why the runner stopped.
pub enum RunnerError<E> {
    /// A call to the storage service failed.
    Remote(E),
    /// A key path that the runner reads carries no timestamp.
    MalformedKeyPath,
}

/// Where the discovery of the shared queue stands. The caller holds the lock
/// on the operator-queue entry for the whole discovery.
#[derive(Clone, Copy, Debug, PartialEq, Eq, Structural)]
pub enum DiscoveryPhase {
    ReadingQueueName,
    ReadingStartedList,
    Subscribing,
    PersistingQueueName,
    Unlocking,
    Done,
}

/// The next thing the caller must do during discovery.
pub enum DiscoveryCommand<E> {
    /// Read the entry that may already name the shared queue.
    ReadQueueName(String),
    /// Read the list of started tasks.
    ReadStartedList(String),
    /// Subscribe to the announcements of started tasks from this timestamp on.
    Subscribe(String, i64),
    /// Create the entry (first field) that names the new queue (second field).
    PersistQueueName(String, String),
    /// Release the lock on the operator-queue entry.
    Unlock,
    /// Consume this queue.
    Ready(String),
    /// Stop with this error.
    Fail(RunnerError<E>),
}

/// The discovery of the one shared queue of a protocol-and-role.
pub struct QueueDiscovery {
    pub protocol_and_role: String,
    pub phase: DiscoveryPhase,
    pub queue_name: Option<String>,
}

impl QueueDiscovery {
    /// Starts the discovery; the caller has acquired the lock on the entry
    /// that `operator_mq_key` names, and reads that entry first.
    pub fn start(protocol_and_role: &str) -> (r: (QueueDiscovery, DiscoveryCommand<()>))
        ensures
            r.0.protocol_and_role@ == protocol_and_role@,
            r.0.phase == DiscoveryPhase::ReadingQueueName,
            r.0.queue_name is None,
            r.1 matches DiscoveryCommand::ReadQueueName(k) && k@ == operator_mq_key_spec(protocol_and_role@),
    {
        (
            QueueDiscovery {
                protocol_and_role: String::from_str(protocol_and_role),
                phase: DiscoveryPhase::ReadingQueueName,
                queue_name: None,
            },
            DiscoveryCommand::ReadQueueName(operator_mq_key(protocol_and_role)),
        )
    }

    /// Takes the read of the operator-queue entry: a queue that another worker
    /// created is adopted; otherwise the started tasks are read next.
    pub fn on_queue_name<E>(&mut self, read: Result<String, E>) -> (r: DiscoveryCommand<E>)
        requires
            old(self).phase == DiscoveryPhase::ReadingQueueName,
        ensures
            final(self).protocol_and_role == old(self).protocol_and_role,
            match read {
                Ok(q) => final(self).phase == DiscoveryPhase::Unlocking
                    && (final(self).queue_name matches Some(n) && n@ == q@) && r is Unlock,
                Err(_) => final(self).phase == DiscoveryPhase::ReadingStartedList
                    && (r matches DiscoveryCommand::ReadStartedList(k)
                        && k@ == started_list_key_spec(old(self).protocol_and_role@)),
            },
    {
        match read {
            Ok(q) => {
                self.queue_name = Some(q);
                self.phase = DiscoveryPhase::Unlocking;
                DiscoveryCommand::Unlock
            },
            Err(_) => {
                self.phase = DiscoveryPhase::ReadingStartedList;
                DiscoveryCommand::ReadStartedList(started_list_key(self.protocol_and_role.as_str()))
            },
        }
    }

    /// Takes the read of the started-task list and subscribes from the
    /// earliest outstanding task, so that no task started meanwhile is missed.
    pub fn on_started_list<E>(&mut self, read: Result<StartedList, E>) -> (r: DiscoveryCommand<E>)
        requires
            old(self).phase == DiscoveryPhase::ReadingStartedList,
        ensures
            final(self).protocol_and_role == old(self).protocol_and_role,
            ({
                let list = match read {
                    Ok(l) => Some(l),
                    Err(_) => None,
                };
                match replay_start_spec(list) {
                    Some(ts) => final(self).phase == DiscoveryPhase::Subscribing
                        && (r matches DiscoveryCommand::Subscribe(k, t)
                            && k@ == started_latest_key_spec(old(self).protocol_and_role@) && t == ts),
                    None => final(self).phase == DiscoveryPhase::Done
                        && r matches DiscoveryCommand::Fail(RunnerError::MalformedKeyPath),
                }
            }),
    {
        let list = match read {
            Ok(l) => Some(l),
            Err(_) => None,
        };
        match replay_start_timestamp(&list) {
            Some(ts) => {
                self.phase = DiscoveryPhase::Subscribing;
                DiscoveryCommand::Subscribe(started_latest_key(self.protocol_and_role.as_str()), ts)
            },
            None => {
                self.phase = DiscoveryPhase::Done;
                DiscoveryCommand::Fail(RunnerError::MalformedKeyPath)
            },
        }
    }

    /// Takes the name of the new queue, which is then recorded for other workers.
    pub fn on_subscribed<E>(&mut self, subscribed: Result<String, E>) -> (r: DiscoveryCommand<E>)
        requires
            old(self).phase == DiscoveryPhase::Subscribing,
        ensures
            final(self).protocol_and_role == old(self).protocol_and_role,
            match subscribed {
                Ok(q) => final(self).phase == DiscoveryPhase::PersistingQueueName
                    && (final(self).queue_name matches Some(n) && n@ == q@)
                    && (r matches DiscoveryCommand::PersistQueueName(k, v)
                        && k@ == operator_mq_key_spec(old(self).protocol_and_role@) && v@ == q@),
                Err(e) => final(self).phase == DiscoveryPhase::Done
                    && (r matches DiscoveryCommand::Fail(RunnerError::Remote(x)) && x == e),
            },
    {
        match subscribed {
            Ok(q) => {
                let name = q.clone();
                self.queue_name = Some(q);
                self.phase = DiscoveryPhase::PersistingQueueName;
                DiscoveryCommand::PersistQueueName(operator_mq_key(self.protocol_and_role.as_str()), name)
            },
            Err(e) => {
                self.phase = DiscoveryPhase::Done;
                DiscoveryCommand::Fail(RunnerError::Remote(e))
            },
        }
    }

    /// Takes the outcome of recording the queue's name.
    pub fn on_persisted<E>(&mut self, created: Result<(), E>) -> (r: DiscoveryCommand<E>)
        requires
            old(self).phase == DiscoveryPhase::PersistingQueueName,
        ensures
            final(self).protocol_and_role == old(self).protocol_and_role,
            final(self).queue_name == old(self).queue_name,
            match created {
                Ok(_) => final(self).phase == DiscoveryPhase::Unlocking && r is Unlock,
                Err(e) => final(self).phase == DiscoveryPhase::Done
                    && (r matches DiscoveryCommand::Fail(RunnerError::Remote(x)) && x == e),
            },
    {
        match created {
            Ok(_) => {
                self.phase = DiscoveryPhase::Unlocking;
                DiscoveryCommand::Unlock
            },
            Err(e) => {
                self.phase = DiscoveryPhase::Done;
                DiscoveryCommand::Fail(RunnerError::Remote(e))
            },
        }
    }

    /// Takes the outcome of releasing the lock; the queue is then ready.
    pub fn on_unlocked<E>(&mut self, released: Result<(), E>) -> (r: DiscoveryCommand<E>)
        requires
            old(self).phase == DiscoveryPhase::Unlocking,
            old(self).queue_name is Some,
        ensures
            final(self).phase == DiscoveryPhase::Done,
            match released {
                Ok(_) => r matches DiscoveryCommand::Ready(q) && q@ == old(self).queue_name->Some_0@,
                Err(e) => r matches DiscoveryCommand::Fail(RunnerError::Remote(x)) && x == e,
            },
    {
        self.phase = DiscoveryPhase::Done;
        match released {
            Ok(_) => match &self.queue_name {
                Some(q) => DiscoveryCommand::Ready(q.clone()),
                None => DiscoveryCommand::Ready(String::new()),
            },
            Err(e) => DiscoveryCommand::Fail(RunnerError::Remote(e)),
        }
    }
}

/// Where the handling of one delivered notification stands.
#[derive(Clone, Copy, Debug, PartialEq, Eq, Structural)]
pub enum DispatchPhase {
    Received,
    ReadingTask,
    Running,
    Finishing,
    Done,
}

/// The next thing the caller must do with a delivered notification.
pub enum DispatchCommand<E> {
    /// Read the task record stored under this entry.
    ReadTask(String),
    /// Call the user handler on the task carried here.
    RunHandler(Task),
    /// Mark the task with this id finished.
    FinishTask(String),
    /// Acknowledge the delivery: nothing more is owed for it.
    Ack,
    /// Stop consuming, without acknowledging.
    Fail(E),
}

/// The handling of one notification from the shared queue.
pub struct TaskDispatch {
    pub phase: DispatchPhase,
    pub task_id: String,
}

impl TaskDispatch {
    /// Takes a delivered notification: its change type and, when it could be
    /// decoded, the id of the task it announces. Deletions, and notifications
    /// with no task id, are acknowledged at once.
    pub fn on_delivery<E>(change_type: &str, task_id: Option<String>) -> (r: (TaskDispatch, DispatchCommand<E>))
        ensures
            match task_id {
                Some(id) => if is_delete_spec(change_type@) {
                    r.0.phase == DispatchPhase::Done && r.1 is Ack
                } else {
                    r.0.phase == DispatchPhase::ReadingTask && r.0.task_id@ == id@
                        && (r.1 matches DispatchCommand::ReadTask(k) && k@ == task_entry_key_spec(id@))
                },
                None => r.0.phase == DispatchPhase::Done && r.1 is Ack,
            },
    {
        match task_id {
            Some(id) => {
                if is_delete_change(change_type) {
                    (TaskDispatch { phase: DispatchPhase::Done, task_id: id }, DispatchCommand::Ack)
                } else {
                    let key = task_entry_key(id.as_str());
                    (TaskDispatch { phase: DispatchPhase::ReadingTask, task_id: id }, DispatchCommand::ReadTask(key))
                }
            },
            None => (TaskDispatch { phase: DispatchPhase::Done, task_id: String::new() }, DispatchCommand::Ack),
        }
    }

    /// Takes the task record: a started task goes to its handler; any other
    /// task, or a failed read, is acknowledged without running anything.
    pub fn on_task<E>(&mut self, read: Result<Task, E>) -> (r: DispatchCommand<E>)
        requires
            old(self).phase == DispatchPhase::ReadingTask,
        ensures
            match read {
                Ok(t) => if is_started_spec(t.status@) {
                    final(self).phase == DispatchPhase::Running && final(self).task_id@ == t.task_id@
                        && (r matches DispatchCommand::RunHandler(h) && h == t)
                } else {
                    final(self).phase == DispatchPhase::Done && r is Ack
                },
                Err(_) => final(self).phase == DispatchPhase::Done && r is Ack,
            },
    {
        match read {
            Ok(t) => {
                if is_started(t.status.as_str()) {
                    self.task_id = t.task_id.clone();
                    self.phase = DispatchPhase::Running;
                    DispatchCommand::RunHandler(t)
                } else {
                    self.phase = DispatchPhase::Done;
                    DispatchCommand::Ack
                }
            },
            Err(_) => {
                self.phase = DispatchPhase::Done;
                DispatchCommand::Ack
            },
        }
    }

    /// Takes the handler's outcome. Success or error, the task is marked
    /// finished next: a failing handler never leaves its task running.
    pub fn on_handler_done<E>(&mut self, outcome: Result<(), E>) -> (r: DispatchCommand<E>)
        requires
            old(self).phase == DispatchPhase::Running,
        ensures
            final(self).phase == DispatchPhase::Finishing,
            final(self).task_id == old(self).task_id,
            r matches DispatchCommand::FinishTask(id) && id@ == old(self).task_id@,
    {
        self.phase = DispatchPhase::Finishing;
        DispatchCommand::FinishTask(self.task_id.clone())
    }

    /// Takes the outcome of marking the task finished: the delivery is
    /// acknowledged only then; an error stops the runner unacknowledged, so
    /// that the task is delivered again.
    pub fn on_finished<E>(&mut self, finished: Result<(), E>) -> (r: DispatchCommand<E>)
        requires
            old(self).phase == DispatchPhase::Finishing,
        ensures
            final(self).phase == DispatchPhase::Done,
            match finished {
                Ok(_) => r is Ack,
                Err(e) => r matches DispatchCommand::Fail(x) && x == e,
            },
    {
        self.phase = DispatchPhase::Done;
        match finished {
            Ok(_) => DispatchCommand::Ack,
            Err(e) => DispatchCommand::Fail(e),
        }
    }
}

/// Consecutive failed health probes after which the process shuts down.
pub const MAX_PROBE_FAILURES: u32 = 3;

/// Bounds, in seconds, of the jittered pause between health probes.
pub const PROBE_PAUSE_MIN_SECS: u64 = 32;
pub const PROBE_PAUSE_MAX_SECS: u64 = 64;

/// What the health monitor does after a probe.
pub enum LivenessStep {
    /// Probe again after this many seconds.
    Continue(u64),
    /// Shut the process down.
    Shutdown,
}

/// Counts consecutive failed probes of the storage service.
pub struct LivenessMonitor {
    pub failures: u32,
}

impl LivenessMonitor {
    pub fn new() -> (r: LivenessMonitor)
        ensures
            r.failures == 0,
    {
        LivenessMonitor { failures: 0 }
    }

    /// Takes the outcome of one probe: a success clears the count; the third
    /// failure in a row shuts down; otherwise the next probe waits a pause
    /// drawn from `[32, 64)` seconds.
    pub fn on_probe(&mut self, healthy: bool) -> (r: LivenessStep)
        requires
            old(self).failures < MAX_PROBE_FAILURES,
        ensures
            final(self).failures == if healthy { 0 } else { (old(self).failures + 1) as u32 },
            match r {
                LivenessStep::Shutdown => final(self).failures >= MAX_PROBE_FAILURES,
                LivenessStep::Continue(secs) => final(self).failures < MAX_PROBE_FAILURES
                    && PROBE_PAUSE_MIN_SECS <= secs < PROBE_PAUSE_MAX_SECS,
            },
    {
        if healthy {
            self.failures = 0;
        } else {
            self.failures = self.failures + 1;
        }
        if self.failures >= MAX_PROBE_FAILURES {
            LivenessStep::Shutdown
        } else {
            LivenessStep::Continue(random_in_range(PROBE_PAUSE_MIN_SECS, PROBE_PAUSE_MAX_SECS))
        }
    }
}

} // verus!
