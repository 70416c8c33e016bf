//! Waiting for a key: read it at once, or else subscribe to its change feed
//! and take the first notification. The caller performs each command and hands
//! back its outcome; the waiter decides what comes next.
use vstd::prelude::*;
use crate::text::str_eq;

verus! {

/// Whether a notification's change type names a deletion.
pub open spec fn is_delete_spec(change_type: Seq<char>) -> bool {
    change_type == "delete"@
}

/// Whether a notification's change type names a deletion.
pub fn is_delete_change(change_type: &str) -> (r: bool)
    ensures
        r == is_delete_spec(change_type@),
{
    str_eq(change_type, "delete")
}

/// Where a wait stands.
#[derive(Clone, Copy, Debug, PartialEq, Eq, Structural)]
pub enum WaitPhase {
    /// The immediate read is outstanding.
    Reading,
    /// The subscription is being set up.
    Subscribing,
    /// The first notification is awaited.
    Pulling,
    /// The subscription is being torn down.
    Unsubscribing,
    /// The wait has its result.
    Finished,
}

/// How far a wait has gone: each step moves it strictly forward.
pub open spec fn phase_rank(p: WaitPhase) -> nat {
    match p {
        WaitPhase::Reading => 0,
        WaitPhase::Subscribing => 1,
        WaitPhase::Pulling => 2,
        WaitPhase::Unsubscribing => 3,
        WaitPhase::Finished => 4,
    }
}

/// The next thing the caller must do.
pub enum WaitCommand<E> {
    /// Subscribe to the key from now on.
    Subscribe,
    /// Pull the next notification from the subscription's queue.
    PullNext,
    /// Remove the subscription.
    Unsubscribe,
    /// Stop: this is the result of the wait.
    Finish(Result<Vec<u8>, E>),
}

/// What a pulled notification held.
pub struct Notification {
    pub change_type: String,
    pub payload: Vec<u8>,
}

/// The outcome that a pulled notification gives: its payload unless it is a
/// deletion, in which case the error of the first read.
pub open spec fn notification_outcome<E>(n: Result<Notification, E>, read_error: E) -> Result<Seq<u8>, E> {
    match n {
        Ok(note) => if is_delete_spec(note.change_type@) { Err(read_error) } else { Ok(note.payload@) },
        Err(e) => Err(e),
    }
}

pub open spec fn result_view<E>(r: Result<Vec<u8>, E>) -> Result<Seq<u8>, E> {
    match r {
        Ok(v) => Ok(v@),
        Err(e) => Err(e),
    }
}

/// One wait on a key, from the first read to its result.
pub struct ChangeFeedWait<E> {
    pub phase: WaitPhase,
    pub read_error: Option<E>,
    pub outcome: Option<Result<Vec<u8>, E>>,
}

impl<E> ChangeFeedWait<E> {
    /// A wait whose first command is the immediate read.
    pub fn new() -> (r: ChangeFeedWait<E>)
        ensures
            r.phase == WaitPhase::Reading,
    {
        ChangeFeedWait { phase: WaitPhase::Reading, read_error: None, outcome: None }
    }

    /// Takes the outcome of the immediate read: a value ends the wait with one
    /// call; an error is kept and a subscription is asked for.
    pub fn on_read(&mut self, read: Result<Vec<u8>, E>) -> (r: WaitCommand<E>)
        requires
            old(self).phase == WaitPhase::Reading,
        ensures
            phase_rank(final(self).phase) > phase_rank(old(self).phase),
            match read {
                Ok(v) => final(self).phase == WaitPhase::Finished
                    && (r matches WaitCommand::Finish(Ok(out)) && out@ == v@),
                Err(e) => final(self).phase == WaitPhase::Subscribing
                    && final(self).read_error == Some(e) && r is Subscribe,
            },
    {
        match read {
            Ok(v) => {
                self.phase = WaitPhase::Finished;
                WaitCommand::Finish(Ok(v))
            },
            Err(e) => {
                self.phase = WaitPhase::Subscribing;
                self.read_error = Some(e);
                WaitCommand::Subscribe
            },
        }
    }

    /// Takes the outcome of subscribing: the wait fails only when the
    /// subscription cannot be set up.
    pub fn on_subscribe(&mut self, subscribed: Result<(), E>) -> (r: WaitCommand<E>)
        requires
            old(self).phase == WaitPhase::Subscribing,
        ensures
            phase_rank(final(self).phase) > phase_rank(old(self).phase),
            final(self).read_error == old(self).read_error,
            match subscribed {
                Ok(_) => final(self).phase == WaitPhase::Pulling && r is PullNext,
                Err(e) => final(self).phase == WaitPhase::Finished
                    && (r matches WaitCommand::Finish(Err(out)) && out == e),
            },
    {
        match subscribed {
            Ok(_) => {
                self.phase = WaitPhase::Pulling;
                WaitCommand::PullNext
            },
            Err(e) => {
                self.phase = WaitPhase::Finished;
                WaitCommand::Finish(Err(e))
            },
        }
    }

    /// Takes the first notification (or the error of pulling it): its outcome
    /// is kept, and the subscription is removed before the wait ends.
    pub fn on_notification(&mut self, pulled: Result<Notification, E>) -> (r: WaitCommand<E>)
        requires
            old(self).phase == WaitPhase::Pulling,
            old(self).read_error is Some,
        ensures
            phase_rank(final(self).phase) > phase_rank(old(self).phase),
            final(self).phase == WaitPhase::Unsubscribing,
            r is Unsubscribe,
            final(self).outcome matches Some(out)
                && result_view(out) == notification_outcome(pulled, old(self).read_error->Some_0),
    {
        let out = match pulled {
            Ok(note) => {
                if is_delete_change(note.change_type.as_str()) {
                    match self.read_error.take() {
                        Some(e) => Err(e),
                        None => Ok(note.payload),
                    }
                } else {
                    Ok(note.payload)
                }
            },
            Err(e) => Err(e),
        };
        self.outcome = Some(out);
        self.phase = WaitPhase::Unsubscribing;
        WaitCommand::Unsubscribe
    }

    /// Takes the outcome of unsubscribing and ends the wait with the kept
    /// outcome, or with the unsubscribe error.
    pub fn on_unsubscribe(&mut self, unsubscribed: Result<(), E>) -> (r: WaitCommand<E>)
        requires
            old(self).phase == WaitPhase::Unsubscribing,
            old(self).outcome is Some,
        ensures
            phase_rank(final(self).phase) > phase_rank(old(self).phase),
            final(self).phase == WaitPhase::Finished,
            match unsubscribed {
                Ok(_) => r matches WaitCommand::Finish(out) && result_view(out) == result_view(old(self).outcome->Some_0),
                Err(e) => r matches WaitCommand::Finish(Err(out)) && out == e,
            },
    {
        self.phase = WaitPhase::Finished;
        match unsubscribed {
            Ok(_) => match self.outcome.take() {
                Some(out) => WaitCommand::Finish(out),
                None => WaitCommand::Finish(Ok(Vec::new())),
            },
            Err(e) => WaitCommand::Finish(Err(e)),
        }
    }
}

/// A wait makes a bounded number of remote calls: the phases that its steps
/// pass through rise strictly, so a wait takes at most four steps after its
/// read (one subscribe, one pull, one unsubscribe), and pulls at most once.
pub proof fn lemma_wait_steps_bounded(trace: Seq<WaitPhase>)
    requires
        trace.len() > 0,
        trace[0] == WaitPhase::Reading,
        forall|i: int| 0 <= i < trace.len() - 1 ==> phase_rank(#[trigger] trace[i + 1]) > phase_rank(trace[i]),
    ensures
        trace.len() <= 5,
        forall|i: int, j: int| 0 <= i < j < trace.len() && trace[i] == WaitPhase::Pulling ==> trace[j] != WaitPhase::Pulling,
{
    assert forall|k: int| 0 <= k < trace.len() implies phase_rank(#[trigger] trace[k]) >= k by {
        lemma_rank_at_least(trace, k);
    }
    assert(phase_rank(trace[trace.len() - 1]) <= 4);
    assert forall|i: int, j: int| 0 <= i < j < trace.len() && trace[i] == WaitPhase::Pulling implies trace[j] != WaitPhase::Pulling by {
        lemma_rank_rises(trace, i, j);
    }
}

proof fn lemma_rank_at_least(trace: Seq<WaitPhase>, k: int)
    requires
        0 <= k < trace.len(),
        forall|i: int| 0 <= i < trace.len() - 1 ==> phase_rank(#[trigger] trace[i + 1]) > phase_rank(trace[i]),
    ensures
        phase_rank(trace[k]) >= k,
    decreases k,
{
    if k > 0 {
        lemma_rank_at_least(trace, k - 1);
        assert(phase_rank(trace[(k - 1) + 1]) > phase_rank(trace[k - 1]));
    }
}

proof fn lemma_rank_rises(trace: Seq<WaitPhase>, i: int, j: int)
    requires
        0 <= i < j < trace.len(),
        forall|m: int| 0 <= m < trace.len() - 1 ==> phase_rank(#[trigger] trace[m + 1]) > phase_rank(trace[m]),
    ensures
        phase_rank(trace[j]) > phase_rank(trace[i]),
    decreases j - i,
{
    assert(phase_rank(trace[(j - 1) + 1]) > phase_rank(trace[j - 1]));
    if j - 1 > i {
        lemma_rank_rises(trace, i, j - 1);
    }
}

} // verus!
