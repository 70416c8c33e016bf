//! Tasks and their participants, as the coordination logic reads them.
use vstd::prelude::*;
use crate::text::str_eq;

verus! {

/// One participant of a task: a user and the role it plays.
pub struct Participant {
    pub user_id: String,
    pub role: String,
}

/// The part of a task record that dispatch reads.
pub struct Task {
    pub task_id: String,
    pub protocol_name: String,
    pub protocol_param: Vec<u8>,
    pub participants: Vec<Participant>,
    pub status: String,
}

pub open spec fn is_started_spec(status: Seq<char>) -> bool {
    status == "started"@
}

/// Whether a task's status says it has started.
pub fn is_started(status: &str) -> (r: bool)
    ensures
        r == is_started_spec(status@),
{
    str_eq(status, "started")
}

/// Finds where the user `user_id` stands among a task's participants: the
/// first position whose user id is `user_id`, or `None` when there is none.
pub fn get_participant_index(participants: &[Participant], user_id: &str) -> (r: Option<usize>)
    ensures
        match r {
            Some(i) => i < participants@.len() && participants@[i as int].user_id@ == user_id@
                && forall|j: int| 0 <= j < i ==> (#[trigger] participants@[j]).user_id@ != user_id@,
            None => forall|j: int| 0 <= j < participants@.len() ==> (#[trigger] participants@[j]).user_id@ != user_id@,
        },
{
    let mut i: usize = 0;
    while i < participants.len()
        invariant
            i <= participants@.len(),
            forall|j: int| 0 <= j < i ==> (#[trigger] participants@[j]).user_id@ != user_id@,
        decreases participants@.len() - i,
    {
        if str_eq(participants[i].user_id.as_str(), user_id) {
            return Some(i);
        }
        i = i + 1;
    }
    None
}

} // verus!
