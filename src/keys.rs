//! Names of the storage entries that coordination uses.
use vstd::prelude::*;
use vstd::string::*;

verus! {

pub open spec fn operator_mq_key_spec(protocol_and_role: Seq<char>) -> Seq<char> {
    "_internal:protocols:"@ + protocol_and_role + ":operator_mq"@
}

pub open spec fn started_list_key_spec(protocol_and_role: Seq<char>) -> Seq<char> {
    "_internal:protocols:"@ + protocol_and_role + ":started"@
}

pub open spec fn started_latest_key_spec(protocol_and_role: Seq<char>) -> Seq<char> {
    "_internal:protocols:"@ + protocol_and_role + ":started:latest"@
}

pub open spec fn is_initialized_key_spec(protocol: Seq<char>) -> Seq<char> {
    "_internal:protocols:"@ + protocol + ":_is_initialized"@
}

pub open spec fn task_entry_key_spec(task_id: Seq<char>) -> Seq<char> {
    "_internal:tasks:"@ + task_id
}

pub open spec fn relay_variable_key_spec(owner: Seq<char>, task_id: Seq<char>, key: Seq<char>) -> Seq<char> {
    "_remote_storage:private:"@ + owner + ":_variable_transfer:"@ + task_id + ":"@ + key
}

pub open spec fn remote_variable_name_spec(task_id: Seq<char>, key: Seq<char>) -> Seq<char> {
    "_variable_transfer:"@ + task_id + ":"@ + key
}

/// `prefix + middle + suffix`.
fn join3(prefix: &str, middle: &str, suffix: &str) -> (r: String)
    ensures
        r@ == prefix@ + middle@ + suffix@,
{
    String::from_str(prefix).concat(middle).concat(suffix)
}

/// The entry that names the shared queue of a protocol-and-role.
pub fn operator_mq_key(protocol_and_role: &str) -> (r: String)
    ensures
        r@ == operator_mq_key_spec(protocol_and_role@),
{
    join3("_internal:protocols:", protocol_and_role, ":operator_mq")
}

/// The entry that lists the started tasks of a protocol-and-role.
pub fn started_list_key(protocol_and_role: &str) -> (r: String)
    ensures
        r@ == started_list_key_spec(protocol_and_role@),
{
    join3("_internal:protocols:", protocol_and_role, ":started")
}

/// The entry whose change feed announces started tasks of a protocol-and-role.
pub fn started_latest_key(protocol_and_role: &str) -> (r: String)
    ensures
        r@ == started_latest_key_spec(protocol_and_role@),
{
    join3("_internal:protocols:", protocol_and_role, ":started:latest")
}

/// The flag entry that records that a protocol's init handler has run.
pub fn is_initialized_key(protocol: &str) -> (r: String)
    ensures
        r@ == is_initialized_key_spec(protocol@),
{
    join3("_internal:protocols:", protocol, ":_is_initialized")
}

/// The entry that holds a task's record.
pub fn task_entry_key(task_id: &str) -> (r: String)
    ensures
        r@ == task_entry_key_spec(task_id@),
{
    String::from_str("_internal:tasks:").concat(task_id)
}

/// The relay entry, in `owner`'s private namespace, that carries variable
/// `key` of task `task_id`.
pub fn relay_variable_key(owner: &str, task_id: &str, key: &str) -> (r: String)
    ensures
        r@ == relay_variable_key_spec(owner@, task_id@, key@),
{
    let s = join3("_remote_storage:private:", owner, ":_variable_transfer:");
    join3(s.as_str(), task_id, ":").concat(key)
}

/// The name under which a remote participant stores variable `key` of task
/// `task_id` in its private namespace.
pub fn remote_variable_name(task_id: &str, key: &str) -> (r: String)
    ensures
        r@ == remote_variable_name_spec(task_id@, key@),
{
    join3("_variable_transfer:", task_id, ":").concat(key)
}

} // verus!
