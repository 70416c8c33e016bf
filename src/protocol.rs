//! The protocol runner's decisions: which handler an entry names, from which
//! timestamp a new shared queue must replay started tasks, whether an init
//! handler must run, and which workers a process starts.
use vstd::prelude::*;
use vstd::string::*;
use crate::key_path::{path_timestamp, parse_path_timestamp};
use crate::text::{ends_with, str_eq};

verus! {

/// The smallest timestamp among key paths, starting from `i64::MAX`; `None`
/// when one of them carries no timestamp.
pub open spec fn min_path_timestamp(paths: Seq<Seq<char>>) -> Option<i64>
    decreases paths.len(),
{
    if paths.len() == 0 {
        Some(i64::MAX)
    } else {
        match (min_path_timestamp(paths.drop_last()), path_timestamp(paths.last())) {
            (Some(a), Some(b)) => Some(if b < a { b } else { a }),
            _ => None,
        }
    }
}

pub open spec fn string_views(v: Seq<String>) -> Seq<Seq<char>> {
    v.map_values(|s: String| s@)
}

/// The list of started tasks of a protocol-and-role, as stored.
pub struct StartedList {
    /// The key path of the list entry itself.
    pub key_path: String,
    /// The key paths under which the listed tasks were recorded.
    pub task_key_paths: Vec<String>,
}

/// The timestamp from which a new shared queue replays started tasks: zero
/// when no list exists, the list's own timestamp when it is empty, and else
/// the smallest timestamp among the listed tasks.
pub open spec fn replay_start_spec(list: Option<StartedList>) -> Option<i64> {
    match list {
        None => Some(0),
        Some(l) => if l.task_key_paths@.len() == 0 {
            path_timestamp(l.key_path@)
        } else {
            min_path_timestamp(string_views(l.task_key_paths@))
        },
    }
}

/// Computes the replay start of a new shared queue; `None` when a key path
/// that it reads carries no timestamp.
pub fn replay_start_timestamp(list: &Option<StartedList>) -> (r: Option<i64>)
    ensures
        r == replay_start_spec(*list),
{
    match list {
        None => Some(0),
        Some(l) => {
            if l.task_key_paths.len() == 0 {
                return parse_path_timestamp(l.key_path.as_str());
            }
            let mut acc: i64 = i64::MAX;
            let mut i: usize = 0;
            let ghost views = string_views(l.task_key_paths@);
            assert(views.subrange(0, 0) =~= Seq::<Seq<char>>::empty());
            while i < l.task_key_paths.len()
                invariant
                    i <= l.task_key_paths@.len(),
                    views == string_views(l.task_key_paths@),
                    *list == Some(*l),
                    l.task_key_paths@.len() > 0,
                    min_path_timestamp(views.subrange(0, i as int)) == Some(acc),
                decreases l.task_key_paths@.len() - i,
            {
                assert(views.subrange(0, i + 1).drop_last() =~= views.subrange(0, i as int));
                assert(views.subrange(0, i + 1).last() == l.task_key_paths@[i as int]@);
                match parse_path_timestamp(l.task_key_paths[i].as_str()) {
                    Some(t) => {
                        if t < acc {
                            acc = t;
                        }
                    },
                    None => {
                        assert(path_timestamp(views.subrange(0, i + 1).last()) is None);
                        assert(min_path_timestamp(views.subrange(0, i + 1)) is None);
                        proof { lemma_min_none_extends(views, i as int + 1); }
                        assert(views.subrange(0, views.len() as int) =~= views);
                        assert(min_path_timestamp(views) is None);
                        return None;
                    },
                }
                i = i + 1;
            }
            assert(views.subrange(0, i as int) =~= views);
            Some(acc)
        },
    }
}

/// Once a prefix of the paths lacks a minimum, so do all longer prefixes.
proof fn lemma_min_none_extends(paths: Seq<Seq<char>>, k: int)
    requires
        0 <= k <= paths.len(),
        min_path_timestamp(paths.subrange(0, k)) is None,
    ensures
        min_path_timestamp(paths.subrange(0, paths.len() as int)) is None,
    decreases paths.len() - k,
{
    if k < paths.len() {
        assert(paths.subrange(0, k + 1).drop_last() =~= paths.subrange(0, k));
        lemma_min_none_extends(paths, k + 1);
    }
}

/// What a registered handler entry stands for.
pub enum HandlerKind {
    /// `<protocol>:@init`: run once per protocol before any worker starts.
    Init(String),
    /// `<protocol>:<role>`: a worker for that protocol-and-role.
    Operator(String),
}

pub open spec fn init_suffix() -> Seq<char> {
    ":@init"@
}

/// The index of the last `:` in `s`, or -1.
pub open spec fn last_colon(s: Seq<char>) -> int {
    crate::key_path::last_index_of(s, ':')
}

/// What a handler entry named `protocol_and_role` stands for: an init
/// handler of the protocol before `:@init`, or a worker of the protocol
/// before the last `:` (the whole name when it holds none).
pub open spec fn handler_kind_spec(protocol_and_role: Seq<char>) -> (bool, Seq<char>) {
    let n = protocol_and_role.len();
    if n >= 6 && protocol_and_role.subrange(n - 6, n as int) == init_suffix() {
        (true, protocol_and_role.subrange(0, n - 6))
    } else if last_colon(protocol_and_role) >= 0 {
        (false, protocol_and_role.subrange(0, last_colon(protocol_and_role)))
    } else {
        (false, protocol_and_role)
    }
}

/// Tells an init handler's entry from a worker's, and names the protocol.
pub fn classify_handler(protocol_and_role: &str) -> (r: HandlerKind)
    ensures
        match r {
            HandlerKind::Init(p) => handler_kind_spec(protocol_and_role@) == (true, p@),
            HandlerKind::Operator(p) => handler_kind_spec(protocol_and_role@) == (false, p@),
        },
{
    proof { reveal_strlit(":@init"); }
    let n = protocol_and_role.unicode_len();
    if ends_with(protocol_and_role, ":@init") {
        return HandlerKind::Init(String::from_str(protocol_and_role.substring_char(0, n - 6)));
    }
    match crate::key_path::find_last_char(protocol_and_role, ':') {
        Some(i) => {
            proof { crate::key_path::lemma_last_index_bounds(protocol_and_role@, ':'); }
            HandlerKind::Operator(String::from_str(protocol_and_role.substring_char(0, i)))
        },
        None => HandlerKind::Operator(String::from_str(protocol_and_role)),
    }
}

/// Whether a protocol's init handler must run, given the read of its flag
/// (`None` when the flag is absent): an absent, empty or zero flag asks for it.
pub fn init_required(flag: &Option<Vec<u8>>) -> (r: bool)
    ensures
        r == match flag {
            None => true,
            Some(b) => b@.len() == 0 || b@[0] == 0,
        },
{
    match flag {
        None => true,
        Some(b) => b.len() == 0 || b[0] == 0,
    }
}

/// The flag payload that records a protocol as initialized.
pub fn initialized_flag() -> (r: Vec<u8>)
    ensures
        r@ == seq![1u8],
{
    let mut v: Vec<u8> = Vec::new();
    v.push(1u8);
    assert(v@ =~= seq![1u8]);
    v
}

pub open spec fn is_operator_entry(e: Seq<char>) -> bool {
    !handler_kind_spec(e).0
}

pub open spec fn protocol_of(e: Seq<char>) -> Seq<char> {
    handler_kind_spec(e).1
}

pub open spec fn seq_has(v: Seq<Seq<char>>, x: Seq<char>) -> bool {
    exists|i: int| 0 <= i < v.len() && v[i] == x
}

/// Whether worker entry `e` runs: it is a worker, and its protocol's init
/// handler did not fail.
pub open spec fn runs(e: Seq<char>, failed: Seq<Seq<char>>) -> bool {
    is_operator_entry(e) && !seq_has(failed, protocol_of(e))
}

/// Whether protocol `p` is that of a running worker entry before `upto`.
pub open spec fn from_running_entry(entries: Seq<Seq<char>>, failed: Seq<Seq<char>>, upto: int, p: Seq<char>) -> bool {
    exists|j: int| 0 <= j < upto && runs(#[trigger] entries[j], failed) && protocol_of(entries[j]) == p
}

proof fn lemma_from_running_grows(entries: Seq<Seq<char>>, failed: Seq<Seq<char>>, upto: int, p: Seq<char>)
    requires
        from_running_entry(entries, failed, upto, p),
    ensures
        from_running_entry(entries, failed, upto + 1, p),
{
    let j = choose|j: int| 0 <= j < upto && runs(#[trigger] entries[j], failed) && protocol_of(entries[j]) == p;
    assert(0 <= j < upto + 1 && runs(entries[j], failed));
}

/// Which workers a process starts, after its init handlers ran.
pub struct WorkerPlan {
    /// The protocols to mark initialized, each once.
    pub protocols: Vec<String>,
    /// The positions, in order, of the worker entries to start.
    pub operators: Vec<usize>,
}

fn contains_str(v: &Vec<String>, x: &str) -> (r: bool)
    ensures
        r == seq_has(string_views(v@), x@),
{
    let mut i: usize = 0;
    while i < v.len()
        invariant
            i <= v@.len(),
            forall|j: int| 0 <= j < i ==> v@[j]@ != x@,
        decreases v@.len() - i,
    {
        if str_eq(v[i].as_str(), x) {
            assert(string_views(v@)[i as int] == x@);
            return true;
        }
        i = i + 1;
    }
    proof {
        if seq_has(string_views(v@), x@) {
            let w = choose|w: int| 0 <= w < string_views(v@).len() && string_views(v@)[w] == x@;
            assert(v@[w]@ == x@);
        }
    }
    false
}

/// Plans the workers of a process from its handler entries and the protocols
/// whose init handler failed: a failed protocol gets no worker.
pub fn worker_plan(entries: &Vec<String>, failed: &Vec<String>) -> (r: WorkerPlan)
    ensures
        forall|a: int, b: int| 0 <= a < b < r.protocols@.len() ==> r.protocols@[a]@ != r.protocols@[b]@,
        forall|k: int| 0 <= k < r.protocols@.len() ==> from_running_entry(
            string_views(entries@), string_views(failed@), entries@.len() as int, (#[trigger] r.protocols@[k])@),
        forall|i: int| 0 <= i < entries@.len() && runs(#[trigger] entries@[i]@, string_views(failed@))
            ==> seq_has(string_views(r.protocols@), protocol_of(entries@[i]@)),
        forall|a: int, b: int| 0 <= a < b < r.operators@.len() ==> r.operators@[a] < r.operators@[b],
        forall|k: int| 0 <= k < r.operators@.len() ==> (#[trigger] r.operators@[k]) < entries@.len()
            && runs(entries@[r.operators@[k] as int]@, string_views(failed@)),
        forall|i: int| 0 <= i < entries@.len() && runs(#[trigger] entries@[i]@, string_views(failed@))
            ==> r.operators@.contains(i as usize),
{
    let mut protocols: Vec<String> = Vec::new();
    let mut operators: Vec<usize> = Vec::new();
    let mut i: usize = 0;
    let ghost fv = string_views(failed@);
    let ghost ev = string_views(entries@);
    while i < entries.len()
        invariant
            i <= entries@.len(),
            fv == string_views(failed@),
            forall|a: int, b: int| 0 <= a < b < protocols@.len() ==> protocols@[a]@ != protocols@[b]@,
            ev == string_views(entries@),
            forall|k: int| 0 <= k < protocols@.len() ==> from_running_entry(ev, fv, i as int, (#[trigger] protocols@[k])@),
            forall|j: int| 0 <= j < i && runs(#[trigger] entries@[j]@, fv)
                ==> seq_has(string_views(protocols@), protocol_of(entries@[j]@)),
            forall|a: int, b: int| 0 <= a < b < operators@.len() ==> operators@[a] < operators@[b],
            forall|k: int| 0 <= k < operators@.len() ==> (#[trigger] operators@[k]) < i
                && runs(entries@[operators@[k] as int]@, fv),
            forall|j: int| 0 <= j < i && runs(#[trigger] entries@[j]@, fv) ==> operators@.contains(j as usize),
        decreases entries@.len() - i,
    {
        match classify_handler(entries[i].as_str()) {
            HandlerKind::Init(_) => {},
            HandlerKind::Operator(p) => {
                if !contains_str(failed, p.as_str()) {
                    let ghost before_ops = operators@;
                    operators.push(i);
                    assert forall|j: int| 0 <= j < i && runs(#[trigger] entries@[j]@, fv) implies operators@.contains(j as usize) by {
                        let w = choose|w: int| 0 <= w < before_ops.len() && before_ops[w] == j as usize;
                        assert(operators@[w] == j as usize);
                    }
                    assert(operators@[operators@.len() - 1] == i);
                    if !contains_str(&protocols, p.as_str()) {
                        let ghost before = protocols@;
                        protocols.push(p);
                        assert forall|j: int| 0 <= j < i && runs(#[trigger] entries@[j]@, fv)
                            implies seq_has(string_views(protocols@), protocol_of(entries@[j]@)) by {
                            let w = choose|w: int| 0 <= w < string_views(before).len() && string_views(before)[w] == protocol_of(entries@[j]@);
                            assert(string_views(protocols@)[w] == protocol_of(entries@[j]@));
                        }
                        assert(string_views(protocols@)[protocols@.len() - 1] == protocol_of(entries@[i as int]@));
                        assert forall|k: int| 0 <= k < protocols@.len() implies from_running_entry(ev, fv, i + 1, (#[trigger] protocols@[k])@) by {
                            if k == protocols@.len() - 1 {
                                assert(ev[i as int] == entries@[i as int]@);
                                assert(runs(ev[i as int], fv) && protocol_of(ev[i as int]) == protocols@[k]@);
                            } else {
                                assert(protocols@[k] == before[k]);
                                lemma_from_running_grows(ev, fv, i as int, protocols@[k]@);
                            }
                        }
                        assert forall|a: int, b: int| 0 <= a < b < protocols@.len() implies protocols@[a]@ != protocols@[b]@ by {
                            if b == protocols@.len() - 1 {
                                assert(string_views(before)[a] == before[a]@);
                            }
                        }
                    } else {
                        assert(seq_has(string_views(protocols@), protocol_of(entries@[i as int]@)));
                    }
                }
            },
        }
        proof {
            assert forall|k: int| 0 <= k < protocols@.len() implies from_running_entry(ev, fv, i + 1, (#[trigger] protocols@[k])@) by {
                if !from_running_entry(ev, fv, i + 1, protocols@[k]@) {
                    lemma_from_running_grows(ev, fv, i as int, protocols@[k]@);
                }
            }
        }
        i = i + 1;
    }
    WorkerPlan { protocols, operators }
}

} // verus!
