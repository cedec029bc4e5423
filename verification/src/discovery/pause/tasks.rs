//! The tasks of a child: their states, and whether all of them are stopped.

use std::collections::BTreeMap;
use vstd::prelude::*;
use vstd::std_specs::iter::IteratorSpec;

verus! {

/// The state letter of a stopped task.
pub const STOPPED: u8 = 84;

/// Whether the task set is the expected one and every task is stopped.
#[verifier::opaque]
pub open spec fn all_stopped(states: Map<u32, u8>, expected: Map<u32, u8>) -> bool {
    &&& states.dom() =~= expected.dom()
    &&& forall|task: u32| #[trigger] states.contains_key(task) ==> states[task] == STOPPED
}

/// Tells whether the task set is the expected one and every task is stopped.
pub fn stopped_as_expected(states: &BTreeMap<u32, u8>, expected: &BTreeMap<u32, u8>) -> (r: bool)
    ensures
        r == all_stopped(states@, expected@),
{
    broadcast use vstd::std_specs::btree::group_btree_axioms;

    proof {
        reveal(all_stopped);
    }
    if states.len() != expected.len() {
        assert(states@.len() != expected@.len());
        return false;
    }
    let entries = states.iter();
    let ghost listed = IteratorSpec::remaining(&entries);
    assert forall|i: int| 0 <= i < listed.len() implies states@.contains_key(
        *(#[trigger] listed[i]).0,
    ) && states@[*listed[i].0] == *listed[i].1 by {}
    assert forall|k: u32| #[trigger] states@.contains_key(k) implies listed.contains(
        (&k, &states@[k]),
    ) by {}
    for (task, state) in iter: entries
        invariant
            iter.seq() == listed,
            forall|i: int|
                0 <= i < listed.len() ==> states@.contains_key(*(#[trigger] listed[i]).0)
                    && states@[*listed[i].0] == *listed[i].1,
            forall|i: int|
                0 <= i < iter.index() ==> expected@.contains_key(*(#[trigger] listed[i]).0)
                    && *listed[i].1 == STOPPED,
    {
        reveal(all_stopped);
        assert(listed[iter.index()] == (task, state));
        if !expected.contains_key(task) {
            assert(!expected@.dom().contains(*task));
            return false;
        }
        if *state != STOPPED {
            return false;
        }
    }
    assert forall|k: u32| #[trigger] states@.contains_key(k) implies expected@.contains_key(k)
        && states@[k] == STOPPED by {
        let i = choose|i: int| 0 <= i < listed.len() && listed[i] == (&k, &states@[k]);
        assert(*listed[i].0 == k);
    }
    proof {
        vstd::set_lib::lemma_subset_equality(states@.dom(), expected@.dom());
    }
    true
}

/// The state letter in a task's status line: the byte after the last `)` and one space.
pub open spec fn task_state(stat: Seq<u8>) -> Option<u8> {
    if exists|i: int| last_close(stat, i) {
        let close = choose|i: int| last_close(stat, i);
        if close + 2 < stat.len() && stat[close + 1] == 32u8 {
            Some(stat[close + 2])
        } else {
            None
        }
    } else {
        None
    }
}

/// Whether position `at` holds the last `)` of a line.
pub open spec fn last_close(stat: Seq<u8>, at: int) -> bool {
    &&& 0 <= at < stat.len()
    &&& stat[at] == 41u8
    &&& forall|j: int| at < j < stat.len() ==> stat[j] != 41u8
}

/// Reads the state letter from a task's status line. The name of the task may hold anything, so
/// only the last `)` ends it.
pub fn parse_task_state(stat: &[u8]) -> (state: Option<u8>)
    ensures
        state == task_state(stat@),
{
    let mut at: usize = stat.len();
    while at > 0
        invariant
            at <= stat@.len(),
            forall|j: int| at <= j < stat@.len() ==> stat@[j] != 41u8,
        decreases at,
    {
        at -= 1;
        if stat[at] == 41u8 {
            assert(last_close(stat@, at as int));
            assert forall|i: int| last_close(stat@, i) implies i == at by {
                if i < at {
                    assert(stat@[at as int] != 41u8);
                } else if i > at {
                    assert(stat@[i] != 41u8);
                }
            }
            if stat.len() - at > 2 && stat[at + 1] == 32u8 {
                return Some(stat[at + 2]);
            }
            return None;
        }
    }
    assert forall|i: int| !last_close(stat@, i) by {}
    None
}

} // verus!
