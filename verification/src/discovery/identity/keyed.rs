//! Lists in the order of object keys, each key once.

use crate::maps::ObjectKey;
use vstd::prelude::*;

verus! {

/// Whether keys are in order, each once.
pub open spec fn ordered<V>(list: Seq<(ObjectKey, V)>) -> bool {
    forall|i: int, j: int|
        0 <= i < j < list.len() ==> (#[trigger] list[i]).0.before((#[trigger] list[j]).0)
}

/// The position of a key at or after `from`, or where it would stand.
pub open spec fn slot<V>(list: Seq<(ObjectKey, V)>, key: ObjectKey, from: int) -> int
    decreases list.len() - from,
{
    if from < 0 || from >= list.len() {
        list.len() as int
    } else if list[from].0.before(key) {
        slot(list, key, from + 1)
    } else {
        from
    }
}

/// Whether a key stands at a position.
pub open spec fn stands_at<V>(list: Seq<(ObjectKey, V)>, i: int, key: ObjectKey) -> bool {
    0 <= i < list.len() && list[i].0 == key
}

/// What is listed under a key.
pub open spec fn found<V>(list: Seq<(ObjectKey, V)>, key: ObjectKey) -> Option<V> {
    let i = slot(list, key, 0);
    if stands_at(list, i, key) {
        Some(list[i].1)
    } else {
        None
    }
}

/// The list with a value under a key that was not listed; a key that was listed keeps its value.
pub open spec fn kept<V>(list: Seq<(ObjectKey, V)>, key: ObjectKey, value: V) -> Seq<
    (ObjectKey, V),
> {
    let i = slot(list, key, 0);
    if stands_at(list, i, key) {
        list
    } else {
        list.insert(i, (key, value))
    }
}

/// The list with a value under a key, in place of any that was listed.
pub open spec fn put<V>(list: Seq<(ObjectKey, V)>, key: ObjectKey, value: V) -> Seq<
    (ObjectKey, V),
> {
    let i = slot(list, key, 0);
    if stands_at(list, i, key) {
        list.update(i, (key, value))
    } else {
        list.insert(i, (key, value))
    }
}

/// Where a key stands: everything before it is smaller, and nothing from there on is.
pub proof fn lemma_slot<V>(list: Seq<(ObjectKey, V)>, key: ObjectKey, from: int)
    requires
        0 <= from <= list.len(),
        ordered(list),
        forall|j: int| 0 <= j < from ==> (#[trigger] list[j]).0.before(key),
    ensures
        from <= slot(list, key, from) <= list.len(),
        forall|j: int| 0 <= j < slot(list, key, from) ==> (#[trigger] list[j]).0.before(key),
        forall|j: int|
            slot(list, key, from) <= j < list.len() ==> !(#[trigger] list[j]).0.before(key),
    decreases list.len() - from,
{
    if from < list.len() && list[from].0.before(key) {
        lemma_slot(list, key, from + 1);
    }
}

/// In an ordered list, a key is found where it stands.
pub proof fn lemma_found<V>(list: Seq<(ObjectKey, V)>, key: ObjectKey, i: int)
    requires
        ordered(list),
        stands_at(list, i, key),
    ensures
        slot(list, key, 0) == i,
        found(list, key) == Some(list[i].1),
{
    lemma_slot(list, key, 0);
    let s = slot(list, key, 0);
    if s < i {
        assert(list[s].0.before(list[i].0));
    } else if s > i {
        assert(list[i].0.before(key));
    }
}

/// A key that no entry has is not found.
pub proof fn lemma_not_found<V>(list: Seq<(ObjectKey, V)>, key: ObjectKey)
    requires
        forall|i: int| 0 <= i < list.len() ==> (#[trigger] list[i]).0 != key,
    ensures
        found(list, key) is None,
{
}

/// Putting a value under a key keeps the order, lists the value under the key and every other key
/// as before.
pub proof fn lemma_put<V>(list: Seq<(ObjectKey, V)>, key: ObjectKey, value: V, other: ObjectKey)
    requires
        ordered(list),
    ensures
        ordered(put(list, key, value)),
        found(put(list, key, value), key) == Some(value),
        other != key ==> found(put(list, key, value), other) == found(list, other),
        put(list, key, value).len() == list.len() + if found(list, key) is Some {
            0int
        } else {
            1int
        },
{
    let i = slot(list, key, 0);
    let after = put(list, key, value);
    lemma_slot(list, key, 0);
    let known = stands_at(list, i, key);
    assert forall|j: int, k: int| 0 <= j < k < after.len() implies (#[trigger] after[j]).0.before(
        (#[trigger] after[k]).0,
    ) by {
        if known {
            assert(after[j].0 == list[j].0 && after[k].0 == list[k].0);
        } else {
            let sj = if j < i {
                j
            } else {
                j - 1
            };
            let sk = if k < i {
                k
            } else {
                k - 1
            };
            if j != i {
                assert(after[j] == list[sj]);
            }
            if k != i {
                assert(after[k] == list[sk]);
            }
            if j == i {
                assert(!list[sk].0.before(key));
                assert(list[i].0 == list[sk].0 || list[i].0.before(list[sk].0));
            }
        }
    }
    lemma_found(after, key, i);
    if other != key {
        lemma_slot(list, other, 0);
        let o = slot(list, other, 0);
        if stands_at(list, o, other) {
            let p = if known || o < i {
                o
            } else {
                o + 1
            };
            assert(after[p] == list[o]);
            lemma_found(after, other, p);
        } else {
            lemma_slot(after, other, 0);
            let p = slot(after, other, 0);
            if stands_at(after, p, other) {
                let q = if known || p < i {
                    p
                } else {
                    p - 1
                };
                assert(list[q].0 == other);
                lemma_found(list, other, q);
            }
        }
    }
}

/// Keeping a value under a key keeps the order; what was listed under the key stays, and every
/// other key is as before.
pub proof fn lemma_kept<V>(list: Seq<(ObjectKey, V)>, key: ObjectKey, value: V, other: ObjectKey)
    requires
        ordered(list),
    ensures
        ordered(kept(list, key, value)),
        found(kept(list, key, value), key) == Some(
            match found(list, key) {
                Some(known) => known,
                None => value,
            },
        ),
        other != key ==> found(kept(list, key, value), other) == found(list, other),
{
    lemma_put(list, key, value, other);
    if found(list, key) is Some {
        assert(kept(list, key, value) == list);
    } else {
        assert(kept(list, key, value) == put(list, key, value));
    }
}

/// Finds the position of a key, or where it would stand.
pub fn find_slot<V>(list: &Vec<(ObjectKey, V)>, key: &ObjectKey) -> (i: usize)
    ensures
        i == slot(list@, *key, 0),
        i <= list@.len(),
{
    let mut i: usize = 0;
    while i < list.len()
        invariant
            i <= list@.len(),
            slot(list@, *key, i as int) == slot(list@, *key, 0),
        decreases list@.len() - i,
    {
        if !list[i].0.is_before(key) {
            return i;
        }
        i += 1;
    }
    i
}

/// Tells whether a key stands at a position.
pub fn has_at<V>(list: &Vec<(ObjectKey, V)>, i: usize, key: &ObjectKey) -> (r: bool)
    ensures
        r == stands_at(list@, i as int, *key),
{
    i < list.len() && list[i].0 == *key
}

/// Lists a value under a key that is not listed.
pub fn keep<V>(list: &mut Vec<(ObjectKey, V)>, key: ObjectKey, value: V)
    ensures
        final(list)@ == kept(old(list)@, key, value),
{
    let i: usize = find_slot(list, &key);
    if !has_at(list, i, &key) {
        list.insert(i, (key, value));
    }
}

/// Lists a value under a key, in place of any that is listed.
pub fn replace<V>(list: &mut Vec<(ObjectKey, V)>, key: ObjectKey, value: V)
    ensures
        final(list)@ == put(old(list)@, key, value),
{
    let i: usize = find_slot(list, &key);
    if has_at(list, i, &key) {
        list.set(i, (key, value));
    } else {
        list.insert(i, (key, value));
    }
}

} // verus!
