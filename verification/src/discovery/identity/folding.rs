//! What a collapse of overlay mappings does to the modules: which keys become one, which module
//! stands for them, and what is published of it.

use crate::discovery::identity::keyed::{lemma_slot, ordered, slot, stands_at};
use crate::discovery::identity::overlay::{
    canonical, collapse_text, collapsed, collapses, first_alike, is_fold, kept_index, kept_next,
    kept_of, lemma_collapses, lemma_first_alike, lemma_kept_distinct, lemma_kept_index, loss_text,
    module_folded, subject_text, target, targets, targets_of, uncertain, Kept,
};
use crate::discovery::identity::pinned::Entry;
use crate::discovery::identity::scanned::{Module, ScannedEntry, Table};
use crate::maps::ObjectKey;
use crate::text::Text;
use vstd::prelude::*;

verus! {

/// Whether two objects were opened through overlayfs and agree in their pins and in a digest that
/// is known.
pub open spec fn one_file(a: Entry, b: Entry) -> bool {
    &&& a.overlay
    &&& b.overlay
    &&& a.pin == b.pin
    &&& a.sha256@.len() > 0
    &&& a.sha256@ == b.sha256@
}

/// Whether the object at `j` is the first one that is one file with the object at `i`.
pub open spec fn leads(list: Seq<(ObjectKey, Entry)>, j: int, i: int) -> bool {
    &&& 0 <= j <= i < list.len()
    &&& j < i ==> one_file(list[j].1, list[i].1)
    &&& forall|k: int| 0 <= k < j ==> !one_file((#[trigger] list[k]).1, list[i].1)
}

/// The key of an object becomes that of the first object that is one file with it, and stays where
/// there is none before it.
pub proof fn lemma_first_stands_for_all(list: Seq<(ObjectKey, Entry)>, i: int)
    requires
        ordered(list),
        0 <= i < list.len(),
    ensures
        exists|j: int|
            #[trigger] leads(list, j, i) && canonical(
                collapses(list, list.len() as int),
                list[i].0,
            ) == list[j].0,
{
    lemma_first_alike(list, i, 0);
    lemma_collapses(list, list.len() as int);
    let j = first_alike(list, i, 0);
    assert(leads(list, j, i));
}

/// A key that is not pinned stays as it is.
pub proof fn lemma_unpinned_stay(list: Seq<(ObjectKey, Entry)>, key: ObjectKey)
    requires
        ordered(list),
        forall|i: int| 0 <= i < list.len() ==> (#[trigger] list[i]).0 != key,
    ensures
        canonical(collapses(list, list.len() as int), key) == key,
{
    let n = list.len() as int;
    let folds = collapses(list, n);
    lemma_collapses(list, n);
    lemma_slot(folds, key, 0);
    let s = slot(folds, key, 0);
    if stands_at(folds, s, key) {
        assert(is_fold(list, n, folds[s]));
        let i = choose|i: int|
            #![trigger first_alike(list, i, 0)]
            0 <= i < n && first_alike(list, i, 0) < i && folds[s] == (
                list[i].0,
                list[first_alike(list, i, 0)].0,
            );
        assert(list[i].0 == key);
    }
}

/// Every collapse is published, with the path of the object that was given up, its key and the key
/// that stands for it.
pub proof fn lemma_collapse_is_published(list: Seq<(ObjectKey, Entry)>, n: int, j: int, i: int)
    requires
        0 <= n <= list.len(),
        i < n,
        j < i,
        leads(list, j, i),
    ensures
        uncertain(list, n).contains(
            (subject_text(list[i].1.path@, list[i].0), collapse_text(list[i].0, list[j].0)),
        ),
    decreases n,
{
    lemma_first_alike(list, i, 0);
    let told = (
        subject_text(list[i].1.path@, list[i].0),
        collapse_text(list[i].0, list[j].0),
    );
    assert(one_file(list[j].1, list[i].1));
    assert(first_alike(list, i, 0) == j) by {
        let f = first_alike(list, i, 0);
        if f < j {
            assert(!one_file(list[f].1, list[i].1));
        }
    }
    if i == n - 1 {
        assert(uncertain(list, n)[uncertain(list, n - 1).len() as int] == told);
    } else {
        lemma_collapse_is_published(list, n - 1, j, i);
        let before = uncertain(list, n - 1);
        let at = choose|at: int| 0 <= at < before.len() && before[at] == told;
        assert(uncertain(list, n)[at] == told);
    }
}

/// How many of the first `n` objects are one file with an earlier one.
pub open spec fn doubles(list: Seq<(ObjectKey, Entry)>, n: int) -> nat
    decreases n,
{
    if n <= 0 {
        0
    } else if exists|j: int| 0 <= j < n - 1 && one_file((#[trigger] list[j]).1, list[n - 1].1) {
        doubles(list, n - 1) + 1
    } else {
        doubles(list, n - 1)
    }
}

proof fn lemma_doubles(list: Seq<(ObjectKey, Entry)>, n: int)
    requires
        0 <= n <= list.len(),
    ensures
        collapses(list, n).len() == doubles(list, n),
        uncertain(list, n).len() == doubles(list, n),
    decreases n,
{
    if n > 0 {
        lemma_doubles(list, n - 1);
        lemma_first_alike(list, n - 1, 0);
        let f = first_alike(list, n - 1, 0);
        if f < n - 1 {
            assert(one_file(list[f].1, list[n - 1].1));
        }
    }
}

/// The number of keys collapsed is the number of objects that are one file with an earlier one.
/// Where there is none, the modules stay as they are and nothing is published.
pub proof fn lemma_number_collapsed(modules: Seq<Module>, list: Seq<(ObjectKey, Entry)>)
    ensures
        collapsed(modules, list).0 == doubles(list, list.len() as int),
        doubles(list, list.len() as int) == 0 ==> collapsed(modules, list).1 == modules
            && collapsed(modules, list).2.len() == 0,
{
    lemma_doubles(list, list.len() as int);
}

/// A folded module has its own path and tables. Only its key, and the keys of the objects of its
/// entries, become those that stand for them.
pub proof fn lemma_folded(folds: Seq<(ObjectKey, ObjectKey)>, module: Module, t: int, e: int)
    requires
        0 <= t < module.tables.len(),
        0 <= e < module.tables[t].entries.len(),
    ensures
        ({
            let now = module_folded(folds, module);
            let was = module.tables[t].entries[e];
            let is = now.tables[t].entries[e];
            &&& now.key == canonical(folds, module.key)
            &&& now.path == module.path
            &&& now.tables.len() == module.tables.len()
            &&& now.tables[t].entries.len() == module.tables[t].entries.len()
            &&& is.object == canonical(folds, was.object)
            &&& is.file_offset == was.file_offset
            &&& is == (ScannedEntry { object: is.object, ..was })
        }),
{
}

/// Whether an entry of a table can be probed at a place.
pub open spec fn lies_at(tables: Seq<Table>, t: int, e: int, place: (ObjectKey, u64)) -> bool {
    &&& 0 <= t < tables.len()
    &&& 0 <= e < tables[t].entries.len()
    &&& tables[t].entries[e].object == place.0
    &&& tables[t].entries[e].file_offset == place.1
}

proof fn lemma_targets_of(tables: Seq<Table>, n: int, place: (ObjectKey, u64))
    requires
        0 <= n <= tables.len(),
    ensures
        targets_of(tables, n).contains(place) <==> exists|t: int, e: int|
            t < n && #[trigger] lies_at(tables, t, e, place),
    decreases n,
{
    if n > 0 {
        lemma_targets_of(tables, n - 1, place);
        let places = tables[n - 1].entries.map_values(|e: ScannedEntry| target(e));
        if places.contains(place) {
            let e = choose|e: int| 0 <= e < places.len() && places[e] == place;
            assert(lies_at(tables, n - 1, e, place));
        }
        if exists|t: int, e: int| t < n && #[trigger] lies_at(tables, t, e, place) {
            let (t, e) = choose|t: int, e: int| t < n && #[trigger] lies_at(tables, t, e, place);
            if t == n - 1 {
                assert(places[e] == place);
                assert(places.contains(place));
            }
        }
    }
}

/// The targets of a module are the places of the entries of all its tables.
pub proof fn lemma_targets_are_entries(module: Module, place: (ObjectKey, u64))
    ensures
        targets(module).contains(place) <==> exists|t: int, e: int|
            #[trigger] lies_at(module.tables, t, e, place),
{
    lemma_targets_of(module.tables, module.tables.len() as int, place);
    if exists|t: int, e: int| #[trigger] lies_at(module.tables, t, e, place) {
        let (t, e) = choose|t: int, e: int| #[trigger] lies_at(module.tables, t, e, place);
        assert(t < module.tables.len());
    }
}

/// In how many places a module can be probed once it is folded.
pub open spec fn reach(folds: Seq<(ObjectKey, ObjectKey)>, module: Module) -> nat {
    targets(module_folded(folds, module)).len()
}

/// Whether a module has the most targets of those among the first `n` that share its key, and more
/// than every earlier one of them.
pub open spec fn is_fullest(
    folds: Seq<(ObjectKey, ObjectKey)>,
    modules: Seq<Module>,
    n: int,
    m: int,
) -> bool {
    &&& 0 <= m < n
    &&& forall|o: int|
        0 <= o < n && canonical(folds, (#[trigger] modules[o]).key) == canonical(
            folds,
            modules[m].key,
        ) ==> {
            &&& reach(folds, modules[o]) <= reach(folds, modules[m])
            &&& o < m ==> reach(folds, modules[o]) < reach(folds, modules[m])
        }
}

/// Whether a kept module is one of the first `n`, folded, that is the fullest of its key.
pub open spec fn is_kept_of(
    folds: Seq<(ObjectKey, ObjectKey)>,
    modules: Seq<Module>,
    n: int,
    kept: (Module, ObjectKey),
) -> bool {
    exists|m: int|
        #[trigger] is_fullest(folds, modules, n, m) && kept == (
            module_folded(folds, modules[m]),
            modules[m].key,
        )
}

/// Whether one of the kept modules has a key.
pub open spec fn holds_key(modules: Seq<(Module, ObjectKey)>, key: ObjectKey) -> bool {
    exists|k: int| 0 <= k < modules.len() && (#[trigger] modules[k]).0.key == key
}

/// Of the modules that share a key, the one with the most targets is kept, the earliest where
/// several have as many; and none is kept that was not there.
pub proof fn lemma_fullest_is_kept(
    folds: Seq<(ObjectKey, ObjectKey)>,
    modules: Seq<Module>,
    lost: Seq<(Text, Text)>,
    n: int,
)
    requires
        0 <= n <= modules.len(),
    ensures
        forall|k: int|
            0 <= k < kept_of(folds, modules, lost, n).modules.len() ==> is_kept_of(
                folds,
                modules,
                n,
                #[trigger] kept_of(folds, modules, lost, n).modules[k],
            ),
        forall|m: int|
            0 <= m < n ==> holds_key(
                kept_of(folds, modules, lost, n).modules,
                canonical(folds, (#[trigger] modules[m]).key),
            ),
    decreases n,
{
    let after = kept_of(folds, modules, lost, n);
    assert forall|m: int| 0 <= m < n implies holds_key(
        after.modules,
        canonical(folds, (#[trigger] modules[m]).key),
    ) by {
        let key = canonical(folds, modules[m].key);
        lemma_kept_distinct(folds, modules, lost, n);
        lemma_kept_index(after.modules, key, 0);
        let k = kept_index(after.modules, key, 0);
        assert(after.modules[k].0.key == key);
    }
    if n > 0 {
        lemma_fullest_is_kept(folds, modules, lost, n - 1);
        assert forall|k: int| 0 <= k < after.modules.len() implies is_kept_of(
            folds,
            modules,
            n,
            #[trigger] after.modules[k],
        ) by {
            lemma_still_fullest(folds, modules, lost, n, k);
        }
    }
}

/// One module more: what is kept is still the fullest of its key.
proof fn lemma_still_fullest(
    folds: Seq<(ObjectKey, ObjectKey)>,
    modules: Seq<Module>,
    lost: Seq<(Text, Text)>,
    n: int,
    k: int,
)
    requires
        0 < n <= modules.len(),
        0 <= k < kept_of(folds, modules, lost, n).modules.len(),
        forall|j: int|
            0 <= j < kept_of(folds, modules, lost, n - 1).modules.len() ==> is_kept_of(
                folds,
                modules,
                n - 1,
                #[trigger] kept_of(folds, modules, lost, n - 1).modules[j],
            ),
        forall|m: int|
            0 <= m < n - 1 ==> holds_key(
                kept_of(folds, modules, lost, n - 1).modules,
                canonical(folds, (#[trigger] modules[m]).key),
            ),
    ensures
        is_kept_of(folds, modules, n, kept_of(folds, modules, lost, n).modules[k]),
{
    let before = kept_of(folds, modules, lost, n - 1);
    let after = kept_of(folds, modules, lost, n);
    let now = module_folded(folds, modules[n - 1]);
    let at = kept_index(before.modules, now.key, 0);
    lemma_kept_index(before.modules, now.key, 0);
    if k < before.modules.len() {
        assert(is_kept_of(folds, modules, n - 1, before.modules[k]));
        let m = choose|m: int|
            #[trigger] is_fullest(folds, modules, n - 1, m) && before.modules[k] == (
                module_folded(folds, modules[m]),
                modules[m].key,
            );
        if before.modules[k].0.key == now.key {
            lemma_one_of_a_key(folds, modules, lost, n - 1, k, at);
            if reach(folds, modules[n - 1]) > reach(folds, modules[m]) {
                assert(is_fullest(folds, modules, n, n - 1));
            } else {
                assert(is_fullest(folds, modules, n, m));
            }
        } else {
            assert(is_fullest(folds, modules, n, m));
        }
    } else {
        assert forall|o: int|
            0 <= o < n - 1 implies canonical(folds, (#[trigger] modules[o]).key) != now.key by {
            assert(holds_key(before.modules, canonical(folds, modules[o].key)));
        }
        assert(is_fullest(folds, modules, n, n - 1));
    }
}

proof fn lemma_one_of_a_key(
    folds: Seq<(ObjectKey, ObjectKey)>,
    modules: Seq<Module>,
    lost: Seq<(Text, Text)>,
    n: int,
    a: int,
    b: int,
)
    requires
        0 <= n <= modules.len(),
        0 <= a < kept_of(folds, modules, lost, n).modules.len(),
        0 <= b < kept_of(folds, modules, lost, n).modules.len(),
        kept_of(folds, modules, lost, n).modules[a].0.key == kept_of(
            folds,
            modules,
            lost,
            n,
        ).modules[b].0.key,
    ensures
        a == b,
{
    lemma_kept_distinct(folds, modules, lost, n);
}

proof fn lemma_targets_are_finite(tables: Seq<Table>, n: int)
    ensures
        targets_of(tables, n).finite(),
    decreases n,
{
    if n > 0 {
        lemma_targets_are_finite(tables, n - 1);
        vstd::seq_lib::seq_to_set_is_finite(
            tables[n - 1].entries.map_values(|e: ScannedEntry| target(e)),
        );
    }
}

/// Whether a module can be probed in a place in which another cannot.
pub open spec fn reaches_beyond(module: Module, other: Module) -> bool {
    exists|place: (ObjectKey, u64)|
        #[trigger] targets(module).contains(place) && !targets(other).contains(place)
}

/// Where a module that shares a key is given up, it is published exactly where the one kept lacks a
/// place of it; nothing that was published before is dropped.
pub proof fn lemma_given_up_is_published(kept: Kept, module: Module, original: ObjectKey, at: int)
    requires
        0 <= at < kept.modules.len(),
        kept.modules[at].0.key == module.key,
        forall|j: int| 0 <= j < at ==> (#[trigger] kept.modules[j]).0.key != module.key,
    ensures
        ({
            let next = kept_next(kept, module, original);
            let known = kept.modules[at].0;
            let wins = targets(module).len() > targets(known).len();
            let winner = if wins { module } else { known };
            let loser = if wins { known } else { module };
            let was = if wins { kept.modules[at].1 } else { original };
            let missing = targets(loser).difference(targets(winner));
            &&& next.modules.len() == kept.modules.len()
            &&& next.modules[at].0 == winner
            &&& next.lost.take(kept.lost.len() as int) == kept.lost
            &&& next.lost.len() == kept.lost.len() || next.lost.len() == kept.lost.len() + 1
            &&& (next.lost.len() > kept.lost.len()) == reaches_beyond(loser, winner)
            &&& next.lost.len() > kept.lost.len() ==> next.lost.last() == (
                subject_text(loser.path@, was),
                loss_text(missing.len()),
            )
        }),
{
    lemma_kept_index(kept.modules, module.key, 0);
    let next = kept_next(kept, module, original);
    let known = kept.modules[at].0;
    let wins = targets(module).len() > targets(known).len();
    let winner = if wins { module } else { known };
    let loser = if wins { known } else { module };
    let missing = targets(loser).difference(targets(winner));
    assert(next.lost.take(kept.lost.len() as int) =~= kept.lost);
    lemma_targets_are_finite(loser.tables, loser.tables.len() as int);
    vstd::set_lib::lemma_set_empty_equivalency_len(missing);
    if reaches_beyond(loser, winner) {
        let place = choose|place: (ObjectKey, u64)|
            #[trigger] targets(loser).contains(place) && !targets(winner).contains(place);
        assert(missing.contains(place));
    } else {
        assert(missing =~= Set::empty()) by {
            assert forall|place: (ObjectKey, u64)| !missing.contains(place) by {
                if targets(loser).contains(place) && !targets(winner).contains(place) {
                    assert(reaches_beyond(loser, winner));
                }
            }
        }
    }
}

} // verus!
