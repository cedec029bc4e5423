//! Collapse of mappings that reach one file through several overlay mounts.
//!
//! A key is a device and an inode, and so names a mapping rather than a file: every overlay mount
//! shows the file under a device of its own. Two containers of one image would then be probed twice
//! at one place, and every call be counted twice. Objects opened through overlayfs that agree in
//! inode, size, time of change and digest are therefore taken as one. That is a guess, since equal
//! bytes prove no identity, so every collapse is published.

use crate::discovery::attribution::Skipped;
use crate::discovery::identity::keyed::{find_slot, found, has_at, ordered, slot, stands_at};
use crate::discovery::identity::keyed::{lemma_found, lemma_slot};
use crate::discovery::identity::pinned::{Entry, PinnedObjects};
use crate::discovery::identity::scanned::{
    module_views, push_skip, skip_texts, table_views, Module, ScannedEntry, ScannedModule,
    ScannedTable, Table,
};
use crate::maps::ObjectKey;
use crate::text::{concat3, decimal, digits, same, Text};
use vstd::prelude::*;
use vstd::string::*;

verus! {

/// Whether an object can be told to be another one: it was opened through overlayfs and its bytes
/// are known.
pub open spec fn eligible(entry: Entry) -> bool {
    entry.sha256@.len() > 0 && entry.overlay
}

/// Whether two objects are taken as one.
pub open spec fn alike(a: Entry, b: Entry) -> bool {
    eligible(a) && eligible(b) && a.pin == b.pin && a.sha256@ == b.sha256@
}

/// The first object at or after `from` that is taken as the object at `i`.
pub open spec fn first_alike(list: Seq<(ObjectKey, Entry)>, i: int, from: int) -> int
    decreases i - from,
{
    if from >= i {
        i
    } else if alike(list[from].1, list[i].1) {
        from
    } else {
        first_alike(list, i, from + 1)
    }
}

/// Which of the first `n` keys are collapsed, each with the key that it is collapsed onto.
pub open spec fn collapses(list: Seq<(ObjectKey, Entry)>, n: int) -> Seq<(ObjectKey, ObjectKey)>
    decreases n,
{
    if n <= 0 {
        Seq::empty()
    } else {
        let before = collapses(list, n - 1);
        let onto = first_alike(list, n - 1, 0);
        if onto < n - 1 {
            before.push((list[n - 1].0, list[onto].0))
        } else {
            before
        }
    }
}

/// The key that stands for a key.
pub open spec fn canonical(folds: Seq<(ObjectKey, ObjectKey)>, key: ObjectKey) -> ObjectKey {
    match found(folds, key) {
        Some(onto) => onto,
        None => key,
    }
}

/// How an object is named in what was left out.
pub open spec fn subject_text(path: Text, key: ObjectKey) -> Text {
    path + " ("@ + key.text() + ")"@
}

/// Why a collapse is published.
pub open spec fn collapse_text(key: ObjectKey, onto: ObjectKey) -> Text {
    "mapping "@ + key.text() + " was collapsed onto "@ + onto.text()
        + " by the overlayfs + inode metadata + SHA-256 heuristic, which cannot prove physical identity across overlay instances; calls through a distinct byte-identical instance would not be probed"@
}

/// What is published of the collapses among the first `n` keys.
pub open spec fn uncertain(list: Seq<(ObjectKey, Entry)>, n: int) -> Seq<(Text, Text)>
    decreases n,
{
    if n <= 0 {
        Seq::empty()
    } else {
        let before = uncertain(list, n - 1);
        let onto = first_alike(list, n - 1, 0);
        if onto < n - 1 {
            before.push(
                (
                    subject_text(list[n - 1].1.path@, list[n - 1].0),
                    collapse_text(list[n - 1].0, list[onto].0),
                ),
            )
        } else {
            before
        }
    }
}

/// An entry of a table with the key that stands for its object.
pub open spec fn entry_folded(folds: Seq<(ObjectKey, ObjectKey)>, entry: ScannedEntry) -> ScannedEntry {
    ScannedEntry { object: canonical(folds, entry.object), ..entry }
}

/// A table with the keys that stand for the objects of its entries.
pub open spec fn table_folded(folds: Seq<(ObjectKey, ObjectKey)>, table: Table) -> Table {
    Table { entries: table.entries.map_values(|e: ScannedEntry| entry_folded(folds, e)), ..table }
}

/// A module with the keys that stand for it and for the objects of its tables.
pub open spec fn module_folded(folds: Seq<(ObjectKey, ObjectKey)>, module: Module) -> Module {
    Module {
        key: canonical(folds, module.key),
        tables: module.tables.map_values(|t: Table| table_folded(folds, t)),
        ..module
    }
}

/// Where an entry of a table can be probed.
pub open spec fn target(entry: ScannedEntry) -> (ObjectKey, u64) {
    (entry.object, entry.file_offset)
}

/// Where the entries of the first `n` tables can be probed.
pub open spec fn targets_of(tables: Seq<Table>, n: int) -> Set<(ObjectKey, u64)>
    decreases n,
{
    if n <= 0 {
        Set::empty()
    } else {
        targets_of(tables, n - 1).union(
            tables[n - 1].entries.map_values(|e: ScannedEntry| target(e)).to_set(),
        )
    }
}

/// Where a module can be probed.
pub open spec fn targets(module: Module) -> Set<(ObjectKey, u64)> {
    targets_of(module.tables, module.tables.len() as int)
}

/// The modules kept so far, each with the key that it had, and what was left out.
pub struct Kept {
    pub modules: Seq<(Module, ObjectKey)>,
    pub lost: Seq<(Text, Text)>,
}

/// The position of the kept module with a key, or the end.
pub open spec fn kept_index(modules: Seq<(Module, ObjectKey)>, key: ObjectKey, from: int) -> int
    decreases modules.len() - from,
{
    if from < 0 || from >= modules.len() {
        modules.len() as int
    } else if modules[from].0.key == key {
        from
    } else {
        kept_index(modules, key, from + 1)
    }
}

/// What is published where a kept module does not publish every target of the one given up for it.
pub open spec fn loss_text(missing: nat) -> Text {
    "the attached mapping does not publish "@ + digits(missing)
        + " target(s) the discarded mapping decoded; those are not probed — the two processes' function tables differ (a table patched in memory, or a dependency mapped in only one mount namespace)"@
}

/// What is left out when `loser` is given up for a module with the targets `winning`.
pub open spec fn loss(
    lost: Seq<(Text, Text)>,
    winning: Set<(ObjectKey, u64)>,
    loser: Module,
    loser_key: ObjectKey,
) -> Seq<(Text, Text)> {
    let missing = targets(loser).difference(winning).len();
    if missing > 0 {
        lost.push((subject_text(loser.path@, loser_key), loss_text(missing)))
    } else {
        lost
    }
}

/// What is kept once one more module is looked at: of two modules with one key, the one with more
/// targets, and the earlier one where they have as many.
pub open spec fn kept_next(kept: Kept, module: Module, original: ObjectKey) -> Kept {
    let at = kept_index(kept.modules, module.key, 0);
    if at >= kept.modules.len() {
        Kept { modules: kept.modules.push((module, original)), ..kept }
    } else {
        let known = kept.modules[at];
        if targets(module).len() > targets(known.0).len() {
            Kept {
                modules: kept.modules.update(at, (module, original)),
                lost: loss(kept.lost, targets(module), known.0, known.1),
            }
        } else {
            Kept { lost: loss(kept.lost, targets(known.0), module, original), ..kept }
        }
    }
}

/// What is kept of the first `n` modules.
pub open spec fn kept_of(
    folds: Seq<(ObjectKey, ObjectKey)>,
    modules: Seq<Module>,
    lost: Seq<(Text, Text)>,
    n: int,
) -> Kept
    decreases n,
{
    if n <= 0 {
        Kept { modules: Seq::empty(), lost }
    } else {
        kept_next(
            kept_of(folds, modules, lost, n - 1),
            module_folded(folds, modules[n - 1]),
            modules[n - 1].key,
        )
    }
}

/// The modules that are kept.
pub open spec fn kept_modules(kept: Kept) -> Seq<Module> {
    kept.modules.map_values(|k: (Module, ObjectKey)| k.0)
}

/// What comes of collapsing: the number of keys collapsed, the modules left, and what is published.
/// Where nothing collapses, the modules stay as they are.
pub open spec fn collapsed(modules: Seq<Module>, list: Seq<(ObjectKey, Entry)>) -> (
    nat,
    Seq<Module>,
    Seq<(Text, Text)>,
) {
    let n = list.len() as int;
    let folds = collapses(list, n);
    if folds.len() == 0 {
        (0, modules, Seq::empty())
    } else {
        let kept = kept_of(folds, modules, uncertain(list, n), modules.len() as int);
        (folds.len(), kept_modules(kept), kept.lost)
    }
}

/// The first object taken as another is at most there, is taken as it, and no earlier one is.
pub proof fn lemma_first_alike(list: Seq<(ObjectKey, Entry)>, i: int, from: int)
    requires
        0 <= from <= i < list.len(),
    ensures
        from <= first_alike(list, i, from) <= i,
        first_alike(list, i, from) < i ==> alike(list[first_alike(list, i, from)].1, list[i].1),
        forall|j: int|
            from <= j < first_alike(list, i, from) ==> !alike((#[trigger] list[j]).1, list[i].1),
    decreases i - from,
{
    if from < i && !alike(list[from].1, list[i].1) {
        lemma_first_alike(list, i, from + 1);
    }
}

/// Whether a collapse is of one of the first `n` objects, onto the first that is taken as it.
pub open spec fn is_fold(
    list: Seq<(ObjectKey, Entry)>,
    n: int,
    fold: (ObjectKey, ObjectKey),
) -> bool {
    exists|i: int|
        #![trigger first_alike(list, i, 0)]
        0 <= i < n && first_alike(list, i, 0) < i && fold == (
            list[i].0,
            list[first_alike(list, i, 0)].0,
        )
}

/// The collapses are in the order of the keys; each is of an object among the first `n`, onto an
/// earlier one that is taken as it.
pub proof fn lemma_collapses(list: Seq<(ObjectKey, Entry)>, n: int)
    requires
        ordered(list),
        0 <= n <= list.len(),
    ensures
        ordered(collapses(list, n)),
        collapses(list, n).len() == uncertain(list, n).len(),
        forall|c: int|
            0 <= c < collapses(list, n).len() ==> is_fold(
                list,
                n,
                #[trigger] collapses(list, n)[c],
            ),
        forall|i: int|
            0 <= i < n && #[trigger] first_alike(list, i, 0) < i ==> found(
                collapses(list, n),
                list[i].0,
            ) == Some(list[first_alike(list, i, 0)].0),
        forall|i: int|
            0 <= i < n && #[trigger] first_alike(list, i, 0) >= i ==> found(
                collapses(list, n),
                list[i].0,
            ) is None,
    decreases n,
{
    let folds = collapses(list, n);
    if n > 0 {
        lemma_collapses(list, n - 1);
        let before = collapses(list, n - 1);
        let onto = first_alike(list, n - 1, 0);
        lemma_first_alike(list, n - 1, 0);
        assert forall|c: int| 0 <= c < folds.len() implies is_fold(
            list,
            n,
            #[trigger] folds[c],
        ) by {
            if c < before.len() {
                assert(is_fold(list, n - 1, before[c]));
                let i = choose|i: int|
                    #![trigger first_alike(list, i, 0)]
                    0 <= i < n - 1 && first_alike(list, i, 0) < i && before[c] == (
                        list[i].0,
                        list[first_alike(list, i, 0)].0,
                    );
                assert(folds[c] == before[c]);
            }
        }
        assert forall|a: int, b: int| 0 <= a < b < folds.len() implies (
        #[trigger] folds[a]).0.before((#[trigger] folds[b]).0) by {
            if b < before.len() {
                assert(folds[a] == before[a] && folds[b] == before[b]);
            } else {
                assert(is_fold(list, n - 1, before[a]));
                let i = choose|i: int|
                    #![trigger first_alike(list, i, 0)]
                    0 <= i < n - 1 && first_alike(list, i, 0) < i && before[a] == (
                        list[i].0,
                        list[first_alike(list, i, 0)].0,
                    );
                assert(list[i].0.before(list[n - 1].0));
            }
        }
        assert forall|i: int| 0 <= i < n && #[trigger] first_alike(list, i, 0) < i implies found(
            folds,
            list[i].0,
        ) == Some(list[first_alike(list, i, 0)].0) by {
            if i < n - 1 {
                lemma_slot(before, list[i].0, 0);
                let s = slot(before, list[i].0, 0);
                assert(stands_at(before, s, list[i].0));
                assert(folds[s] == before[s]);
                lemma_found(folds, list[i].0, s);
            } else {
                lemma_found(folds, list[i].0, before.len() as int);
            }
        }
        assert forall|i: int| 0 <= i < n && #[trigger] first_alike(list, i, 0) >= i implies found(
            folds,
            list[i].0,
        ) is None by {
            lemma_slot(folds, list[i].0, 0);
            let s = slot(folds, list[i].0, 0);
            if stands_at(folds, s, list[i].0) {
                assert(is_fold(list, n, folds[s]));
                let k = choose|k: int|
                    #![trigger first_alike(list, k, 0)]
                    0 <= k < n && first_alike(list, k, 0) < k && folds[s] == (
                        list[k].0,
                        list[first_alike(list, k, 0)].0,
                    );
                assert(list[k].0 == list[i].0);
                if k < i {
                    assert(list[k].0.before(list[i].0));
                } else if i < k {
                    assert(list[i].0.before(list[k].0));
                }
            }
        }
    }
}

/// Keys that are collapsed are pinned, were both opened through overlayfs, and agree in pin and
/// digest; a key that others are collapsed onto is itself not collapsed.
pub proof fn lemma_canonical(list: Seq<(ObjectKey, Entry)>, key: ObjectKey)
    requires
        ordered(list),
    ensures
        ({
            let folds = collapses(list, list.len() as int);
            let onto = canonical(folds, key);
            &&& canonical(folds, onto) == onto
            &&& onto != key ==> (found(list, key) matches Some(a) && found(list, onto) matches Some(
                b,
            ) && alike(a, b))
        }),
{
    let n = list.len() as int;
    let folds = collapses(list, n);
    lemma_collapses(list, n);
    lemma_slot(folds, key, 0);
    let s = slot(folds, key, 0);
    if stands_at(folds, s, key) {
        assert(is_fold(list, n, folds[s]));
        let i = choose|i: int|
            #![trigger first_alike(list, i, 0)]
            0 <= i < n && first_alike(list, i, 0) < i && folds[s] == (
                list[i].0,
                list[first_alike(list, i, 0)].0,
            );
        let onto = first_alike(list, i, 0);
        lemma_first_alike(list, i, 0);
        lemma_first_alike(list, onto, 0);
        if first_alike(list, onto, 0) < onto {
            assert(alike(list[first_alike(list, onto, 0)].1, list[i].1));
        }
        lemma_found(list, key, i);
        lemma_found(list, list[onto].0, onto);
    }
}

/// Whether no two kept modules have one key.
pub open spec fn keys_distinct(modules: Seq<(Module, ObjectKey)>) -> bool {
    forall|i: int, j: int|
        0 <= i < j < modules.len() ==> (#[trigger] modules[i]).0.key != (#[trigger] modules[j]).0.key
}

/// The first kept module with a key has the key, and none before it has.
pub proof fn lemma_kept_index(modules: Seq<(Module, ObjectKey)>, key: ObjectKey, from: int)
    requires
        0 <= from <= modules.len(),
    ensures
        from <= kept_index(modules, key, from) <= modules.len(),
        kept_index(modules, key, from) < modules.len() ==> modules[kept_index(
            modules,
            key,
            from,
        )].0.key == key,
        forall|i: int|
            from <= i < kept_index(modules, key, from) ==> (#[trigger] modules[i]).0.key != key,
    decreases modules.len() - from,
{
    if from < modules.len() && modules[from].0.key != key {
        lemma_kept_index(modules, key, from + 1);
    }
}

/// Where anything collapses, no two modules that are left have one key, the key of every module
/// that was there stands for one that is left, and nothing published before is dropped.
pub proof fn lemma_kept_distinct(
    folds: Seq<(ObjectKey, ObjectKey)>,
    modules: Seq<Module>,
    lost: Seq<(Text, Text)>,
    n: int,
)
    requires
        0 <= n <= modules.len(),
    ensures
        keys_distinct(kept_of(folds, modules, lost, n).modules),
        forall|m: int|
            0 <= m < n ==> kept_index(
                kept_of(folds, modules, lost, n).modules,
                canonical(folds, (#[trigger] modules[m]).key),
                0,
            ) < kept_of(folds, modules, lost, n).modules.len(),
        lost.len() <= kept_of(folds, modules, lost, n).lost.len(),
        kept_of(folds, modules, lost, n).lost.take(lost.len() as int) == lost,
    decreases n,
{
    if n > 0 {
        lemma_kept_distinct(folds, modules, lost, n - 1);
        let before = kept_of(folds, modules, lost, n - 1);
        let after = kept_of(folds, modules, lost, n);
        let module = module_folded(folds, modules[n - 1]);
        let at = kept_index(before.modules, module.key, 0);
        lemma_kept_index(before.modules, module.key, 0);
        assert forall|i: int, j: int| 0 <= i < j < after.modules.len() implies (
        #[trigger] after.modules[i]).0.key != (#[trigger] after.modules[j]).0.key by {
            if j < before.modules.len() {
                assert(after.modules[i].0.key == before.modules[i].0.key);
                assert(after.modules[j].0.key == before.modules[j].0.key);
            }
        }
        assert forall|m: int| 0 <= m < n implies kept_index(
            after.modules,
            canonical(folds, (#[trigger] modules[m]).key),
            0,
        ) < after.modules.len() by {
            let key = canonical(folds, modules[m].key);
            lemma_kept_index(after.modules, key, 0);
            lemma_kept_index(before.modules, key, 0);
            let b = kept_index(before.modules, key, 0);
            if b < before.modules.len() {
                assert(after.modules[b].0.key == key);
            } else {
                assert(m == n - 1);
                assert(after.modules[before.modules.len() as int].0.key == key);
            }
        }
        assert(after.lost.take(lost.len() as int) =~= before.lost.take(lost.len() as int));
    } else {
        assert(lost.take(lost.len() as int) =~= lost);
    }
}

/// Tells whether two objects are taken as one.
fn are_alike(a: &Entry, b: &Entry) -> (r: bool)
    ensures
        r == alike(*a, *b),
{
    a.sha256.as_str().unicode_len() > 0 && a.overlay && b.overlay && a.pin == b.pin && same(
        a.sha256.as_str(),
        b.sha256.as_str(),
    )
}

/// Finds the first object that is taken as the object at `i`.
fn find_alike(list: &Vec<(ObjectKey, Entry)>, i: usize) -> (r: usize)
    requires
        i < list@.len(),
    ensures
        r == first_alike(list@, i as int, 0),
        r <= i,
{
    let mut j: usize = 0;
    while j < i
        invariant
            j <= i < list@.len(),
            first_alike(list@, i as int, j as int) == first_alike(list@, i as int, 0),
        decreases i - j,
    {
        if are_alike(&list[j].1, &list[i].1) {
            return j;
        }
        j += 1;
    }
    i
}

/// Writes how an object is named in what was left out.
fn subject_of(path: &str, key: &ObjectKey) -> (r: String)
    ensures
        r@ == subject_text(path@, *key),
{
    let mut out = path.to_owned();
    out.append(" (");
    out.append(key.render().as_str());
    out.append(")");
    out
}

/// Finds the collapses, and what is published of them.
fn find_collapses(list: &Vec<(ObjectKey, Entry)>) -> (r: (
    Vec<(ObjectKey, ObjectKey)>,
    Vec<Skipped>,
))
    ensures
        r.0@ == collapses(list@, list@.len() as int),
        skip_texts(r.1@) == uncertain(list@, list@.len() as int),
{
    let mut folds: Vec<(ObjectKey, ObjectKey)> = Vec::new();
    let mut lost: Vec<Skipped> = Vec::new();
    assert(skip_texts(lost@) =~= Seq::<(Text, Text)>::empty());
    let mut i: usize = 0;
    while i < list.len()
        invariant
            i <= list@.len(),
            folds@ == collapses(list@, i as int),
            skip_texts(lost@) == uncertain(list@, i as int),
        decreases list@.len() - i,
    {
        let onto: usize = find_alike(list, i);
        if onto < i {
            let key = list[i].0;
            let first = list[onto].0;
            folds.push((key, first));
            let mut reason = "mapping ".to_owned();
            reason.append(key.render().as_str());
            reason.append(" was collapsed onto ");
            reason.append(first.render().as_str());
            reason.append(
                " by the overlayfs + inode metadata + SHA-256 heuristic, which cannot prove physical identity across overlay instances; calls through a distinct byte-identical instance would not be probed",
            );
            push_skip(&mut lost, subject_of(list[i].1.path.as_str(), &key), reason);
        }
        i += 1;
    }
    (folds, lost)
}

/// Finds the key that stands for a key.
fn stand_in(folds: &Vec<(ObjectKey, ObjectKey)>, key: ObjectKey) -> (r: ObjectKey)
    ensures
        r == canonical(folds@, key),
{
    let i: usize = find_slot(folds, &key);
    if has_at(folds, i, &key) {
        folds[i].1
    } else {
        key
    }
}

/// Gives the entries of a table the keys that stand for their objects.
fn fold_entries(folds: &Vec<(ObjectKey, ObjectKey)>, entries: &mut Vec<ScannedEntry>)
    ensures
        final(entries)@ == old(entries)@.map_values(|e: ScannedEntry| entry_folded(folds@, e)),
{
    let mut i: usize = 0;
    while i < entries.len()
        invariant
            i <= entries@.len(),
            entries@.len() == old(entries)@.len(),
            forall|j: int|
                0 <= j < i ==> #[trigger] entries@[j] == entry_folded(folds@, old(entries)@[j]),
            forall|j: int| i <= j < entries@.len() ==> #[trigger] entries@[j] == old(entries)@[j],
        decreases entries@.len() - i,
    {
        let key = stand_in(folds, entries[i].object);
        entries[i].object = key;
        i += 1;
    }
    assert(entries@ =~= old(entries)@.map_values(|e: ScannedEntry| entry_folded(folds@, e)));
}

/// Gives the entries of every table the keys that stand for their objects.
fn fold_tables(folds: &Vec<(ObjectKey, ObjectKey)>, tables: &mut Vec<ScannedTable>)
    ensures
        table_views(final(tables)@) == table_views(old(tables)@).map_values(
            |t: Table| table_folded(folds@, t),
        ),
{
    let mut i: usize = 0;
    while i < tables.len()
        invariant
            i <= tables@.len(),
            tables@.len() == old(tables)@.len(),
            forall|j: int|
                0 <= j < i ==> (#[trigger] tables@[j])@ == table_folded(folds@, old(tables)@[j]@),
            forall|j: int| i <= j < tables@.len() ==> #[trigger] tables@[j] == old(tables)@[j],
        decreases tables@.len() - i,
    {
        fold_entries(folds, &mut tables[i].entries);
        i += 1;
    }
    assert(table_views(tables@) =~= table_views(old(tables)@).map_values(
        |t: Table| table_folded(folds@, t),
    ));
}

/// Tells whether a target is listed.
fn lists_target(list: &Vec<(ObjectKey, u64)>, wanted: (ObjectKey, u64)) -> (r: bool)
    ensures
        r == list@.contains(wanted),
{
    let mut i: usize = 0;
    while i < list.len()
        invariant
            i <= list@.len(),
            forall|j: int| 0 <= j < i ==> list@[j] != wanted,
        decreases list@.len() - i,
    {
        if list[i].0 == wanted.0 && list[i].1 == wanted.1 {
            assert(list@[i as int] == wanted);
            return true;
        }
        i += 1;
    }
    false
}

/// Lists the targets of a module, each once.
fn list_targets(module: &ScannedModule) -> (list: Vec<(ObjectKey, u64)>)
    ensures
        list@.no_duplicates(),
        list@.to_set() == targets(module@),
        list@.len() == targets(module@).len(),
{
    let mut list: Vec<(ObjectKey, u64)> = Vec::new();
    let ghost tables = module@.tables;
    assert(list@.to_set() =~= Set::empty());
    let mut t: usize = 0;
    while t < module.tables.len()
        invariant
            t <= module.tables@.len(),
            tables == table_views(module.tables@),
            list@.no_duplicates(),
            list@.to_set() == targets_of(tables, t as int),
        decreases module.tables@.len() - t,
    {
        let entries = &module.tables[t].entries;
        assert(tables[t as int].entries == entries@);
        let ghost places = entries@.map_values(|e: ScannedEntry| target(e));
        let ghost before = targets_of(tables, t as int);
        let mut e: usize = 0;
        assert(places.take(0).to_set() =~= Set::empty());
        assert(before.union(Set::empty()) =~= before);
        while e < entries.len()
            invariant
                e <= entries@.len(),
                places == entries@.map_values(|e: ScannedEntry| target(e)),
                list@.no_duplicates(),
                list@.to_set() == before.union(places.take(e as int).to_set()),
            decreases entries@.len() - e,
        {
            let wanted = (entries[e].object, entries[e].file_offset);
            assert(places[e as int] == wanted);
            assert(places.take(e + 1) =~= places.take(e as int).push(wanted));
            let ghost seen = list@;
            if !lists_target(&list, wanted) {
                list.push(wanted);
                assert(list@.to_set() =~= seen.to_set().insert(wanted)) by {
                    assert forall|x: (ObjectKey, u64)| list@.to_set().contains(x)
                        == seen.to_set().insert(wanted).contains(x) by {
                        if seen.contains(x) {
                            let k = choose|k: int| 0 <= k < seen.len() && seen[k] == x;
                            assert(list@[k] == x);
                        }
                        assert(list@[seen.len() as int] == wanted);
                    }
                }
            } else {
                assert(seen.to_set().contains(wanted));
            }
            assert(places.take(e + 1).to_set() =~= places.take(e as int).to_set().insert(wanted))
                by {
                let old_places = places.take(e as int);
                assert forall|x: (ObjectKey, u64)| old_places.push(wanted).to_set().contains(x)
                    == old_places.to_set().insert(wanted).contains(x) by {
                    if old_places.contains(x) {
                        let k = choose|k: int| 0 <= k < old_places.len() && old_places[k] == x;
                        assert(old_places.push(wanted)[k] == x);
                    }
                    assert(old_places.push(wanted)[old_places.len() as int] == wanted);
                }
            }
            assert(list@.to_set() =~= before.union(places.take(e + 1).to_set()));
            e += 1;
        }
        assert(places.take(e as int) =~= places);
        t += 1;
    }
    proof {
        list@.unique_seq_to_set();
    }
    list
}

/// Counts the targets of one list that another does not have.
fn count_missing(from: &Vec<(ObjectKey, u64)>, other: &Vec<(ObjectKey, u64)>) -> (r: usize)
    requires
        from@.no_duplicates(),
    ensures
        r == from@.to_set().difference(other@.to_set()).len(),
{
    let ghost mut gone: Seq<(ObjectKey, u64)> = Seq::empty();
    let mut count: usize = 0;
    let mut i: usize = 0;
    while i < from.len()
        invariant
            i <= from@.len(),
            count <= i,
            count == gone.len(),
            from@.no_duplicates(),
            gone.no_duplicates(),
            forall|x: (ObjectKey, u64)|
                #[trigger] gone.contains(x) <==> from@.take(i as int).contains(x)
                    && !other@.contains(x),
        decreases from@.len() - i,
    {
        let wanted = from[i];
        let ghost before = gone;
        assert(from@.take(i + 1) =~= from@.take(i as int).push(wanted));
        assert(!from@.take(i as int).contains(wanted)) by {
            if from@.take(i as int).contains(wanted) {
                let k = choose|k: int|
                    0 <= k < from@.take(i as int).len() && from@.take(i as int)[k] == wanted;
                assert(from@[k] == from@[i as int]);
            }
        }
        let missing: bool = !lists_target(other, wanted);
        if missing {
            assert(!before.contains(wanted));
            proof {
                gone = gone.push(wanted);
                assert forall|a: int, b: int|
                    0 <= a < gone.len() && 0 <= b < gone.len() && a != b implies gone[a]
                    != gone[b] by {
                    if a < before.len() {
                        assert(before.contains(before[a]));
                    }
                    if b < before.len() {
                        assert(before.contains(before[b]));
                    }
                }
            }
            count += 1;
        }
        assert forall|x: (ObjectKey, u64)| #[trigger]
            gone.contains(x) <==> from@.take(i + 1).contains(x) && !other@.contains(x) by {
            let now = from@.take(i + 1);
            let past = from@.take(i as int);
            assert(now[i as int] == wanted);
            if past.contains(x) {
                let k = choose|k: int| 0 <= k < past.len() && past[k] == x;
                assert(now[k] == x);
            }
            if now.contains(x) && x != wanted {
                let k = choose|k: int| 0 <= k < now.len() && now[k] == x;
                assert(past[k] == x);
            }
            if before.contains(x) {
                let k = choose|k: int| 0 <= k < before.len() && before[k] == x;
                assert(gone[k] == x);
            }
            if missing {
                assert(gone[before.len() as int] == wanted);
            }
            if gone.contains(x) && x != wanted {
                let k = choose|k: int| 0 <= k < gone.len() && gone[k] == x;
                assert(before[k] == x);
            }
        }
        i += 1;
    }
    assert(from@.take(i as int) =~= from@);
    assert(gone.to_set() =~= from@.to_set().difference(other@.to_set()));
    proof {
        gone.unique_seq_to_set();
    }
    count
}

/// Kept modules, by what they list.
pub open spec fn kept_views(list: Seq<(ScannedModule, ObjectKey)>) -> Seq<(Module, ObjectKey)> {
    list.map_values(|k: (ScannedModule, ObjectKey)| (k.0@, k.1))
}

/// Finds the kept module with a key, or the end.
fn find_kept(list: &Vec<(ScannedModule, ObjectKey)>, key: ObjectKey) -> (i: usize)
    ensures
        i == kept_index(kept_views(list@), key, 0),
        i <= list@.len(),
{
    let mut i: usize = 0;
    while i < list.len()
        invariant
            i <= list@.len(),
            kept_index(kept_views(list@), key, i as int) == kept_index(kept_views(list@), key, 0),
        decreases list@.len() - i,
    {
        assert(kept_views(list@)[i as int].0.key == list@[i as int].0.key);
        if list[i].0.key == key {
            return i;
        }
        i += 1;
    }
    i
}

/// Publishes what is lost when a module is given up for another.
fn publish_loss(
    lost: &mut Vec<Skipped>,
    winning: &Vec<(ObjectKey, u64)>,
    losing: &Vec<(ObjectKey, u64)>,
    loser: &ScannedModule,
    loser_key: ObjectKey,
)
    requires
        losing@.no_duplicates(),
        losing@.to_set() == targets(loser@),
    ensures
        skip_texts(final(lost)@) == loss(
            skip_texts(old(lost)@),
            winning@.to_set(),
            loser@,
            loser_key,
        ),
{
    let missing: usize = count_missing(losing, winning);
    if missing > 0 {
        let reason = concat3(
            "the attached mapping does not publish ",
            decimal(missing as u64).as_str(),
            " target(s) the discarded mapping decoded; those are not probed — the two processes' function tables differ (a table patched in memory, or a dependency mapped in only one mount namespace)",
        );
        push_skip(lost, subject_of(loser.path.as_str(), &loser_key), reason);
    }
}

/// Looks at one more module.
fn keep_module(
    kept: &mut Vec<(ScannedModule, ObjectKey)>,
    lost: &mut Vec<Skipped>,
    module: ScannedModule,
    original: ObjectKey,
)
    ensures
        ({
            let before = Kept {
                modules: kept_views(old(kept)@),
                lost: skip_texts(old(lost)@),
            };
            let after = kept_next(before, module@, original);
            &&& kept_views(final(kept)@) == after.modules
            &&& skip_texts(final(lost)@) == after.lost
        }),
{
    let at: usize = find_kept(kept, module.key);
    let ghost before = kept_views(kept@);
    if at >= kept.len() {
        let ghost view = module@;
        kept.push((module, original));
        assert(kept_views(kept@) =~= before.push((view, original)));
        return;
    }
    assert(before[at as int] == (kept@[at as int].0@, kept@[at as int].1));
    let here = list_targets(&module);
    let there = list_targets(&kept[at].0);
    if here.len() > there.len() {
        publish_loss(lost, &here, &there, &kept[at].0, kept[at].1);
        let ghost view = module@;
        kept.set(at, (module, original));
        assert(kept_views(kept@) =~= before.update(at as int, (view, original)));
    } else {
        publish_loss(lost, &there, &here, &module, original);
    }
}

/// Collapses mappings that are taken as one file onto one key, and keeps one module for each key:
/// the one with the most targets. Gives the number of keys collapsed and what is to be published of
/// it: every collapse, and every module given up that had targets which the kept one has not.
pub fn collapse_overlay_mappings(modules: &mut Vec<ScannedModule>, pinned: &PinnedObjects) -> (r: (
    usize,
    Vec<Skipped>,
))
    ensures
        ({
            let (count, left, lost) = collapsed(module_views(old(modules)@), pinned.by_key@);
            &&& r.0 == count
            &&& module_views(final(modules)@) == left
            &&& skip_texts(r.1@) == lost
        }),
{
    let (folds, mut lost) = find_collapses(&pinned.by_key);
    if folds.len() == 0 {
        proof {
            assert(uncertain(pinned.by_key@, pinned.by_key@.len() as int).len() == 0) by {
                lemma_as_many(pinned.by_key@, pinned.by_key@.len() as int);
            }
            assert(skip_texts(lost@) =~= Seq::<(Text, Text)>::empty());
        }
        return (0, lost);
    }
    let ghost all = modules@;
    let ghost views = module_views(all);
    let ghost first = skip_texts(lost@);
    let mut kept: Vec<(ScannedModule, ObjectKey)> = Vec::new();
    assert(kept_views(kept@) =~= Seq::<(Module, ObjectKey)>::empty());
    let ghost mut n: int = 0;
    assert(all.skip(0) =~= all);
    while modules.len() > 0
        invariant
            0 <= n <= all.len(),
            modules@ == all.skip(n),
            views == module_views(all),
            kept_views(kept@) == kept_of(folds@, views, first, n).modules,
            skip_texts(lost@) == kept_of(folds@, views, first, n).lost,
        decreases modules@.len(),
    {
        let mut module = modules.remove(0);
        assert(all.skip(n)[0] == all[n]);
        assert(views[n] == module@);
        let original = module.key;
        fold_tables(&folds, &mut module.tables);
        module.key = stand_in(&folds, original);
        assert(module@ == module_folded(folds@, views[n]));
        keep_module(&mut kept, &mut lost, module, original);
        proof {
            n = n + 1;
        }
        assert(modules@ =~= all.skip(n));
    }
    let ghost done = kept_views(kept@);
    let ghost entries = kept@;
    let mut left: Vec<ScannedModule> = Vec::new();
    let ghost mut k: int = 0;
    assert(entries.skip(0) =~= entries);
    while kept.len() > 0
        invariant
            0 <= k <= entries.len(),
            kept@ == entries.skip(k),
            left@.len() == k,
            forall|j: int| 0 <= j < k ==> #[trigger] left@[j] == entries[j].0,
        decreases kept@.len(),
    {
        let (module, _) = kept.remove(0);
        assert(entries.skip(k)[0] == entries[k]);
        left.push(module);
        proof {
            k = k + 1;
        }
        assert(kept@ =~= entries.skip(k));
    }
    let count: usize = folds.len();
    *modules = left;
    assert(module_views(modules@) =~= kept_modules(
        kept_of(folds@, views, first, all.len() as int),
    ));
    (count, lost)
}

/// As many records are published as there are collapses.
proof fn lemma_as_many(list: Seq<(ObjectKey, Entry)>, n: int)
    ensures
        collapses(list, n).len() == uncertain(list, n).len(),
    decreases n,
{
    if n > 0 {
        lemma_as_many(list, n - 1);
    }
}

} // verus!
