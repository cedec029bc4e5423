//! What holds of the objects that a capture wants, pins and compares, said of the objects
//! themselves.

use crate::discovery::identity::keyed::{
    found, kept, lemma_found, lemma_kept, lemma_slot, ordered, slot,
};
use crate::discovery::identity::manifest::{
    candidate_entry, candidate_with, function_problem, functions_problems, holds_candidates,
    identity_problem, identity_problems, in_code, keying_problems, matching_problems, object_with,
    opened_after, surfaces_problems, Candidate, ManifestFunction, ManifestObject, ManifestSurface,
    Opening, Resolution,
};
use crate::discovery::identity::pinned::{
    absorbed, entry_of, identity_found, lemma_absorbed, unchanged_from, Entry, IdentitySource,
    IdentityText, Located, ObjectIdentity, Pin,
};
use crate::discovery::identity::scanned::{
    entries_wanted, fits, lemma_modules_wanted, module_views, modules_wanted, path_texts,
    settled_identity, tables_wanted, Inspecting, Module, ScanLimits, ScannedEntry, ScannedModule,
    Table,
};
use crate::maps::ObjectKey;
use crate::text::Text;
use vstd::prelude::*;

verus! {

/// Whether a key is listed.
pub open spec fn lists_key<V>(list: Seq<(ObjectKey, V)>, key: ObjectKey) -> bool {
    exists|i: int| 0 <= i < list.len() && (#[trigger] list[i]).0 == key
}

/// Whether an entry of a table lies in an object.
pub open spec fn table_names(table: Table, key: ObjectKey) -> bool {
    exists|e: int| 0 <= e < table.entries.len() && (#[trigger] table.entries[e]).object == key
}

/// Whether a module is an object, or an entry of one of its tables lies in it.
pub open spec fn module_names(module: Module, key: ObjectKey) -> bool {
    module.key == key || exists|t: int|
        0 <= t < module.tables.len() && table_names(#[trigger] module.tables[t], key)
}

/// An object is wanted for modules exactly where one of them is it, or where an entry of one of
/// their tables lies in it.
pub proof fn lemma_wanted_are_named(modules: Seq<Module>, n: int, key: ObjectKey)
    requires
        0 <= n <= modules.len(),
    ensures
        lists_key(modules_wanted(modules, n), key) <==> exists|m: int|
            0 <= m < n && module_names(#[trigger] modules[m], key),
    decreases n,
{
    if n > 0 {
        lemma_wanted_are_named(modules, n - 1, key);
        let module = modules[n - 1];
        let before = modules_wanted(modules, n - 1);
        let with = kept(before, module.key, module.path@);
        lemma_modules_wanted(modules, n - 1);
        lemma_kept_keys(before, module.key, module.path@, key);
        lemma_kept(before, module.key, module.path@, key);
        lemma_tables_names(with, module.tables, module.tables.len() as int, key);
        if exists|m: int| 0 <= m < n && module_names(#[trigger] modules[m], key) {
            let m = choose|m: int| 0 <= m < n && module_names(#[trigger] modules[m], key);
            if m < n - 1 {
                assert(module_names(modules[m], key));
            }
        }
        if lists_key(before, key) {
            let m = choose|m: int| 0 <= m < n - 1 && module_names(#[trigger] modules[m], key);
            assert(module_names(modules[m], key));
        }
        if lists_key(modules_wanted(modules, n), key) && !lists_key(before, key) {
            assert(module_names(modules[n - 1], key));
        }
    }
}

/// Keeping a value under a key lists that key and every key that was listed.
proof fn lemma_kept_keys<V>(list: Seq<(ObjectKey, V)>, key: ObjectKey, value: V, other: ObjectKey)
    requires
        ordered(list),
    ensures
        lists_key(kept(list, key, value), other) <==> lists_key(list, other) || other == key,
{
    lemma_slot(list, key, 0);
    let s = slot(list, key, 0);
    let after = kept(list, key, value);
    if lists_key(list, other) {
        let i = choose|i: int| 0 <= i < list.len() && (#[trigger] list[i]).0 == other;
        if after.len() == list.len() {
            assert(after[i].0 == other);
        } else {
            let p = if i < s {
                i
            } else {
                i + 1
            };
            assert(after[p] == list[i]);
        }
    }
    if other == key {
        assert(after[s].0 == key);
    }
    if lists_key(after, other) && other != key {
        let i = choose|i: int| 0 <= i < after.len() && (#[trigger] after[i]).0 == other;
        if after.len() == list.len() {
            assert(list[i].0 == other);
        } else {
            let p = if i < s {
                i
            } else {
                i - 1
            };
            assert(after[i] == list[p]);
            assert(list[p].0 == other);
        }
    }
}

/// Wanting the objects of entries lists those objects and what was listed.
proof fn lemma_entries_names(
    wanted: Seq<(ObjectKey, Text)>,
    entries: Seq<ScannedEntry>,
    n: int,
    key: ObjectKey,
)
    requires
        ordered(wanted),
        0 <= n <= entries.len(),
    ensures
        ordered(entries_wanted(wanted, entries, n)),
        lists_key(entries_wanted(wanted, entries, n), key) <==> lists_key(wanted, key) || exists|
            e: int,
        |
            0 <= e < n && (#[trigger] entries[e]).object == key,
    decreases n,
{
    if n > 0 {
        lemma_entries_names(wanted, entries, n - 1, key);
        let before = entries_wanted(wanted, entries, n - 1);
        let last = entries[n - 1];
        lemma_kept_keys(before, last.object, last.object_path@, key);
        lemma_kept(
            before,
            last.object,
            last.object_path@,
            key,
        );
        if exists|e: int| 0 <= e < n - 1 && (#[trigger] entries[e]).object == key {
            let e = choose|e: int| 0 <= e < n - 1 && (#[trigger] entries[e]).object == key;
            assert(entries[e].object == key);
        }
    }
}

/// Wanting the objects of tables lists those objects and what was listed.
proof fn lemma_tables_names(
    wanted: Seq<(ObjectKey, Text)>,
    tables: Seq<Table>,
    n: int,
    key: ObjectKey,
)
    requires
        ordered(wanted),
        0 <= n <= tables.len(),
    ensures
        ordered(tables_wanted(wanted, tables, n)),
        lists_key(tables_wanted(wanted, tables, n), key) <==> lists_key(wanted, key) || exists|
            t: int,
        |
            0 <= t < n && table_names(#[trigger] tables[t], key),
    decreases n,
{
    if n > 0 {
        lemma_tables_names(wanted, tables, n - 1, key);
        let last = tables[n - 1];
        lemma_entries_names(
            tables_wanted(wanted, tables, n - 1),
            last.entries,
            last.entries.len() as int,
            key,
        );
        if exists|t: int| 0 <= t < n - 1 && table_names(#[trigger] tables[t], key) {
            let t = choose|t: int| 0 <= t < n - 1 && table_names(#[trigger] tables[t], key);
            assert(table_names(tables[t], key));
        }
        if table_names(last, key) {
            assert(table_names(tables[n - 1], key));
        }
    }
}

/// Whether a scanned module is an object, or an entry of one of its tables lies in it.
pub open spec fn names_object(module: ScannedModule, key: ObjectKey) -> bool {
    module.key == key || exists|t: int, e: int|
        0 <= t < module.tables@.len() && 0 <= e < module.tables@[t].entries@.len() && (
        #[trigger] module.tables@[t].entries@[e]).object == key
}

/// Whether exactly the objects that modules name are listed.
pub open spec fn wants_exactly(
    wanted: Seq<(ObjectKey, String)>,
    modules: Seq<ScannedModule>,
) -> bool {
    forall|key: ObjectKey|
        #[trigger] lists_key(wanted, key) <==> exists|m: int|
            0 <= m < modules.len() && names_object(#[trigger] modules[m], key)
}

/// What is listed by characters is listed.
proof fn lemma_texts_keys(list: Seq<(ObjectKey, String)>, key: ObjectKey)
    ensures
        lists_key(path_texts(list), key) <==> lists_key(
            list,
            key,
        ),
{
    let views = path_texts(list);
    if lists_key(list, key) {
        let i = choose|i: int| 0 <= i < list.len() && (#[trigger] list[i]).0 == key;
        assert(views[i].0 == key);
    }
    if lists_key(views, key) {
        let i = choose|i: int| 0 <= i < views.len() && (#[trigger] views[i]).0 == key;
        assert(list[i].0 == key);
    }
}

/// A scanned module names what its view names.
proof fn lemma_view_names(module: ScannedModule, key: ObjectKey)
    ensures
        module_names(module@, key) == names_object(module, key),
{
    let view = module@;
    if module.key != key {
        if names_object(module, key) {
            let (t, e) = choose|t: int, e: int|
                0 <= t < module.tables@.len() && 0 <= e < module.tables@[t].entries@.len() && (
                #[trigger] module.tables@[t].entries@[e]).object == key;
            assert(view.tables[t] == module.tables@[t]@);
            assert(view.tables[t].entries[e].object == key);
            assert(table_names(view.tables[t], key));
        }
        if module_names(view, key) {
            let t = choose|t: int|
                0 <= t < view.tables.len() && table_names(#[trigger] view.tables[t], key);
            let e = choose|e: int|
                0 <= e < view.tables[t].entries.len() && (
                #[trigger] view.tables[t].entries[e]).object == key;
            assert(view.tables[t] == module.tables@[t]@);
            assert(module.tables@[t].entries@[e].object == key);
        }
    }
}

/// What is wanted for scanned modules is exactly what they name.
pub proof fn lemma_wants_exactly(wanted: Seq<(ObjectKey, String)>, modules: Seq<ScannedModule>)
    requires
        path_texts(wanted) == modules_wanted(
            module_views(modules),
            modules.len() as int,
        ),
    ensures
        wants_exactly(wanted, modules),
{
    let views = module_views(modules);
    assert forall|key: ObjectKey|
        #[trigger] lists_key(wanted, key) <==> exists|m: int|
            0 <= m < modules.len() && names_object(#[trigger] modules[m], key) by {
        lemma_texts_keys(wanted, key);
        lemma_wanted_are_named(views, modules.len() as int, key);
        if exists|m: int| 0 <= m < modules.len() && names_object(#[trigger] modules[m], key) {
            let m = choose|m: int|
                0 <= m < modules.len() && names_object(#[trigger] modules[m], key);
            lemma_view_names(modules[m], key);
            assert(views[m] == modules[m]@);
            assert(module_names(views[m], key));
        }
        if exists|m: int| 0 <= m < views.len() && module_names(#[trigger] views[m], key) {
            let m = choose|m: int| 0 <= m < views.len() && module_names(#[trigger] views[m], key);
            lemma_view_names(modules[m], key);
            assert(views[m] == modules[m]@);
            assert(names_object(modules[m], key));
        }
    }
}

/// Pinned objects count as unchanged where every pin was read and is what it was; as changed where
/// one differs and every one before it is what it was; and they cannot be judged where one cannot
/// be read and every one before it is what it was.
pub proof fn lemma_unchanged_is_every_pin(
    list: Seq<(ObjectKey, Entry)>,
    seen: Seq<Result<Pin, String>>,
    i: int,
)
    requires
        0 <= i <= list.len() == seen.len(),
    ensures
        unchanged_from(list, seen, i) == Ok::<bool, Text>(true) <==> forall|k: int|
            i <= k < list.len() ==> #[trigger] seen[k] == Ok::<Pin, String>(list[k].1.pin),
        unchanged_from(list, seen, i) == Ok::<bool, Text>(false) <==> exists|k: int|
            i <= k < list.len() && differs(list, seen, k) && #[trigger] same_before(
                list,
                seen,
                i,
                k,
            ),
        unchanged_from(list, seen, i) is Err <==> exists|k: int|
            i <= k < list.len() && seen[k] is Err && #[trigger] same_before(list, seen, i, k),
    decreases list.len() - i,
{
    if i < list.len() {
        lemma_unchanged_is_every_pin(list, seen, i + 1);
        let same = seen[i] == Ok::<Pin, String>(list[i].1.pin);
        assert(same_before(list, seen, i, i));
        if same {
            assert forall|k: int| i + 1 <= k < list.len() implies same_before(
                list,
                seen,
                i + 1,
                k,
            ) == #[trigger] same_before(list, seen, i, k) by {
                if same_before(list, seen, i + 1, k) {
                    assert forall|j: int| i <= j < k implies #[trigger] seen[j] == Ok::<
                        Pin,
                        String,
                    >(list[j].1.pin) by {
                    }
                }
            }
            if exists|k: int|
                i + 1 <= k < list.len() && differs(list, seen, k) && #[trigger] same_before(
                    list,
                    seen,
                    i + 1,
                    k,
                ) {
                let k = choose|k: int|
                    i + 1 <= k < list.len() && differs(list, seen, k) && #[trigger] same_before(
                        list,
                        seen,
                        i + 1,
                        k,
                    );
                assert(same_before(list, seen, i, k));
            }
            if exists|k: int|
                i + 1 <= k < list.len() && seen[k] is Err && #[trigger] same_before(
                    list,
                    seen,
                    i + 1,
                    k,
                ) {
                let k = choose|k: int|
                    i + 1 <= k < list.len() && seen[k] is Err && #[trigger] same_before(
                        list,
                        seen,
                        i + 1,
                        k,
                    );
                assert(same_before(list, seen, i, k));
            }
            if exists|k: int|
                i <= k < list.len() && differs(list, seen, k) && #[trigger] same_before(
                    list,
                    seen,
                    i,
                    k,
                ) {
                let k = choose|k: int|
                    i <= k < list.len() && differs(list, seen, k) && #[trigger] same_before(
                        list,
                        seen,
                        i,
                        k,
                    );
                assert(same_before(list, seen, i + 1, k));
            }
            if exists|k: int|
                i <= k < list.len() && seen[k] is Err && #[trigger] same_before(list, seen, i, k) {
                let k = choose|k: int|
                    i <= k < list.len() && seen[k] is Err && #[trigger] same_before(
                        list,
                        seen,
                        i,
                        k,
                    );
                assert(same_before(list, seen, i + 1, k));
            }
        } else {
            assert forall|k: int| i < k < list.len() implies !#[trigger] same_before(
                list,
                seen,
                i,
                k,
            ) by {
                assert(seen[i] != Ok::<Pin, String>(list[i].1.pin));
            }
        }
    }
}

/// Whether a pin was read and is not what it was.
pub open spec fn differs(
    list: Seq<(ObjectKey, Entry)>,
    seen: Seq<Result<Pin, String>>,
    k: int,
) -> bool {
    match seen[k] {
        Ok(pin) => pin.ino != list[k].1.pin.ino || pin.size != list[k].1.pin.size || pin.ctime
            != list[k].1.pin.ctime || pin.ctime_nsec != list[k].1.pin.ctime_nsec,
        Err(_) => false,
    }
}

/// Whether the pins from `i` up to `k` were read and are what they were.
pub open spec fn same_before(
    list: Seq<(ObjectKey, Entry)>,
    seen: Seq<Result<Pin, String>>,
    i: int,
    k: int,
) -> bool {
    forall|j: int| i <= j < k ==> #[trigger] seen[j] == Ok::<Pin, String>(list[j].1.pin)
}

/// In a list in the order of its keys every key is found with its own value, and no other key is
/// found. So the path that a probe opens is that of the object with the key, and of no other.
pub proof fn lemma_found_is_listed<V>(list: Seq<(ObjectKey, V)>, key: ObjectKey)
    requires
        ordered(list),
    ensures
        match found(list, key) {
            Some(value) => exists|i: int|
                0 <= i < list.len() && (#[trigger] list[i]).0 == key && list[i].1 == value,
            None => !lists_key(list, key),
        },
        forall|i: int|
            0 <= i < list.len() && (#[trigger] list[i]).0 == key ==> found(list, key) == Some(
                list[i].1,
            ),
{
    assert forall|i: int| 0 <= i < list.len() && (#[trigger] list[i]).0 == key implies found(
        list,
        key,
    ) == Some(list[i].1) by {
        lemma_found(list, key, i);
    }
    if found(list, key) is Some {
        let s = slot(list, key, 0);
        assert(list[s].0 == key);
    }
}

/// Keys are in an order: no key stands before itself, of two that differ one stands before the
/// other, and what stands before a second stands before what comes after it.
pub proof fn lemma_keys_are_in_order(a: ObjectKey, b: ObjectKey, c: ObjectKey)
    ensures
        !a.before(a),
        a != b ==> a.before(b) || b.before(a),
        a.before(b) && b.before(c) ==> a.before(c),
        a.device.major < b.device.major ==> a.before(b),
{
    assert(a.device == b.device && a.inode == b.inode ==> a == b);
    assert(a.device.major == b.device.major && a.device.minor == b.device.minor ==> a.device
        == b.device);
}

/// Folding one set into another keeps every object of the first, takes every object of the second
/// whose key the first lacks, and takes nothing else.
pub proof fn lemma_absorb_keeps_both(
    list: Seq<(ObjectKey, Entry)>,
    other: Seq<(ObjectKey, Entry)>,
    key: ObjectKey,
)
    requires
        ordered(list),
        ordered(other),
    ensures
        ({
            let both = absorbed(list, other, other.len() as int);
            &&& forall|i: int|
                0 <= i < list.len() && (#[trigger] list[i]).0 == key ==> both.contains(list[i])
            &&& forall|i: int|
                0 <= i < other.len() && (#[trigger] other[i]).0 == key && !lists_key(list, key)
                    ==> both.contains(other[i])
            &&& forall|k: int|
                0 <= k < both.len() && (#[trigger] both[k]).0 == key ==> list.contains(both[k])
                    || (other.contains(both[k]) && !lists_key(list, key))
        }),
{
    let n = other.len() as int;
    let both = absorbed(list, other, n);
    lemma_absorbed(list, other, n, key);
    assert(other.take(n) =~= other);
    lemma_found_is_listed(list, key);
    lemma_found_is_listed(other, key);
    lemma_found_is_listed(both, key);
    assert forall|i: int| 0 <= i < list.len() && (#[trigger] list[i]).0 == key implies both.contains(
        list[i],
    ) by {
        let k = choose|k: int|
            0 <= k < both.len() && (#[trigger] both[k]).0 == key && both[k].1 == list[i].1;
        assert(both[k] == list[i]);
    }
    assert forall|i: int|
        0 <= i < other.len() && (#[trigger] other[i]).0 == key && !lists_key(
            list,
            key,
        ) implies both.contains(other[i]) by {
        let k = choose|k: int|
            0 <= k < both.len() && (#[trigger] both[k]).0 == key && both[k].1 == other[i].1;
        assert(both[k] == other[i]);
    }
    assert forall|k: int| 0 <= k < both.len() && (#[trigger] both[k]).0 == key implies list.contains(
        both[k],
    ) || (other.contains(both[k]) && !lists_key(list, key)) by {
        if lists_key(list, key) {
            let i = choose|i: int| 0 <= i < list.len() && (#[trigger] list[i]).0 == key;
            assert(list[i] == both[k]);
        } else {
            let i = choose|i: int|
                0 <= i < other.len() && (#[trigger] other[i]).0 == key && other[i].1 == both[k].1;
            assert(other[i] == both[k]);
        }
    }
}

/// An open file is the object that a mapping named where device and inode are the same; where the
/// mount table did not tell the device, where the inode is.
pub proof fn lemma_confirmed(seen: ObjectKey, expected: ObjectKey)
    ensures
        IdentitySource::Mountinfo.agrees(seen, expected) <==> seen == expected,
        IdentitySource::Stat.agrees(seen, expected) <==> seen.inode == expected.inode,
{
    assert(seen.device == expected.device && seen.inode == expected.inode ==> seen == expected);
}

/// The key of an open file is the one that the mount table gives; only where it gives none is it
/// that of the file's own status, and then that is noted.
pub proof fn lemma_located(located: Located)
    ensures
        match located {
            Located::Mounted(key) => identity_found(located) matches Ok(identity) && identity.key
                == key && identity.source is Mountinfo && identity.note is None,
            Located::Unmounted(_, Ok(status)) => identity_found(located) matches Ok(identity)
                && identity.key.inode == status.1 && identity.source is Stat && identity.note
                is Some,
            Located::Unmounted(_, Err(_)) => identity_found(located) is Err,
        },
{
}

/// An object fits where its own size and all sizes together stay within the limits.
pub proof fn lemma_fits(size: u64, limits: ScanLimits, total: u64)
    ensures
        fits(size, limits, total) <==> size <= limits.per_object_bytes && total + size
            <= limits.total_bytes,
{
}

/// An object whose pin is another one after it was read is not pinned.
pub proof fn lemma_read_while_unchanged(before: Pin, inspecting: Inspecting)
    ensures
        settled_identity(before, inspecting) is Ok <==> (inspecting matches Inspecting::Seen(_, Ok(
            after,
        )) && after == before),
        settled_identity(before, inspecting) matches Ok(identity) ==> (inspecting matches
            Inspecting::Seen(inspected, _) && inspected.identity == identity),
{
}

/// How many bytes the first `n` files have that were opened.
pub open spec fn opened_bytes(openings: Seq<Opening>, n: int) -> nat
    decreases n,
{
    if n <= 0 {
        0
    } else {
        opened_bytes(openings, n - 1) + match openings[n - 1] {
            Opening::Opened(Ok(pin)) => pin.size as nat,
            _ => 0,
        }
    }
}

/// Whether an object can be relied on and was opened.
pub open spec fn is_opened(object: ManifestObject, opening: Opening) -> bool {
    object.identity.reusable && (opening matches Opening::Opened(Ok(_)))
}

/// The objects of a manifest pass the first stage exactly where each of them can be relied on, was
/// opened and could be pinned, and where all of them together stay within the limit; then every
/// byte is counted.
pub proof fn lemma_opened(
    objects: Seq<ManifestObject>,
    openings: Seq<Opening>,
    limit: u64,
    n: int,
)
    requires
        0 <= n <= objects.len() == openings.len(),
        forall|i: int|
            0 <= i < objects.len() && #[trigger] openings[i] is Unopened
                ==> !objects[i].identity.reusable,
    ensures
        ({
            let (total, problems) = opened_after(objects, openings, limit, n);
            &&& total <= limit
            &&& problems.len() == 0 <==> (forall|i: int|
                0 <= i < n ==> is_opened(objects[i], #[trigger] openings[i])) && opened_bytes(
                openings,
                n,
            ) <= limit
            &&& problems.len() == 0 ==> total == opened_bytes(openings, n)
        }),
    decreases n,
{
    if n > 0 {
        lemma_opened(objects, openings, limit, n - 1);
        let (total, problems) = opened_after(objects, openings, limit, n - 1);
        if problems.len() == 0 {
            assert(is_opened(objects[n - 1], openings[n - 1]) || !is_opened(
                objects[n - 1],
                openings[n - 1],
            ));
        } else {
            let bad = opened_bytes(openings, n - 1) > limit;
            if !bad {
                let i = choose|i: int|
                    0 <= i < n - 1 && !is_opened(objects[i], #[trigger] openings[i]);
                assert(!is_opened(objects[i], openings[i]));
            }
        }
    }
}

/// Whether two strings that may be absent are the same.
pub open spec fn alike(a: Option<String>, b: Option<String>) -> bool {
    match a {
        None => b is None,
        Some(x) => b matches Some(y) && x@ == y@,
    }
}

/// Whether a file is what a manifest recorded, and did not change while it was read.
pub open spec fn is_recorded(recorded: ObjectIdentity, pin: Pin, inspecting: Inspecting) -> bool {
    inspecting matches Inspecting::Seen(inspected, Ok(after)) && after == pin
        && inspected.identity.kind == recorded.kind && alike(
        inspected.identity.value,
        recorded.value,
    ) && alike(inspected.identity.sha256, recorded.sha256)
}

/// Whether a function lies where no code is: its object was read, is the last with its number, and
/// no part of it that is mapped as code holds the offset.
pub open spec fn is_astray(
    objects: Seq<ManifestObject>,
    inspectings: Seq<Inspecting>,
    function: ManifestFunction,
) -> bool {
    function.resolution matches Resolution::Resolved { object, file_offset } && exists|i: int|
        0 <= i < objects.len() && (#[trigger] objects[i]).id == object && (forall|j: int|
            i < j < objects.len() ==> (#[trigger] objects[j]).id != object) && (inspectings[i]
            matches Inspecting::Seen(inspected, _) && forall|k: int|
            0 <= k < inspected.executable@.len() ==> !((
            #[trigger] inspected.executable@[k]).file_offset <= file_offset && file_offset
                < inspected.executable@[k].file_offset + inspected.executable@[k].size))
}

/// The objects of a manifest pass the second stage exactly where each file is what was recorded and
/// no function lies where no code is.
pub proof fn lemma_matched(
    objects: Seq<ManifestObject>,
    pins: Seq<Pin>,
    inspectings: Seq<Inspecting>,
    surfaces: Seq<ManifestSurface>,
)
    requires
        objects.len() == pins.len() == inspectings.len(),
    ensures
        matching_problems(objects, pins, inspectings, surfaces).len() == 0 <==> (forall|i: int|
            0 <= i < objects.len() ==> is_recorded(
                (#[trigger] objects[i]).identity,
                pins[i],
                inspectings[i],
            )) && forall|s: int, f: int|
            0 <= s < surfaces.len() && 0 <= f < surfaces[s].functions@.len() ==> !is_astray(
                objects,
                inspectings,
                #[trigger] surfaces[s].functions@[f],
            ),
{
    let n = objects.len() as int;
    let first = identity_problems(objects, pins, inspectings, n);
    lemma_identities(objects, pins, inspectings, n);
    lemma_surfaces(objects, pins, inspectings, first, surfaces, surfaces.len() as int);
    if first.len() == 0 {
        let all = forall|s: int, f: int|
            0 <= s < surfaces.len() && 0 <= f < surfaces[s].functions@.len() ==> !is_astray(
                objects,
                inspectings,
                #[trigger] surfaces[s].functions@[f],
            );
        if all {
            assert forall|s: int| 0 <= s < surfaces.len() implies surface_is_sound(
                objects,
                inspectings,
                #[trigger] surfaces[s],
            ) by {
                assert forall|f: int| 0 <= f < surfaces[s].functions@.len() implies !is_astray(
                    objects,
                    inspectings,
                    #[trigger] surfaces[s].functions@[f],
                ) by {
                }
            }
        } else {
            let (s, f) = choose|s: int, f: int|
                0 <= s < surfaces.len() && 0 <= f < surfaces[s].functions@.len() && is_astray(
                    objects,
                    inspectings,
                    #[trigger] surfaces[s].functions@[f],
                );
            assert(!surface_is_sound(objects, inspectings, surfaces[s]));
        }
    }
}

/// Whether no function of a surface lies where no code is.
pub open spec fn surface_is_sound(
    objects: Seq<ManifestObject>,
    inspectings: Seq<Inspecting>,
    surface: ManifestSurface,
) -> bool {
    forall|f: int|
        0 <= f < surface.functions@.len() ==> !is_astray(
            objects,
            inspectings,
            #[trigger] surface.functions@[f],
        )
}

/// No object has a problem exactly where each is what was recorded.
proof fn lemma_identities(
    objects: Seq<ManifestObject>,
    pins: Seq<Pin>,
    inspectings: Seq<Inspecting>,
    n: int,
)
    requires
        0 <= n <= objects.len() == pins.len() == inspectings.len(),
    ensures
        identity_problems(objects, pins, inspectings, n).len() == 0 <==> forall|i: int|
            0 <= i < n ==> is_recorded(
                (#[trigger] objects[i]).identity,
                pins[i],
                inspectings[i],
            ),
    decreases n,
{
    if n > 0 {
        lemma_identities(objects, pins, inspectings, n - 1);
        assert((identity_problem(objects[n - 1], pins[n - 1], inspectings[n - 1]) is None)
            == is_recorded(objects[n - 1].identity, pins[n - 1], inspectings[n - 1]));
        if identity_problems(objects, pins, inspectings, n - 1).len() > 0 {
            let i = choose|i: int|
                0 <= i < n - 1 && !is_recorded(
                    (#[trigger] objects[i]).identity,
                    pins[i],
                    inspectings[i],
                );
            assert(!is_recorded(objects[i].identity, pins[i], inspectings[i]));
        }
    }
}

/// Where no object has a problem, the one with a number is the last with it.
proof fn lemma_object_with(
    objects: Seq<ManifestObject>,
    pins: Seq<Pin>,
    inspectings: Seq<Inspecting>,
    id: u32,
    n: int,
)
    requires
        0 <= n <= objects.len() == pins.len() == inspectings.len(),
        identity_problems(objects, pins, inspectings, objects.len() as int).len() == 0,
    ensures
        ({
            let i = object_with(objects, pins, inspectings, id, n);
            &&& -1 <= i < n
            &&& i >= 0 ==> objects[i].id == id && inspectings[i] is Seen
            &&& forall|j: int| i < j < n ==> (#[trigger] objects[j]).id != id
        }),
    decreases n,
{
    lemma_identities(objects, pins, inspectings, objects.len() as int);
    if n > 0 {
        assert(is_recorded(objects[n - 1].identity, pins[n - 1], inspectings[n - 1]));
        lemma_object_with(objects, pins, inspectings, id, n - 1);
    }
}

/// Where no object has a problem, a function has one exactly where it lies where no code is.
proof fn lemma_astray(
    objects: Seq<ManifestObject>,
    pins: Seq<Pin>,
    inspectings: Seq<Inspecting>,
    function: ManifestFunction,
)
    requires
        objects.len() == pins.len() == inspectings.len(),
        identity_problems(objects, pins, inspectings, objects.len() as int).len() == 0,
    ensures
        (function_problem(
            objects,
            pins,
            inspectings,
            function,
        ) is Some) == is_astray(objects, inspectings, function),
{
    if let Resolution::Resolved { object, file_offset } = function.resolution {
        let n = objects.len() as int;
        lemma_object_with(objects, pins, inspectings, object, n);
        let i = object_with(objects, pins, inspectings, object, n);
        if i >= 0 {
            let parts = inspectings[i]->Seen_0.executable@;
            if in_code(parts, file_offset) {
                let k = choose|k: int|
                    0 <= k < parts.len() && (#[trigger] parts[k]).file_offset <= file_offset
                        && file_offset - parts[k].file_offset < parts[k].size;
                assert(parts[k].file_offset <= file_offset);
            } else {
                assert(objects[i].id == object);
                assert(is_astray(objects, inspectings, function));
            }
        }
        if is_astray(objects, inspectings, function) {
            let k = choose|k: int|
                0 <= k < objects.len() && (#[trigger] objects[k]).id == object && (forall|j: int|
                    k < j < objects.len() ==> (#[trigger] objects[j]).id != object) && (
                inspectings[k] matches Inspecting::Seen(inspected, _) && forall|m: int|
                    0 <= m < inspected.executable@.len() ==> !((
                    #[trigger] inspected.executable@[m]).file_offset <= file_offset && file_offset
                        < inspected.executable@[m].file_offset + inspected.executable@[m].size));
            assert(objects[k].id == object);
            assert(k == i);
        }
    }
}

/// The functions of a surface add a problem exactly where one lies where no code is.
proof fn lemma_functions(
    objects: Seq<ManifestObject>,
    pins: Seq<Pin>,
    inspectings: Seq<Inspecting>,
    problems: Seq<Text>,
    functions: Seq<ManifestFunction>,
    n: int,
)
    requires
        objects.len() == pins.len() == inspectings.len(),
        0 <= n <= functions.len(),
    ensures
        functions_problems(objects, pins, inspectings, problems, functions, n).len()
            >= problems.len(),
        identity_problems(objects, pins, inspectings, objects.len() as int).len() == 0 ==> (
        functions_problems(objects, pins, inspectings, problems, functions, n).len()
            == problems.len() <==> forall|f: int|
            0 <= f < n ==> !is_astray(objects, inspectings, #[trigger] functions[f])),
    decreases n,
{
    if n > 0 {
        lemma_functions(objects, pins, inspectings, problems, functions, n - 1);
        if identity_problems(objects, pins, inspectings, objects.len() as int).len() == 0 {
            lemma_astray(objects, pins, inspectings, functions[n - 1]);
            if exists|f: int|
                0 <= f < n - 1 && is_astray(objects, inspectings, #[trigger] functions[f]) {
                let f = choose|f: int|
                    0 <= f < n - 1 && is_astray(objects, inspectings, #[trigger] functions[f]);
                assert(is_astray(objects, inspectings, functions[f]));
            }
        }
    }
}

/// The surfaces add a problem exactly where a function of one lies where no code is.
proof fn lemma_surfaces(
    objects: Seq<ManifestObject>,
    pins: Seq<Pin>,
    inspectings: Seq<Inspecting>,
    problems: Seq<Text>,
    surfaces: Seq<ManifestSurface>,
    n: int,
)
    requires
        objects.len() == pins.len() == inspectings.len(),
        0 <= n <= surfaces.len(),
    ensures
        surfaces_problems(objects, pins, inspectings, problems, surfaces, n).len()
            >= problems.len(),
        identity_problems(objects, pins, inspectings, objects.len() as int).len() == 0 ==> (
        surfaces_problems(objects, pins, inspectings, problems, surfaces, n).len()
            == problems.len() <==> forall|s: int|
            0 <= s < n ==> surface_is_sound(objects, inspectings, #[trigger] surfaces[s])),
    decreases n,
{
    if n > 0 {
        lemma_surfaces(objects, pins, inspectings, problems, surfaces, n - 1);
        let last = surfaces[n - 1].functions@;
        lemma_functions(
            objects,
            pins,
            inspectings,
            surfaces_problems(objects, pins, inspectings, problems, surfaces, n - 1),
            last,
            last.len() as int,
        );
        if exists|s: int|
            0 <= s < n - 1 && !surface_is_sound(objects, inspectings, #[trigger] surfaces[s]) {
            let s = choose|s: int|
                0 <= s < n - 1 && !surface_is_sound(objects, inspectings, #[trigger] surfaces[s]);
            assert(!surface_is_sound(objects, inspectings, surfaces[s]));
        }
        if surface_is_sound(objects, inspectings, surfaces[n - 1]) {
            assert forall|f: int| 0 <= f < last.len() implies !is_astray(
                objects,
                inspectings,
                #[trigger] last[f],
            ) by {
            }
        } else {
            let f = choose|f: int|
                0 <= f < last.len() && is_astray(objects, inspectings, #[trigger] last[f]);
            assert(is_astray(objects, inspectings, last[f]));
        }
    }
}

/// The objects of a manifest are pinned only where each was found and no two of them are one
/// object.
pub proof fn lemma_keyed(list: Seq<Candidate>, n: int)
    requires
        0 <= n <= list.len(),
    ensures
        keying_problems(list, n).len() == 0 <==> (forall|i: int|
            0 <= i < n ==> candidate_entry(#[trigger] list[i]) is Ok) && forall|i: int, j: int|
            0 <= i < j < n ==> !are_one(#[trigger] list[i], #[trigger] list[j]),
    decreases n,
{
    if n > 0 {
        lemma_keyed(list, n - 1);
        if keying_problems(list, n - 1).len() > 0 {
            if exists|i: int| 0 <= i < n - 1 && candidate_entry(#[trigger] list[i]) is Err {
                let i = choose|i: int|
                    0 <= i < n - 1 && candidate_entry(#[trigger] list[i]) is Err;
                assert(candidate_entry(list[i]) is Err);
            } else {
                let (i, j) = choose|i: int, j: int|
                    0 <= i < j < n - 1 && are_one(#[trigger] list[i], #[trigger] list[j]);
                assert(are_one(list[i], list[j]));
            }
        } else if let Ok((key, _)) = candidate_entry(list[n - 1]) {
            lemma_candidate_with(list, key, n - 1);
            let earlier = candidate_with(list, key, n - 1);
            if earlier >= 0 {
                assert(are_one(list[earlier], list[n - 1]));
            } else {
                assert forall|i: int, j: int| 0 <= i < j < n implies !are_one(
                    #[trigger] list[i],
                    #[trigger] list[j],
                ) by {
                    if j == n - 1 {
                        assert(!(candidate_entry(list[i]) matches Ok(keyed) && keyed.0 == key));
                    }
                }
            }
        } else {
            assert(candidate_entry(list[n - 1]) is Err);
        }
    }
}

/// Whether two candidates show one key.
pub open spec fn are_one(a: Candidate, b: Candidate) -> bool {
    candidate_entry(a) matches Ok(first) && (candidate_entry(b) matches Ok(second) && first.0
        == second.0)
}

/// The candidate with a key is the last that shows it.
proof fn lemma_candidate_with(list: Seq<Candidate>, key: ObjectKey, n: int)
    requires
        0 <= n <= list.len(),
    ensures
        ({
            let i = candidate_with(list, key, n);
            &&& -1 <= i < n
            &&& i >= 0 ==> (candidate_entry(list[i]) matches Ok(keyed) && keyed.0 == key)
            &&& forall|j: int|
                i < j < n ==> !(candidate_entry(#[trigger] list[j]) matches Ok(keyed) && keyed.0
                    == key)
        }),
    decreases n,
{
    if n > 0 {
        lemma_candidate_with(list, key, n - 1);
    }
}

/// Every object of a manifest that was pinned is listed under the key that its mapping shows, with
/// its own descriptor, pin and path, and nothing else is listed.
pub proof fn lemma_every_candidate_is_pinned(
    by_key: Seq<(ObjectKey, Entry)>,
    list: Seq<Candidate>,
    i: int,
)
    requires
        holds_candidates(by_key, list, list.len() as int),
        keying_problems(list, list.len() as int).len() == 0,
        0 <= i < list.len(),
    ensures
        exists|k: int|
            0 <= k < by_key.len() && is_pin_of(#[trigger] by_key[k], list[i]),
        forall|k: int|
            0 <= k < by_key.len() ==> exists|j: int|
                0 <= j < list.len() && is_pin_of(#[trigger] by_key[k], #[trigger] list[j]),
{
    let n = list.len() as int;
    lemma_keyed(list, n);
    assert(candidate_entry(list[i]) is Ok);
    let key = candidate_entry(list[i])->Ok_0.0;
    lemma_candidate_with(list, key, n);
    let at = candidate_with(list, key, n);
    if at != i {
        if at < i {
            assert(candidate_entry(list[i])->Ok_0.0 == key);
        } else {
            assert(are_one(list[i], list[at]));
        }
    }
    lemma_found_is_listed(by_key, key);
    assert(found(by_key, key) is Some);
    let k = choose|k: int|
        0 <= k < by_key.len() && (#[trigger] by_key[k]).0 == key && by_key[k].1 == found(
            by_key,
            key,
        )->Some_0;
    assert(is_pin_of(by_key[k], list[i]));
    assert forall|k: int| 0 <= k < by_key.len() implies exists|j: int|
        0 <= j < list.len() && is_pin_of(#[trigger] by_key[k], #[trigger] list[j]) by {
        let other = by_key[k].0;
        lemma_found_is_listed(by_key, other);
        assert(found(by_key, other) == Some(by_key[k].1));
        lemma_candidate_with(list, other, n);
        let j = candidate_with(list, other, n);
        assert(is_pin_of(by_key[k], list[j]));
    }
}

/// Whether what is listed is a candidate, under the key that its mapping shows.
pub open spec fn is_pin_of(listed: (ObjectKey, Entry), c: Candidate) -> bool {
    &&& match c.located {
        Located::Mounted(key) => listed.0 == key && listed.1.identity_source is Mountinfo,
        Located::Unmounted(_, Ok(status)) => listed.0.inode == status.1
            && listed.1.identity_source is Stat,
        Located::Unmounted(_, Err(_)) => false,
    }
    &&& listed.1.fd == c.fd
    &&& listed.1.pin == c.pin
    &&& listed.1.path@ == c.path@
    &&& c.overlay matches Ok(overlay) && listed.1.overlay == overlay
}

/// What is kept of an object is what was found of it: its digest, where there is one, its build id
/// where that identified it, and how its key was compared.
pub proof fn lemma_entries_tell_the_object(
    fd: i32,
    pin: Pin,
    path: Text,
    identity: ObjectIdentity,
    seen: IdentityText,
    overlay: bool,
)
    ensures
        ({
            let entry = entry_of(fd, pin, path, identity, seen, overlay);
            &&& entry.fd == fd
            &&& entry.pin == pin
            &&& entry.path == path
            &&& identity.sha256 matches Some(digest) ==> entry.sha256 == digest@
            &&& identity.sha256 is None ==> entry.sha256.len() == 0
            &&& entry.build_id is Some <==> identity.kind is GnuBuildId && identity.value is Some
            &&& entry.build_id matches Some(id) ==> (identity.value matches Some(value) && id
                == value@)
            &&& entry.identity_source == seen.source
            &&& entry.note == seen.note
            &&& entry.overlay == overlay
        }),
{
}

} // verus!
