//! What a memory scan found in a target: modules, the function tables that they publish, and the
//! objects that the entries of those tables lie in; and how those objects are pinned.

use crate::discovery::attribution::Skipped;
use crate::discovery::identity::keyed::{
    keep, kept, lemma_kept, lemma_put, ordered, put, replace, slot,
};
use crate::discovery::identity::laws::{lemma_wants_exactly, wants_exactly};
use crate::discovery::identity::pinned::{
    entry_of, Entry, FoundIdentity, IdentityText, ObjectIdentity, Pin, PinnedObjects,
};
use crate::maps::ObjectKey;
use crate::text::{concat3, decimal, digits, Text};
use vstd::prelude::*;
use vstd::string::*;

verus! {

/// One entry of a function table: the function, and the object and offset that it lies at.
#[derive(Clone, Debug)]
pub struct ScannedEntry {
    pub name: String,
    pub object: ObjectKey,
    pub object_path: String,
    pub file_offset: u64,
}

/// One function table.
#[derive(Debug)]
pub struct ScannedTable {
    pub version: (u8, u8),
    pub walk: String,
    pub entries: Vec<ScannedEntry>,
    pub null_entries: Vec<String>,
    pub unpinned: Vec<String>,
    pub address: u64,
}

/// One module, with the tables that it publishes.
#[derive(Debug)]
pub struct ScannedModule {
    pub key: ObjectKey,
    pub path: String,
    pub exports: Vec<String>,
    pub tables: Vec<ScannedTable>,
    pub interfaces: Vec<String>,
}

/// One function table, by what it lists.
pub struct Table {
    pub version: (u8, u8),
    pub walk: String,
    pub entries: Seq<ScannedEntry>,
    pub null_entries: Seq<String>,
    pub unpinned: Seq<String>,
    pub address: u64,
}

/// One module, by what it lists.
pub struct Module {
    pub key: ObjectKey,
    pub path: String,
    pub exports: Seq<String>,
    pub tables: Seq<Table>,
    pub interfaces: Seq<String>,
}

impl View for ScannedTable {
    type V = Table;

    open spec fn view(&self) -> Table {
        Table {
            version: self.version,
            walk: self.walk,
            entries: self.entries@,
            null_entries: self.null_entries@,
            unpinned: self.unpinned@,
            address: self.address,
        }
    }
}

/// Function tables, by what they list.
pub open spec fn table_views(tables: Seq<ScannedTable>) -> Seq<Table> {
    tables.map_values(|t: ScannedTable| t@)
}

impl View for ScannedModule {
    type V = Module;

    open spec fn view(&self) -> Module {
        Module {
            key: self.key,
            path: self.path,
            exports: self.exports@,
            tables: table_views(self.tables@),
            interfaces: self.interfaces@,
        }
    }
}

/// Modules, by what they list.
pub open spec fn module_views(modules: Seq<ScannedModule>) -> Seq<Module> {
    modules.map_values(|m: ScannedModule| m@)
}

/// Something left out, by characters.
pub open spec fn skip_text(skip: Skipped) -> (Text, Text) {
    (skip.subject@, skip.reason@)
}

/// Everything left out, by characters.
pub open spec fn skip_texts(skips: Seq<Skipped>) -> Seq<(Text, Text)> {
    skips.map_values(|s: Skipped| skip_text(s))
}

/// Adds one thing that was left out.
pub fn push_skip(skips: &mut Vec<Skipped>, subject: String, reason: String)
    ensures
        skip_texts(final(skips)@) == skip_texts(old(skips)@).push((subject@, reason@)),
{
    skips.push(Skipped { subject, reason });
    assert(skip_texts(skips@) =~= skip_texts(old(skips)@).push((subject@, reason@)));
}

/// The most bytes that a scan reads of one object, and of all of them.
#[derive(Clone, Copy, Debug, PartialEq, Eq, Structural)]
pub struct ScanLimits {
    pub per_object_bytes: u64,
    pub total_bytes: u64,
}

/// The wanted objects with those of the first `n` entries of a table.
pub open spec fn entries_wanted(
    wanted: Seq<(ObjectKey, Text)>,
    entries: Seq<ScannedEntry>,
    n: int,
) -> Seq<(ObjectKey, Text)>
    decreases n,
{
    if n <= 0 {
        wanted
    } else {
        kept(
            entries_wanted(wanted, entries, n - 1),
            entries[n - 1].object,
            entries[n - 1].object_path@,
        )
    }
}

/// The wanted objects with those of the first `n` tables of a module.
pub open spec fn tables_wanted(wanted: Seq<(ObjectKey, Text)>, tables: Seq<Table>, n: int) -> Seq<
    (ObjectKey, Text),
>
    decreases n,
{
    if n <= 0 {
        wanted
    } else {
        entries_wanted(
            tables_wanted(wanted, tables, n - 1),
            tables[n - 1].entries,
            tables[n - 1].entries.len() as int,
        )
    }
}

/// The objects of the first `n` modules: each module itself, and every object that an entry of its
/// tables lies in. An object is wanted under the first path that names it.
pub open spec fn modules_wanted(modules: Seq<Module>, n: int) -> Seq<(ObjectKey, Text)>
    decreases n,
{
    if n <= 0 {
        Seq::empty()
    } else {
        let module = modules[n - 1];
        tables_wanted(
            kept(modules_wanted(modules, n - 1), module.key, module.path@),
            module.tables,
            module.tables.len() as int,
        )
    }
}

/// Objects with their paths, by characters.
pub open spec fn path_texts(list: Seq<(ObjectKey, String)>) -> Seq<(ObjectKey, Text)> {
    list.map_values(|w: (ObjectKey, String)| (w.0, w.1@))
}

/// A key has the same position whether paths are strings or characters.
proof fn lemma_path_slot(list: Seq<(ObjectKey, String)>, key: ObjectKey, from: int)
    ensures
        slot(path_texts(list), key, from) == slot(list, key, from),
        0 <= from <= list.len() ==> from <= slot(list, key, from) <= list.len(),
    decreases list.len() - from,
{
    if 0 <= from < list.len() {
        lemma_path_slot(list, key, from + 1);
    }
}

/// Wants an object under a path, unless it is wanted already.
fn want(wanted: &mut Vec<(ObjectKey, String)>, key: ObjectKey, path: &str)
    ensures
        path_texts(final(wanted)@) == kept(path_texts(old(wanted)@), key, path@),
{
    let owned = path.to_owned();
    keep(wanted, key, owned);
    proof {
        lemma_path_slot(old(wanted)@, key, 0);
        assert(path_texts(wanted@) =~= kept(path_texts(old(wanted)@), key, path@));
    }
}

/// Wanting the objects of entries keeps the order.
proof fn lemma_entries_wanted(
    wanted: Seq<(ObjectKey, Text)>,
    entries: Seq<ScannedEntry>,
    n: int,
)
    requires
        ordered(wanted),
    ensures
        ordered(entries_wanted(wanted, entries, n)),
    decreases n,
{
    if n > 0 {
        lemma_entries_wanted(wanted, entries, n - 1);
        let e = entries[n - 1];
        lemma_kept(
            entries_wanted(wanted, entries, n - 1),
            e.object,
            e.object_path@,
            e.object,
        );
    }
}

/// Wanting the objects of tables keeps the order.
proof fn lemma_tables_wanted(wanted: Seq<(ObjectKey, Text)>, tables: Seq<Table>, n: int)
    requires
        ordered(wanted),
    ensures
        ordered(tables_wanted(wanted, tables, n)),
    decreases n,
{
    if n > 0 {
        lemma_tables_wanted(wanted, tables, n - 1);
        lemma_entries_wanted(
            tables_wanted(wanted, tables, n - 1),
            tables[n - 1].entries,
            tables[n - 1].entries.len() as int,
        );
    }
}

/// The objects that modules want are in the order of their keys, each once.
pub proof fn lemma_modules_wanted(modules: Seq<Module>, n: int)
    ensures
        ordered(modules_wanted(modules, n)),
    decreases n,
{
    if n > 0 {
        lemma_modules_wanted(modules, n - 1);
        let m = modules[n - 1];
        lemma_kept(modules_wanted(modules, n - 1), m.key, m.path@, m.key);
        lemma_tables_wanted(
            kept(modules_wanted(modules, n - 1), m.key, m.path@),
            m.tables,
            m.tables.len() as int,
        );
    }
}

/// The objects to pin for modules, in the order of their keys.
pub fn wanted_objects(modules: &Vec<ScannedModule>) -> (wanted: Vec<(ObjectKey, String)>)
    ensures
        path_texts(wanted@) == modules_wanted(module_views(modules@), modules@.len() as int),
        ordered(path_texts(wanted@)),
        wants_exactly(wanted@, modules@),
{
    let mut wanted: Vec<(ObjectKey, String)> = Vec::new();
    let ghost views = module_views(modules@);
    assert(path_texts(wanted@) =~= Seq::<(ObjectKey, Text)>::empty());
    let mut i: usize = 0;
    while i < modules.len()
        invariant
            i <= modules@.len(),
            views == module_views(modules@),
            path_texts(wanted@) == modules_wanted(views, i as int),
        decreases modules@.len() - i,
    {
        let module = &modules[i];
        let ghost view = views[i as int];
        assert(view == module@);
        want(&mut wanted, module.key, module.path.as_str());
        let ghost start = path_texts(wanted@);
        let mut t: usize = 0;
        while t < module.tables.len()
            invariant
                t <= module.tables@.len(),
                view == module@,
                path_texts(wanted@) == tables_wanted(start, view.tables, t as int),
            decreases module.tables@.len() - t,
        {
            let table = &module.tables[t];
            assert(view.tables[t as int] == table@);
            let ghost before = path_texts(wanted@);
            let mut e: usize = 0;
            while e < table.entries.len()
                invariant
                    e <= table.entries@.len(),
                    path_texts(wanted@) == entries_wanted(before, table.entries@, e as int),
                decreases table.entries@.len() - e,
            {
                let entry = &table.entries[e];
                want(&mut wanted, entry.object, entry.object_path.as_str());
                e += 1;
            }
            t += 1;
        }
        i += 1;
    }
    proof {
        lemma_modules_wanted(views, modules@.len() as int);
        lemma_wants_exactly(wanted@, modules@);
    }
    wanted
}

/// Why an object that was opened is not the one that a mapping named.
pub open spec fn mismatch_text(key: ObjectKey, path: Text, seen: IdentityText) -> Text {
    "identity_mismatch: the mapping is "@ + key.text() + " but "@ + path + " now opens as "@
        + seen.key.text() + " (compared via "@ + seen.source.name() + ")"@
}

/// Why an object is too large to pin.
pub open spec fn too_large_text(size: u64, limits: ScanLimits, total: u64) -> Text {
    "too_large ("@ + digits(size as nat) + " bytes; caps are "@ + digits(
        limits.per_object_bytes as nat,
    ) + " per object and "@ + digits(limits.total_bytes as nat) + " per capture, "@ + digits(
        total as nat,
    ) + " already pinned)"@
}

/// Whether an object fits what is left of the limits.
pub open spec fn fits(size: u64, limits: ScanLimits, total: u64) -> bool {
    &&& total + size <= u64::MAX
    &&& size <= limits.per_object_bytes
    &&& total + size <= limits.total_bytes
}

/// Tells whether an object that was opened is the one that a mapping named.
pub fn confirm_object(key: ObjectKey, path: &str, seen: &FoundIdentity) -> (r: Result<(), String>)
    ensures
        if seen.source.agrees(seen.key, key) {
            r is Ok
        } else {
            r matches Err(message) && message@ == mismatch_text(key, path@, seen@)
        },
{
    if seen.source.confirms(seen.key, key) {
        return Ok(());
    }
    let mut message = "identity_mismatch: the mapping is ".to_owned();
    message.append(key.render().as_str());
    message.append(" but ");
    message.append(path);
    message.append(" now opens as ");
    message.append(seen.key.render().as_str());
    message.append(" (compared via ");
    message.append(seen.source.label());
    message.append(")");
    Err(message)
}

/// The pins that a capture takes for what a scan found: how many bytes were read for them, the
/// objects pinned so far, and what was left out.
#[derive(Debug)]
pub struct ScanPins {
    pub pid: u32,
    pub limits: ScanLimits,
    pub total_bytes: u64,
    pub pinned: PinnedObjects,
    pub skipped: Vec<Skipped>,
}

/// The path of an object in the target's own view of the file system.
pub open spec fn rooted_path(pid: u32, path: Text) -> Text {
    "/proc/"@ + digits(pid as nat) + "/root"@ + path
}

/// Why a scan's pins cannot be relied on: the target is gone.
pub open spec fn exited_text(pid: u32) -> Text {
    "pid "@ + digits(pid as nat) + " exited during discovery"@
}

impl ScanPins {
    /// Nothing pinned yet.
    pub fn new(pid: u32, limits: ScanLimits) -> (r: Self)
        ensures
            r.pid == pid,
            r.limits == limits,
            r.total_bytes == 0,
            r.pinned.by_key@ == Seq::<(ObjectKey, Entry)>::empty(),
            !r.pinned.changed,
            r.pinned.well_formed(),
            skip_texts(r.skipped@) == Seq::<(Text, Text)>::empty(),
    {
        let r = ScanPins {
            pid,
            limits,
            total_bytes: 0,
            pinned: PinnedObjects::empty(),
            skipped: Vec::new(),
        };
        assert(skip_texts(r.skipped@) =~= Seq::<(Text, Text)>::empty());
        r
    }

    /// The path under which an object is opened.
    pub fn path_in_target(&self, path: &str) -> (r: String)
        ensures
            r@ == rooted_path(self.pid, path@),
    {
        let mut out = "/proc/".to_owned();
        out.append(decimal(self.pid as u64).as_str());
        out.append("/root");
        out.append(path);
        out
    }

    /// Sets bytes aside for an object before it is read. One that does not fit is refused, and
    /// nothing is set aside for it.
    pub fn reserve(&mut self, before: Pin) -> (r: Result<(), String>)
        ensures
            final(self).pid == old(self).pid,
            final(self).limits == old(self).limits,
            final(self).pinned == old(self).pinned,
            final(self).skipped == old(self).skipped,
            if fits(before.size, old(self).limits, old(self).total_bytes) {
                r is Ok && final(self).total_bytes == old(self).total_bytes + before.size
            } else {
                final(self).total_bytes == old(self).total_bytes && (r matches Err(message)
                    && message@ == too_large_text(
                    before.size,
                    old(self).limits,
                    old(self).total_bytes,
                ))
            },
    {
        let limits = self.limits;
        if let Some(running) = self.total_bytes.checked_add(before.size) {
            if before.size <= limits.per_object_bytes && running <= limits.total_bytes {
                self.total_bytes = running;
                return Ok(());
            }
        }
        let mut message = "too_large (".to_owned();
        message.append(decimal(before.size).as_str());
        message.append(" bytes; caps are ");
        message.append(decimal(limits.per_object_bytes).as_str());
        message.append(" per object and ");
        message.append(decimal(limits.total_bytes).as_str());
        message.append(" per capture, ");
        message.append(decimal(self.total_bytes).as_str());
        message.append(" already pinned)");
        Err(message)
    }

    /// Takes in what became of one object: it is pinned, or left out with the reason.
    pub fn settle(&mut self, key: ObjectKey, path: &str, outcome: Result<Entry, String>)
        ensures
            final(self).pid == old(self).pid,
            final(self).limits == old(self).limits,
            final(self).total_bytes == old(self).total_bytes,
            final(self).pinned.changed == old(self).pinned.changed,
            match outcome {
                Ok(entry) => final(self).pinned.by_key@ == put(
                    old(self).pinned.by_key@,
                    key,
                    entry,
                ) && final(self).skipped == old(self).skipped,
                Err(reason) => final(self).pinned == old(self).pinned && skip_texts(
                    final(self).skipped@,
                ) == skip_texts(old(self).skipped@).push((path@, reason@)),
            },
            old(self).pinned.well_formed() ==> final(self).pinned.well_formed(),
    {
        match outcome {
            Ok(entry) => {
                proof {
                    if self.pinned.well_formed() {
                        lemma_put(self.pinned.by_key@, key, entry, key);
                    }
                }
                replace(&mut self.pinned.by_key, key, entry);
            },
            Err(reason) => {
                push_skip(&mut self.skipped, path.to_owned(), reason);
            },
        }
    }

    /// The message that the target is gone.
    pub fn exited(&self) -> (r: String)
        ensures
            r@ == exited_text(self.pid),
    {
        concat3("pid ", decimal(self.pid as u64).as_str(), " exited during discovery")
    }

    /// Hands the pins over, where the target is still the same process.
    pub fn finish(self, still_the_same: bool) -> (r: Result<
        (PinnedObjects, Vec<Skipped>),
        String,
    >)
        ensures
            if still_the_same {
                r == Ok::<(PinnedObjects, Vec<Skipped>), String>((self.pinned, self.skipped))
            } else {
                r matches Err(message) && message@ == exited_text(self.pid)
            },
    {
        if still_the_same {
            Ok((self.pinned, self.skipped))
        } else {
            Err(self.exited())
        }
    }
}

/// What was seen of one object once its bytes were read.
#[derive(Debug)]
pub enum Inspecting {
    /// The object could not be identified.
    Failed(String),
    /// The identity of the object, the executable parts of the file, and its pin after that, or why
    /// the pin could not be read.
    Seen(Inspected, Result<Pin, String>),
}

/// A part of a file that is mapped as code.
#[derive(Clone, Copy, Debug, PartialEq, Eq, Structural)]
pub struct Segment {
    pub file_offset: u64,
    pub size: u64,
}

/// What an inspection of a file gives: its identity, and the parts that are mapped as code.
#[derive(Debug)]
pub struct Inspected {
    pub identity: ObjectIdentity,
    pub executable: Vec<Segment>,
}

/// The identity that an object keeps once its bytes were read, or why it is left out: a write that
/// lands while the bytes are read must not become what the capture relies on.
pub open spec fn settled_identity(
    before: Pin,
    inspecting: Inspecting,
) -> Result<ObjectIdentity, Text> {
    match inspecting {
        Inspecting::Failed(error) => Err(error@),
        Inspecting::Seen(inspected, Err(error)) => Err(error@),
        Inspecting::Seen(inspected, Ok(after)) => if after != before {
            Err("file changed while it was being identified — retry"@)
        } else {
            Ok(inspected.identity)
        },
    }
}

/// Makes the entry of an object whose bytes were read.
pub fn settle_object(
    fd: i32,
    path: &str,
    before: Pin,
    seen: FoundIdentity,
    inspecting: Inspecting,
    overlay: &Result<bool, String>,
) -> (r: Result<Entry, String>)
    ensures
        match settled_identity(before, inspecting) {
            Err(message) => r matches Err(given) && given@ == message,
            Ok(identity) => match *overlay {
                Err(message) => r matches Err(given) && given@ == message@,
                Ok(overlay) => r matches Ok(entry) && entry@
                    == entry_of(
                    fd,
                    before,
                    path@,
                    identity,
                    seen@,
                    overlay,
                ),
            },
        },
{
    match inspecting {
        Inspecting::Failed(error) => Err(error),
        Inspecting::Seen(inspected, after) => match after {
            Err(error) => Err(error),
            Ok(after) => {
                if after != before {
                    return Err(
                        "file changed while it was being identified — retry".to_owned(),
                    );
                }
                Entry::new(fd, before, path, &inspected.identity, seen, overlay)
            },
        },
    }
}

} // verus!
