//! The objects that a capture holds open.

use crate::discovery::identity::keyed::{
    find_slot, found, has_at, keep, kept, lemma_found, lemma_kept, lemma_not_found, lemma_slot,
    ordered, slot, stands_at,
};
use crate::discovery::identity::laws::lemma_unchanged_is_every_pin;
use crate::maps::{Device, ObjectKey};
use crate::text::{concat3, signed_decimal, signed_digits, Text};
use vstd::prelude::*;
use vstd::string::*;

verus! {

/// What tells a change of a file: its inode, its size and the time of its last change.
#[derive(Clone, Copy, Debug, PartialEq, Eq, PartialOrd, Ord, Structural)]
pub struct Pin {
    pub ino: u64,
    pub size: u64,
    pub ctime: i64,
    pub ctime_nsec: i64,
}

/// How the device and inode of an open file were determined, and so how much of them can be
/// compared with a mapping.
#[derive(Clone, Copy, Debug, PartialEq, Eq, Structural)]
pub enum IdentitySource {
    /// The mount table named the device: the whole key can be compared.
    Mountinfo,
    /// The mount table did not, and the device of the file's own status is not the one that a
    /// mapping shows: only the inode can be compared.
    Stat,
}

impl IdentitySource {
    /// The name of the source.
    pub open spec fn name(self) -> Text {
        match self {
            IdentitySource::Mountinfo => "mountinfo"@,
            IdentitySource::Stat => "stat"@,
        }
    }

    /// Whether an open file is the object that a mapping named.
    pub open spec fn agrees(self, seen: ObjectKey, expected: ObjectKey) -> bool {
        seen.inode == expected.inode && (self == IdentitySource::Stat || seen.device
            == expected.device)
    }

    /// The name of the source.
    pub fn label(self) -> (r: &'static str)
        ensures
            r@ == self.name(),
    {
        match self {
            IdentitySource::Mountinfo => "mountinfo",
            IdentitySource::Stat => "stat",
        }
    }

    /// Tells whether an open file is the object that a mapping named.
    pub fn confirms(self, seen: ObjectKey, expected: ObjectKey) -> (r: bool)
        ensures
            r == self.agrees(seen, expected),
    {
        seen.inode == expected.inode && match self {
            IdentitySource::Mountinfo => seen.device == expected.device,
            IdentitySource::Stat => true,
        }
    }
}

/// The identity of an open file, how it was determined, and why the mount table was no help, where
/// it was none.
#[derive(Clone, Debug)]
pub struct FoundIdentity {
    pub key: ObjectKey,
    pub source: IdentitySource,
    pub note: Option<String>,
}

/// Takes the major number out of a device number, by `libc::major`, which picks bits 8 to 19 and,
/// above them, bits 44 to 63.
#[verifier::external_body]
fn device_major(dev: u64) -> (r: u32)
    ensures
        r == ((dev & 0x0000_0000_000f_ff00u64) >> 8u64) | ((dev & 0xffff_f000_0000_0000u64)
            >> 32u64),
{
    libc::major(dev)
}

/// Takes the minor number out of a device number, by `libc::minor`, which picks bits 0 to 7 and,
/// above them, bits 20 to 43.
#[verifier::external_body]
fn device_minor(dev: u64) -> (r: u32)
    ensures
        r == (dev & 0x0000_0000_0000_00ffu64) | ((dev & 0x0000_0fff_fff0_0000u64) >> 12u64),
{
    libc::minor(dev)
}

/// The device that a device number stands for.
pub open spec fn device_of(dev: u64) -> Device {
    Device {
        major: ((dev & 0x0000_0000_000f_ff00u64) >> 8u64) | ((dev & 0xffff_f000_0000_0000u64)
            >> 32u64),
        minor: (dev & 0x0000_0000_0000_00ffu64) | ((dev & 0x0000_0fff_fff0_0000u64) >> 12u64),
    }
}

/// What the mount table said of an open file, and what its own status says where that failed.
#[derive(Debug)]
pub enum Located {
    /// The device and inode that the mount table gave.
    Mounted(ObjectKey),
    /// Why the mount table gave nothing, and the device number and inode of the file's own status,
    /// or why that failed too.
    Unmounted(String, Result<(u64, u64), String>),
}

/// The identity of an open file, by characters.
pub struct IdentityText {
    pub key: ObjectKey,
    pub source: IdentitySource,
    pub note: Option<Text>,
}

/// The characters of a string that may be absent.
pub open spec fn maybe_text(s: Option<String>) -> Option<Text> {
    match s {
        Some(given) => Some(given@),
        None => None,
    }
}

impl View for FoundIdentity {
    type V = IdentityText;

    open spec fn view(&self) -> IdentityText {
        IdentityText { key: self.key, source: self.source, note: maybe_text(self.note) }
    }
}

/// The identity of an open file, or why there is none.
pub open spec fn identity_found(located: Located) -> Result<IdentityText, Text> {
    match located {
        Located::Mounted(key) => Ok(
            IdentityText { key, source: IdentitySource::Mountinfo, note: None },
        ),
        Located::Unmounted(why, Err(error)) => Err("fstat failed: "@ + error@),
        Located::Unmounted(why, Ok((dev, ino))) => Ok(
            IdentityText {
                key: ObjectKey { device: device_of(dev), inode: ino },
                source: IdentitySource::Stat,
                note: Some(
                    "mountinfo device unavailable ("@ + why@ + "); inode compared alone"@,
                ),
            },
        ),
    }
}

/// Determines the identity of an open file.
pub fn identity_of(located: &Located) -> (r: Result<FoundIdentity, String>)
    ensures
        match identity_found(*located) {
            Ok(identity) => r matches Ok(given) && given@ == identity,
            Err(message) => r matches Err(given) && given@ == message,
        },
{
    match located {
        Located::Mounted(key) => Ok(
            FoundIdentity { key: *key, source: IdentitySource::Mountinfo, note: None },
        ),
        Located::Unmounted(why, status) => {
            let note = concat3(
                "mountinfo device unavailable (",
                why.as_str(),
                "); inode compared alone",
            );
            match status {
                Err(error) => {
                    let mut message = "fstat failed: ".to_owned();
                    message.append(error.as_str());
                    Err(message)
                },
                Ok((dev, ino)) => Ok(
                    FoundIdentity {
                        key: ObjectKey {
                            device: Device {
                                major: device_major(*dev) as u64,
                                minor: device_minor(*dev) as u64,
                            },
                            inode: *ino,
                        },
                        source: IdentitySource::Stat,
                        note: Some(note),
                    },
                ),
            }
        },
    }
}

/// By what an object is told from another.
#[derive(Clone, Copy, Debug, PartialEq, Eq, Structural)]
pub enum IdentityKind {
    GnuBuildId,
    FileDigest,
    Unavailable,
}

/// The identity that was recorded of an object: by what, its value, a digest of the whole file,
/// whether it can be relied on later, and why not.
#[derive(Clone, Debug)]
pub struct ObjectIdentity {
    pub kind: IdentityKind,
    pub value: Option<String>,
    pub sha256: Option<String>,
    pub reusable: bool,
    pub note: Option<String>,
}

/// An object that the capture holds open.
#[derive(Clone, Debug)]
pub struct Entry {
    /// The descriptor under which the object is open.
    pub fd: i32,
    pub pin: Pin,
    pub path: String,
    pub sha256: String,
    pub build_id: Option<String>,
    pub identity_source: IdentitySource,
    pub note: Option<String>,
    /// Whether the object was opened through overlayfs.
    pub overlay: bool,
}

/// An object held open, by characters.
pub struct EntryText {
    pub fd: i32,
    pub pin: Pin,
    pub path: Text,
    pub sha256: Text,
    pub build_id: Option<Text>,
    pub identity_source: IdentitySource,
    pub note: Option<Text>,
    pub overlay: bool,
}

impl View for Entry {
    type V = EntryText;

    open spec fn view(&self) -> EntryText {
        EntryText {
            fd: self.fd,
            pin: self.pin,
            path: self.path@,
            sha256: self.sha256@,
            build_id: maybe_text(self.build_id),
            identity_source: self.identity_source,
            note: maybe_text(self.note),
            overlay: self.overlay,
        }
    }
}

/// An entry for an object that was opened, pinned and identified.
pub open spec fn entry_of(
    fd: i32,
    pin: Pin,
    path: Text,
    identity: ObjectIdentity,
    seen: IdentityText,
    overlay: bool,
) -> EntryText {
    EntryText {
        fd,
        pin,
        path,
        sha256: match identity.sha256 {
            Some(digest) => digest@,
            None => Seq::empty(),
        },
        build_id: if identity.kind == IdentityKind::GnuBuildId {
            maybe_text(identity.value)
        } else {
            None
        },
        identity_source: seen.source,
        note: seen.note,
        overlay,
    }
}

impl Entry {
    /// Makes an entry for an object that was opened, pinned and identified. Whether it was opened
    /// through overlayfs must be known.
    pub fn new(
        fd: i32,
        pin: Pin,
        path: &str,
        identity: &ObjectIdentity,
        seen: FoundIdentity,
        overlay: &Result<bool, String>,
    ) -> (r: Result<Entry, String>)
        ensures
            match *overlay {
                Ok(overlay) => r matches Ok(entry) && entry@ == entry_of(
                    fd,
                    pin,
                    path@,
                    *identity,
                    seen@,
                    overlay,
                ),
                Err(message) => r matches Err(given) && given@ == message@,
            },
    {
        let overlay: bool = match overlay {
            Ok(overlay) => *overlay,
            Err(message) => return Err(message.clone()),
        };
        let sha256 = match &identity.sha256 {
            Some(digest) => digest.clone(),
            None => String::new(),
        };
        assert(identity.sha256 is None ==> sha256@ =~= Seq::<char>::empty());
        let mut build_id: Option<String> = None;
        if identity.kind == IdentityKind::GnuBuildId {
            if let Some(value) = &identity.value {
                build_id = Some(value.clone());
            }
        }
        Ok(
            Entry {
                fd,
                pin,
                path: path.to_owned(),
                sha256,
                build_id,
                identity_source: seen.source,
                note: seen.note,
                overlay,
            },
        )
    }
}

/// What a pinned object is, for the report.
#[derive(Clone, Copy, Debug)]
pub struct PinnedSummary<'a> {
    pub key: ObjectKey,
    /// Of an object that a scan found, the path in the target's own view, which the observer
    /// cannot open.
    pub path: &'a str,
    pub sha256: &'a str,
    pub build_id: Option<&'a str>,
    /// How the identity was confirmed.
    pub identity_source: &'static str,
    /// Why the identity was confirmed by the file's own status.
    pub note: Option<&'a str>,
}

/// Whether two strings that may be absent have the same characters.
pub open spec fn same_maybe(a: Option<&str>, b: Option<String>) -> bool {
    match (a, b) {
        (Some(x), Some(y)) => x@ == y@,
        (None, None) => true,
        _ => false,
    }
}

/// Whether a summary says what an entry is.
pub open spec fn sums_up(summary: PinnedSummary, listed: (ObjectKey, Entry)) -> bool {
    &&& summary.key == listed.0
    &&& summary.path@ == listed.1.path@
    &&& summary.sha256@ == listed.1.sha256@
    &&& same_maybe(summary.build_id, listed.1.build_id)
    &&& summary.identity_source@ == listed.1.identity_source.name()
    &&& same_maybe(summary.note, listed.1.note)
}

/// A string that may be absent, borrowed.
fn borrowed(s: &Option<String>) -> (r: Option<&str>)
    ensures
        same_maybe(r, *s),
{
    match s {
        Some(given) => Some(given.as_str()),
        None => None,
    }
}

/// The path under which an open descriptor can be opened again.
pub open spec fn descriptor_path(fd: i32) -> Text {
    "/proc/self/fd/"@ + signed_digits(fd as int)
}

/// Every object that the capture opened, identified and pinned, by the key that a mapping of it
/// shows; and whether one of them was seen to change.
#[derive(Debug)]
pub struct PinnedObjects {
    pub by_key: Vec<(ObjectKey, Entry)>,
    pub changed: bool,
}

/// One set with another folded in up to `n` of its entries; what was there first stays.
pub open spec fn absorbed(
    list: Seq<(ObjectKey, Entry)>,
    other: Seq<(ObjectKey, Entry)>,
    n: int,
) -> Seq<(ObjectKey, Entry)>
    decreases n,
{
    if n <= 0 {
        list
    } else {
        kept(absorbed(list, other, n - 1), other[n - 1].0, other[n - 1].1)
    }
}

/// What the pins as they are now say, from entry `i` on: the first that cannot be read or that
/// differs decides.
pub open spec fn unchanged_from(
    list: Seq<(ObjectKey, Entry)>,
    seen: Seq<Result<Pin, String>>,
    i: int,
) -> Result<bool, Text>
    decreases list.len() - i,
{
    if i < 0 || i >= list.len() {
        Ok(true)
    } else {
        match seen[i] {
            Err(error) => Err(list[i].1.path@ + ": "@ + error@),
            Ok(pin) => if pin != list[i].1.pin {
                Ok(false)
            } else {
                unchanged_from(list, seen, i + 1)
            },
        }
    }
}

/// Folding in another set keeps the order; a key of the first set keeps its object, and any other
/// key has that of the second.
pub proof fn lemma_absorbed(
    list: Seq<(ObjectKey, Entry)>,
    other: Seq<(ObjectKey, Entry)>,
    n: int,
    key: ObjectKey,
)
    requires
        ordered(list),
        ordered(other),
        0 <= n <= other.len(),
    ensures
        ordered(absorbed(list, other, n)),
        found(absorbed(list, other, n), key) == match found(list, key) {
            Some(entry) => Some(entry),
            None => found(other.take(n), key),
        },
    decreases n,
{
    if n > 0 {
        let k = other[n - 1].0;
        let before = other.take(n - 1);
        let now = other.take(n);
        assert forall|i: int, j: int| 0 <= i < j < now.len() implies (#[trigger] now[i]).0.before(
            (#[trigger] now[j]).0,
        ) by {
            assert(now[i] == other[i] && now[j] == other[j]);
        }
        lemma_absorbed(list, other, n - 1, key);
        lemma_absorbed(list, other, n - 1, k);
        lemma_kept(absorbed(list, other, n - 1), k, other[n - 1].1, key);
        assert(stands_at(now, n - 1, k));
        lemma_found(now, k, n - 1);
        assert forall|i: int| 0 <= i < before.len() implies (#[trigger] before[i]).0 != k by {
            assert(before[i] == other[i]);
        }
        lemma_not_found(before, k);
        if key != k {
            assert(ordered(before)) by {
                assert forall|i: int, j: int| 0 <= i < j < before.len() implies (
                #[trigger] before[i]).0.before((#[trigger] before[j]).0) by {
                    assert(before[i] == other[i] && before[j] == other[j]);
                }
            }
            lemma_slot(before, key, 0);
            let s = slot(before, key, 0);
            if stands_at(before, s, key) {
                assert(now[s] == before[s]);
                lemma_found(now, key, s);
            } else {
                assert forall|i: int| 0 <= i < now.len() implies (#[trigger] now[i]).0 != key by {
                    if i < n - 1 {
                        assert(now[i] == before[i]);
                        if before[i].0 == key {
                            lemma_found(before, key, i);
                        }
                    }
                }
                lemma_not_found(now, key);
            }
        }
    } else {
        lemma_not_found(other.take(n), key);
    }
}

impl PinnedObjects {
    /// Whether the objects are in the order of their keys, each once.
    pub open spec fn well_formed(&self) -> bool {
        ordered(self.by_key@)
    }

    /// A set without objects.
    pub fn empty() -> (r: Self)
        ensures
            r.by_key@ == Seq::<(ObjectKey, Entry)>::empty(),
            !r.changed,
            r.well_formed(),
    {
        PinnedObjects { by_key: Vec::new(), changed: false }
    }

    /// Folds another set into this one. This set wins a key that both have: a scan opens objects
    /// through the target's own view, which is the file that a probe attaches to.
    pub fn absorb(&mut self, other: PinnedObjects)
        ensures
            final(self).by_key@ == absorbed(
                old(self).by_key@,
                other.by_key@,
                other.by_key@.len() as int,
            ),
            final(self).changed == (old(self).changed || other.changed),
            old(self).well_formed() && other.well_formed() ==> final(self).well_formed(),
    {
        let mut rest = other.by_key;
        let ghost all = rest@;
        let ghost mut n: int = 0;
        assert(all.skip(0) =~= all);
        while rest.len() > 0
            invariant
                0 <= n <= all.len(),
                rest@ == all.skip(n),
                self.changed == old(self).changed,
                self.by_key@ == absorbed(old(self).by_key@, all, n),
            decreases rest@.len(),
        {
            let (key, entry) = rest.remove(0);
            assert(all.skip(n)[0] == all[n]);
            keep(&mut self.by_key, key, entry);
            proof {
                n = n + 1;
            }
            assert(rest@ =~= all.skip(n));
        }
        assert(n == all.len());
        if other.changed {
            self.changed = true;
        }
        proof {
            if old(self).well_formed() && ordered(all) {
                lemma_absorbed(
                    old(self).by_key@,
                    all,
                    all.len() as int,
                    ObjectKey { device: Device { major: 0, minor: 0 }, inode: 0 },
                );
            }
        }
    }

    /// The path under which a probe opens an object again: the descriptor that this capture holds,
    /// never a name.
    pub fn attach_path_for(&self, key: ObjectKey) -> (r: Result<String, String>)
        ensures
            match found(self.by_key@, key) {
                Some(entry) => r matches Ok(path) && path@ == descriptor_path(entry.fd),
                None => r matches Err(message) && message@ == "object "@ + key.text()
                    + " was not pinned"@,
            },
    {
        let i: usize = find_slot(&self.by_key, &key);
        if has_at(&self.by_key, i, &key) {
            let mut path = "/proc/self/fd/".to_owned();
            path.append(signed_decimal(self.by_key[i].1.fd as i64).as_str());
            Ok(path)
        } else {
            Err(concat3("object ", key.render().as_str(), " was not pinned"))
        }
    }

    /// Every pinned object, in the order of the keys.
    pub fn pinned(&self) -> (list: Vec<PinnedSummary<'_>>)
        ensures
            list@.len() == self.by_key@.len(),
            forall|i: int|
                0 <= i < list@.len() ==> sums_up(#[trigger] list@[i], self.by_key@[i]),
    {
        let mut list: Vec<PinnedSummary<'_>> = Vec::new();
        let mut i: usize = 0;
        while i < self.by_key.len()
            invariant
                i <= self.by_key@.len(),
                list@.len() == i,
                forall|j: int| 0 <= j < i ==> sums_up(#[trigger] list@[j], self.by_key@[j]),
            decreases self.by_key@.len() - i,
        {
            let listed = &self.by_key[i];
            list.push(
                PinnedSummary {
                    key: listed.0,
                    path: listed.1.path.as_str(),
                    sha256: listed.1.sha256.as_str(),
                    build_id: borrowed(&listed.1.build_id),
                    identity_source: listed.1.identity_source.label(),
                    note: borrowed(&listed.1.note),
                },
            );
            i += 1;
        }
        list
    }

    /// Compares every pin with what it is now. A change that was seen once is never forgotten: from
    /// then on nothing is compared. A pin that cannot be read is an error.
    pub fn check_unchanged(&mut self, seen: &Vec<Result<Pin, String>>) -> (r: Result<bool, String>)
        requires
            old(self).changed || seen@.len() == old(self).by_key@.len(),
        ensures
            final(self).by_key@ == old(self).by_key@,
            old(self).changed ==> r == Ok::<bool, String>(false) && final(self).changed,
            !old(self).changed ==> match unchanged_from(old(self).by_key@, seen@, 0) {
                Ok(unchanged) => r == Ok::<bool, String>(unchanged) && final(self).changed
                    == !unchanged,
                Err(message) => (r matches Err(given) && given@ == message)
                    && !final(self).changed,
            },
            r == Ok::<bool, String>(true) ==> !old(self).changed && forall|i: int|
                0 <= i < old(self).by_key@.len() ==> #[trigger] seen@[i] == Ok::<Pin, String>(
                    old(self).by_key@[i].1.pin,
                ),
    {
        if self.changed {
            return Ok(false);
        }
        proof {
            lemma_unchanged_is_every_pin(self.by_key@, seen@, 0);
        }
        let mut i: usize = 0;
        while i < self.by_key.len()
            invariant
                i <= self.by_key@.len(),
                *self == *old(self),
                !self.changed,
                seen@.len() == self.by_key@.len(),
                unchanged_from(self.by_key@, seen@, i as int) == unchanged_from(
                    self.by_key@,
                    seen@,
                    0,
                ),
            decreases self.by_key@.len() - i,
        {
            match &seen[i] {
                Err(error) => {
                    return Err(concat3(self.by_key[i].1.path.as_str(), ": ", error.as_str()));
                },
                Ok(pin) => {
                    if *pin != self.by_key[i].1.pin {
                        self.changed = true;
                        return Ok(false);
                    }
                },
            }
            i += 1;
        }
        Ok(true)
    }

    /// Whether a pinned object was seen to change.
    pub fn provider_changed(&self) -> (r: bool)
        ensures
            r == self.changed,
    {
        self.changed
    }
}

} // verus!
