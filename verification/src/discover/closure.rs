//! The closure of a discovery: every file that the helper mapped as code, each held so that a change
//! of it is noticed.

use crate::discovery::identity::keyed::{find_slot, found, has_at, lemma_put, ordered, put, replace};
use crate::discovery::identity::manifest::{same_object, same_text};
use crate::discovery::identity::pinned::ObjectIdentity;
use crate::maps::{
    executable_file_keys, executable_keys, lists_key, mappings, maps_from, parse_maps, same_keys,
    ObjectKey,
};
use crate::text::{concat3, decimal, digits, same, Text};
use vstd::prelude::*;
use vstd::string::*;
use vstd::utf8::*;

verus! {

/// A file that a discovery reported: its path, what a mapping of it shows, and its identity.
#[derive(Clone, Debug)]
pub struct ProvenanceObject {
    pub path: String,
    pub key: ObjectKey,
    pub identity: ObjectIdentity,
}

/// Whether two identities are the same, including whether they can be relied on.
pub open spec fn identical(a: ObjectIdentity, b: ObjectIdentity) -> bool {
    same_object(a, b) && a.reusable == b.reusable
}

/// Tells whether two strings that may be absent have the same characters.
fn are_same(a: &Option<String>, b: &Option<String>) -> (r: bool)
    ensures
        r == same_text(*a, *b),
{
    match (a, b) {
        (Some(x), Some(y)) => same(x.as_str(), y.as_str()),
        (None, None) => true,
        _ => false,
    }
}

/// Tells whether two identities are the same.
pub fn same_identity(a: &ObjectIdentity, b: &ObjectIdentity) -> (r: bool)
    ensures
        r == identical(*a, *b),
{
    a.kind == b.kind && are_same(&a.value, &b.value) && are_same(&a.sha256, &b.sha256)
        && a.reusable == b.reusable
}

/// Whether an identity can be relied on by the digest of the whole file: sixty-four bytes of it.
pub open spec fn has_digest(identity: ObjectIdentity) -> bool {
    identity.reusable && (identity.sha256 matches Some(digest) && encode_utf8(digest@).len() == 64)
}

/// Tells whether an identity can be relied on by the digest of the whole file.
pub fn is_digested(identity: &ObjectIdentity) -> (r: bool)
    ensures
        r == has_digest(*identity),
{
    identity.reusable && match &identity.sha256 {
        Some(digest) => digest.as_str().as_bytes().len() == 64,
        None => false,
    }
}

/// Whether a path starts at the root.
pub open spec fn is_absolute(path: Text) -> bool {
    path.len() > 0 && path[0] == '/'
}

/// Tells whether a path starts at the root.
pub fn starts_at_root(path: &str) -> (r: bool)
    ensures
        r == is_absolute(path@),
{
    path.unicode_len() > 0 && path.get_char(0) == '/'
}

/// Refuses a module that is not named from the root.
pub fn check_provenance_module(module: &str) -> (r: Result<(), String>)
    ensures
        if is_absolute(module@) {
            r is Ok
        } else {
            r matches Err(message) && message@ == "--provenance-module must be an absolute path"@
        },
{
    if starts_at_root(module) {
        Ok(())
    } else {
        Err("--provenance-module must be an absolute path".to_owned())
    }
}

/// The keys of the first `n` files.
pub open spec fn keys_of(objects: Seq<ProvenanceObject>, n: int) -> Seq<ObjectKey> {
    Seq::new(n as nat, |i: int| objects[i].key)
}

/// Why one file of a closure is refused.
pub open spec fn object_fault(objects: Seq<ProvenanceObject>, i: int) -> Option<Text> {
    let object = objects[i];
    if !is_absolute(object.path@) || object.key.inode == 0 {
        Some("discovery pass reported an invalid provenance object"@)
    } else if !has_digest(object.identity) {
        Some(
            "discovery pass provenance object "@ + object.path@
                + " has no reusable whole-file SHA-256"@,
        )
    } else if keys_of(objects, i).contains(object.key) {
        Some("discovery pass reported a duplicate provenance device/inode"@)
    } else {
        None
    }
}

/// The first fault among the first `n` files.
pub open spec fn objects_fault(objects: Seq<ProvenanceObject>, n: int) -> Option<Text>
    decreases n,
{
    if n <= 0 {
        None
    } else {
        match objects_fault(objects, n - 1) {
            Some(message) => Some(message),
            None => object_fault(objects, n - 1),
        }
    }
}

/// Why a closure is refused.
pub open spec fn closure_fault(objects: Seq<ProvenanceObject>, max_objects: nat) -> Option<Text> {
    if objects.len() == 0 || objects.len() > max_objects {
        Some(
            "discovery pass reported "@ + digits(objects.len())
                + " provenance objects; expected 1..="@ + digits(max_objects),
        )
    } else {
        objects_fault(objects, objects.len() as int)
    }
}

/// The first fault stays the first.
proof fn lemma_objects_fault_stays(objects: Seq<ProvenanceObject>, n: int, m: int)
    requires
        n <= m,
        objects_fault(objects, n) is Some,
    ensures
        objects_fault(objects, m) == objects_fault(objects, n),
    decreases m - n,
{
    if n < m {
        lemma_objects_fault_stays(objects, n, m - 1);
    }
}

/// The keys of the files of a closure, each once, in the order in which they were reported.
pub fn closure_keys(objects: &Vec<ProvenanceObject>, max_objects: usize) -> (r: Result<
    Vec<ObjectKey>,
    String,
>)
    ensures
        match closure_fault(objects@, max_objects as nat) {
            None => r matches Ok(keys) && keys@ == keys_of(objects@, objects@.len() as int),
            Some(message) => r matches Err(given) && given@ == message,
        },
{
    if objects.len() == 0 || objects.len() > max_objects {
        let mut message = concat3(
            "discovery pass reported ",
            decimal(objects.len() as u64).as_str(),
            " provenance objects; expected 1..=",
        );
        message.append(decimal(max_objects as u64).as_str());
        return Err(message);
    }
    let mut keys: Vec<ObjectKey> = Vec::new();
    let mut i: usize = 0;
    assert(keys@ =~= keys_of(objects@, 0));
    while i < objects.len()
        invariant
            i <= objects@.len(),
            objects@.len() > 0,
            objects@.len() <= max_objects,
            objects_fault(objects@, i as int) is None,
            keys@ == keys_of(objects@, i as int),
        decreases objects@.len() - i,
    {
        let object = &objects[i];
        proof {
            if object_fault(objects@, i as int) is Some {
                lemma_objects_fault_stays(objects@, i + 1, objects@.len() as int);
            }
        }
        if !starts_at_root(object.path.as_str()) || object.key.inode == 0 {
            return Err("discovery pass reported an invalid provenance object".to_owned());
        }
        if !is_digested(&object.identity) {
            return Err(
                concat3(
                    "discovery pass provenance object ",
                    object.path.as_str(),
                    " has no reusable whole-file SHA-256",
                ),
            );
        }
        if lists_key(&keys, &object.key) {
            return Err("discovery pass reported a duplicate provenance device/inode".to_owned());
        }
        keys.push(object.key);
        i += 1;
        assert(keys@ =~= keys_of(objects@, i as int));
    }
    Ok(keys)
}

/// Checks a file that is to be held: its path, and the identity that it has now.
pub fn check_provenance_path(path: &str) -> (r: Result<(), String>)
    ensures
        if is_absolute(path@) {
            r is Ok
        } else {
            r matches Err(message) && message@ == "provenance object path must be absolute: "@
                + path@
        },
{
    if starts_at_root(path) {
        return Ok(());
    }
    let mut message = "provenance object path must be absolute: ".to_owned();
    message.append(path);
    Err(message)
}

/// Checks the identity of a file that is to be held.
pub fn check_provenance_identity(path: &str, identity: &ObjectIdentity) -> (r: Result<(), String>)
    ensures
        if has_digest(*identity) {
            r is Ok
        } else {
            r matches Err(message) && message@ == "provenance object "@ + path@
                + " has no reusable whole-file SHA-256"@
        },
{
    if is_digested(identity) {
        return Ok(());
    }
    Err(concat3("provenance object ", path, " has no reusable whole-file SHA-256"))
}

/// How the key of a mapped file is written in a message.
pub open spec fn mapping_key_text(key: ObjectKey) -> Text {
    "MappingFileKey { device_major: "@ + digits(key.device.major as nat) + ", device_minor: "@
        + digits(key.device.minor as nat) + ", inode: "@ + digits(key.inode as nat) + " }"@
}

/// Writes the key of a mapped file for a message.
fn render_mapping_key(key: &ObjectKey) -> (r: String)
    ensures
        r@ == mapping_key_text(*key),
{
    let mut out = "MappingFileKey { device_major: ".to_owned();
    out.append(decimal(key.device.major).as_str());
    out.append(", device_minor: ");
    out.append(decimal(key.device.minor).as_str());
    out.append(", inode: ");
    out.append(decimal(key.inode).as_str());
    out.append(" }");
    out
}

/// The files that a discovery holds: those of the closure with the identity that they were found
/// with, the keys of those that only influence it, the module that it is about, and how many bytes
/// they all have.
#[derive(Debug)]
pub struct ClosureLeases {
    pub objects: Vec<(ObjectKey, ObjectIdentity)>,
    pub influences: Vec<ObjectKey>,
    pub seed: ObjectKey,
    pub total_bytes: u64,
    pub max_objects: usize,
    pub max_bytes: u64,
}

/// Why a file with so many bytes cannot be held too. `what` names the closure.
pub open spec fn bytes_fault(total: u64, len: u64, limit: u64, what: Text) -> Option<Text> {
    if total + len > u64::MAX {
        Some(what + " closure size overflowed u64"@)
    } else if total + len > limit {
        Some(what + " closure totals more than the "@ + digits(limit as nat) + "-byte limit"@)
    } else {
        None
    }
}

/// Counts the bytes of one more file.
fn count_bytes(total: u64, len: u64, limit: u64, what: &str) -> (r: Result<u64, String>)
    ensures
        match bytes_fault(total, len, limit, what@) {
            None => r matches Ok(sum) && sum == total + len,
            Some(message) => r matches Err(given) && given@ == message,
        },
{
    match total.checked_add(len) {
        None => {
            let mut message = what.to_owned();
            message.append(" closure size overflowed u64");
            Err(message)
        },
        Some(sum) => {
            if sum > limit {
                let mut message = concat3(
                    what,
                    " closure totals more than the ",
                    decimal(limit).as_str(),
                );
                message.append("-byte limit");
                return Err(message);
            }
            Ok(sum)
        },
    }
}

/// Why a file of the closure cannot be held too.
pub open spec fn retain_fault(leases: ClosureLeases, len: u64) -> Option<Text> {
    if leases.objects@.len() >= leases.max_objects {
        Some(
            "provenance closure exceeds the "@ + digits(leases.max_objects as nat)
                + "-object limit"@,
        )
    } else {
        bytes_fault(leases.total_bytes, len, leases.max_bytes, "provenance"@)
    }
}

/// What to do about a file that a discovery reported.
#[derive(Debug)]
pub enum ReportedStep {
    /// It is held already.
    Held,
    /// It is held as an influence: its identity must be read and compared.
    CompareInfluence(usize),
    /// It must be opened and compared.
    Open,
    /// It is not what it was.
    Refused(String),
}

/// The position of the first influence with a key, or the end.
pub open spec fn influence_index(influences: Seq<ObjectKey>, key: ObjectKey, from: int) -> int
    decreases influences.len() - from,
{
    if from < 0 || from >= influences.len() {
        influences.len() as int
    } else if influences[from] == key {
        from
    } else {
        influence_index(influences, key, from + 1)
    }
}

impl ClosureLeases {
    /// Whether the files are in the order of their keys, each once, and keep to the limits.
    pub open spec fn well_formed(&self) -> bool {
        &&& ordered(self.objects@)
        &&& self.objects@.len() <= self.max_objects
        &&& self.total_bytes <= self.max_bytes
    }

    /// Nothing held yet.
    pub fn new(seed: ObjectKey, max_objects: usize, max_bytes: u64) -> (r: Self)
        ensures
            r.objects@ == Seq::<(ObjectKey, ObjectIdentity)>::empty(),
            r.influences@ == Seq::<ObjectKey>::empty(),
            r.seed == seed,
            r.total_bytes == 0,
            r.max_objects == max_objects,
            r.max_bytes == max_bytes,
            r.well_formed(),
    {
        ClosureLeases {
            objects: Vec::new(),
            influences: Vec::new(),
            seed,
            total_bytes: 0,
            max_objects,
            max_bytes,
        }
    }

    /// Tells whether a file of the closure with so many bytes can be held too.
    pub fn check_retain(&self, len: u64) -> (r: Result<(), String>)
        ensures
            match retain_fault(*self, len) {
                None => r is Ok,
                Some(message) => r matches Err(given) && given@ == message,
            },
    {
        if self.objects.len() >= self.max_objects {
            return Err(
                concat3(
                    "provenance closure exceeds the ",
                    decimal(self.max_objects as u64).as_str(),
                    "-object limit",
                ),
            );
        }
        match count_bytes(self.total_bytes, len, self.max_bytes, "provenance") {
            Ok(_) => Ok(()),
            Err(message) => Err(message),
        }
    }

    /// Holds a file of the closure too, once its lease was taken.
    pub fn retain(&mut self, record: ProvenanceObject, len: u64)
        requires
            old(self).well_formed(),
            retain_fault(*old(self), len) is None,
        ensures
            final(self).well_formed(),
            final(self).objects@ == put(old(self).objects@, record.key, record.identity),
            final(self).total_bytes == old(self).total_bytes + len,
            final(self).influences == old(self).influences,
            final(self).seed == old(self).seed,
            final(self).max_objects == old(self).max_objects,
            final(self).max_bytes == old(self).max_bytes,
    {
        proof {
            lemma_put(self.objects@, record.key, record.identity, record.key);
        }
        self.total_bytes = self.total_bytes + len;
        replace(&mut self.objects, record.key, record.identity);
    }

    /// Tells whether an influence with so many bytes can be held too.
    pub fn check_influence(&self, len: u64) -> (r: Result<(), String>)
        ensures
            match bytes_fault(self.total_bytes, len, self.max_bytes, "hardened influence"@) {
                None => r is Ok,
                Some(message) => r matches Err(given) && given@ == message,
            },
    {
        match count_bytes(self.total_bytes, len, self.max_bytes, "hardened influence") {
            Ok(_) => Ok(()),
            Err(message) => Err(message),
        }
    }

    /// Holds an influence too, once its lease was taken.
    pub fn retain_influence(&mut self, key: ObjectKey, len: u64)
        requires
            bytes_fault(
                old(self).total_bytes,
                len,
                old(self).max_bytes,
                "hardened influence"@,
            ) is None,
        ensures
            final(self).influences@ == old(self).influences@.push(key),
            final(self).total_bytes == old(self).total_bytes + len,
            final(self).objects == old(self).objects,
            final(self).seed == old(self).seed,
            final(self).max_objects == old(self).max_objects,
            final(self).max_bytes == old(self).max_bytes,
            old(self).well_formed() ==> final(self).well_formed(),
    {
        self.total_bytes = self.total_bytes + len;
        self.influences.push(key);
    }

    /// Works out what to do about a file that a discovery reported.
    pub fn reported(&self, record: &ProvenanceObject) -> (r: ReportedStep)
        ensures
            match found(self.objects@, record.key) {
                Some(identity) => if identical(identity, record.identity) {
                    r == ReportedStep::Held
                } else {
                    r matches ReportedStep::Refused(message) && message@ == "provenance mapping "@
                        + mapping_key_text(record.key) + " changed whole-file identity between passes"@
                },
                None => {
                    let at = influence_index(self.influences@, record.key, 0);
                    if at < self.influences@.len() {
                        r == ReportedStep::CompareInfluence(at as usize)
                    } else {
                        r == ReportedStep::Open
                    }
                },
            },
    {
        let i: usize = find_slot(&self.objects, &record.key);
        if has_at(&self.objects, i, &record.key) {
            if same_identity(&self.objects[i].1, &record.identity) {
                return ReportedStep::Held;
            }
            return ReportedStep::Refused(
                concat3(
                    "provenance mapping ",
                    render_mapping_key(&record.key).as_str(),
                    " changed whole-file identity between passes",
                ),
            );
        }
        let mut k: usize = 0;
        while k < self.influences.len()
            invariant
                k <= self.influences@.len(),
                influence_index(self.influences@, record.key, k as int) == influence_index(
                    self.influences@,
                    record.key,
                    0,
                ),
                found(self.objects@, record.key) is None,
            decreases self.influences@.len() - k,
        {
            if self.influences[k] == record.key {
                return ReportedStep::CompareInfluence(k);
            }
            k += 1;
        }
        ReportedStep::Open
    }

    /// Compares a reported file with the influence that it is held as.
    pub fn compare_influence(record: &ProvenanceObject, now: &ObjectIdentity) -> (r: Result<
        (),
        String,
    >)
        ensures
            if identical(*now, record.identity) {
                r is Ok
            } else {
                r matches Err(message) && message@ == "provenance mapping "@ + record.path@
                    + " changed whole-file identity between preparation and discovery"@
            },
    {
        if same_identity(now, &record.identity) {
            return Ok(());
        }
        Err(
            concat3(
                "provenance mapping ",
                record.path.as_str(),
                " changed whole-file identity between preparation and discovery",
            ),
        )
    }

    /// Compares a reported file with what its path opens as now.
    pub fn compare_opened(record: &ProvenanceObject, now: &ProvenanceObject) -> (r: Result<
        (),
        String,
    >)
        ensures
            if now.key != record.key {
                r matches Err(message) && message@ == "provenance mapping "@ + record.path@
                    + " changed device/inode before it could be leased"@
            } else if !identical(now.identity, record.identity) {
                r matches Err(message) && message@ == "provenance mapping "@ + record.path@
                    + " changed whole-file identity before it could be leased"@
            } else {
                r is Ok
            },
    {
        if now.key != record.key {
            return Err(
                concat3(
                    "provenance mapping ",
                    record.path.as_str(),
                    " changed device/inode before it could be leased",
                ),
            );
        }
        if !same_identity(&now.identity, &record.identity) {
            return Err(
                concat3(
                    "provenance mapping ",
                    record.path.as_str(),
                    " changed whole-file identity before it could be leased",
                ),
            );
        }
        Ok(())
    }

    /// The keys of the files of the closure.
    pub fn keys(&self) -> (keys: Vec<ObjectKey>)
        ensures
            keys@ == self.objects@.map_values(|o: (ObjectKey, ObjectIdentity)| o.0),
    {
        let mut keys: Vec<ObjectKey> = Vec::new();
        let mut i: usize = 0;
        while i < self.objects.len()
            invariant
                i <= self.objects@.len(),
                keys@.len() == i,
                forall|j: int| 0 <= j < i ==> #[trigger] keys@[j] == self.objects@[j].0,
            decreases self.objects@.len() - i,
        {
            keys.push(self.objects[i].0);
            i += 1;
        }
        assert(keys@ =~= self.objects@.map_values(|o: (ObjectKey, ObjectIdentity)| o.0));
        keys
    }

    /// The keys of every file that is held: those of the closure, and the influences.
    pub fn stabilization_keys(&self) -> (keys: Vec<ObjectKey>)
        ensures
            keys@ == self.objects@.map_values(|o: (ObjectKey, ObjectIdentity)| o.0)
                + self.influences@,
    {
        let mut keys = self.keys();
        let ghost first = keys@;
        let mut i: usize = 0;
        assert(first + self.influences@.take(0) =~= first);
        while i < self.influences.len()
            invariant
                i <= self.influences@.len(),
                keys@ == first + self.influences@.take(i as int),
            decreases self.influences@.len() - i,
        {
            keys.push(self.influences[i]);
            i += 1;
            assert(keys@ =~= first + self.influences@.take(i as int));
        }
        assert(self.influences@.take(i as int) =~= self.influences@);
        keys
    }

    /// Compares the module with what its path opens as now.
    pub fn revalidate_seed(&self, module: &str, now: &ProvenanceObject) -> (r: Result<(), String>)
        ensures
            match found(self.objects@, self.seed) {
                None => r matches Err(message) && message@
                    == "internal error: provenance seed lease is missing"@,
                Some(identity) => if now.key == self.seed && identical(now.identity, identity) {
                    r is Ok
                } else {
                    r matches Err(message) && message@ == "provenance module "@ + module@
                        + " was replaced"@
                },
            },
    {
        let i: usize = find_slot(&self.objects, &self.seed);
        if !has_at(&self.objects, i, &self.seed) {
            return Err("internal error: provenance seed lease is missing".to_owned());
        }
        if now.key != self.seed || !same_identity(&now.identity, &self.objects[i].1) {
            return Err(concat3("provenance module ", module, " was replaced"));
        }
        Ok(())
    }
}

/// What the mappings of a hardened child come to, before it may load the provider.
pub open spec fn hardened_maps_fault(
    bytes: Seq<u8>,
    expected: Set<ObjectKey>,
    provider: ObjectKey,
) -> Option<Text> {
    match maps_from(bytes, 0, Seq::empty()) {
        Err(line) => Some("cannot parse maps line "@ + digits(line)),
        Ok(list) => {
            let actual = executable_keys(list, list.len() as int);
            if actual.contains(provider) {
                Some("provider was executable before hardened discovery GO"@)
            } else if actual != expected {
                Some(
                    "hardened discovery executable mappings differ from the authorized closure"@,
                )
            } else {
                None
            }
        },
    }
}

/// Checks what a hardened child maps as code: exactly the files that were authorized, and not the
/// provider.
pub fn validate_hardened_executable_maps(
    bytes: &[u8],
    expected: &Vec<ObjectKey>,
    provider: ObjectKey,
) -> (r: Result<(), String>)
    ensures
        match hardened_maps_fault(bytes@, expected@.to_set(), provider) {
            None => r is Ok,
            Some(message) => r matches Err(given) && given@ == message,
        },
{
    let maps = match parse_maps(bytes) {
        Ok(maps) => maps,
        Err(message) => return Err(message),
    };
    assert(mappings(maps@).len() == maps@.len());
    let actual = executable_file_keys(&maps);
    if lists_key(&actual, &provider) {
        return Err("provider was executable before hardened discovery GO".to_owned());
    }
    if !same_keys(&actual, expected) {
        return Err(
            "hardened discovery executable mappings differ from the authorized closure".to_owned(),
        );
    }
    Ok(())
}

/// A child that passes the check maps as code exactly what was authorized, and the provider is not
/// among it, whether it was authorized or not.
pub proof fn lemma_provider_is_not_executable(
    bytes: Seq<u8>,
    expected: Set<ObjectKey>,
    provider: ObjectKey,
)
    requires
        hardened_maps_fault(bytes, expected, provider) is None,
    ensures
        maps_from(bytes, 0, Seq::empty()) matches Ok(list) && executable_keys(
            list,
            list.len() as int,
        ) == expected,
        !expected.contains(provider),
{
}

} // verus!
