//! Pins the objects that a manifest names. Every problem is gathered, so that one run shows them
//! all; nothing is pinned where there is any.
//!
//! The work goes in three stages, each of which runs only where the one before found no problem:
//! the files are opened and their sizes counted against a limit; their bytes are read and compared
//! with what the manifest recorded; and they are keyed by what a mapping of them shows.

use crate::discovery::identity::keyed::{find_slot, found, has_at, lemma_put, ordered, replace};
use crate::discovery::identity::pinned::{
    entry_of, identity_found, identity_of, Entry, EntryText, IdentityKind, Located, ObjectIdentity,
    Pin, PinnedObjects,
};
use crate::discovery::identity::scanned::{Inspected, Inspecting, Segment};
use crate::maps::ObjectKey;
use crate::text::{concat3, decimal, digits, hex_digits, hexadecimal, push_text, same, texts, Text};
use vstd::prelude::*;
use vstd::string::*;

verus! {

/// An object that a manifest names: its number, its path, and the identity that was recorded.
#[derive(Clone, Debug)]
pub struct ManifestObject {
    pub id: u32,
    pub path: String,
    pub identity: ObjectIdentity,
}

/// Where a function of a manifest lies.
#[derive(Clone, Copy, Debug, PartialEq, Eq, Structural)]
pub enum Resolution {
    /// In an object, at an offset in the file.
    Resolved { object: u32, file_offset: u64 },
    /// Nowhere that is known.
    Unresolved,
}

/// A function of a manifest.
#[derive(Clone, Debug)]
pub struct ManifestFunction {
    pub name: String,
    pub resolution: Resolution,
}

/// The functions of one interface of a manifest.
#[derive(Debug)]
pub struct ManifestSurface {
    pub functions: Vec<ManifestFunction>,
}

/// What came of opening one object.
#[derive(Debug)]
pub enum Opening {
    /// It was not opened, since its identity cannot be relied on.
    Unopened,
    /// It could not be opened.
    Refused(String),
    /// It was opened; its pin, or why that could not be read.
    Opened(Result<Pin, String>),
}

/// What one object comes to in the first stage: how many bytes are counted after it, or a problem.
pub open spec fn opened_total(
    object: ManifestObject,
    opening: Opening,
    total: nat,
    limit: u64,
) -> Result<nat, Text> {
    if !object.identity.reusable {
        Err(
            object.path@ + ": manifest identity is not reusable ("@ + (match object.identity.note {
                Some(note) => note@,
                None => "no identity recorded"@,
            }) + ")"@,
        )
    } else {
        match opening {
            Opening::Unopened => Ok(total),
            Opening::Refused(error) => Err(
                object.path@ + ": cannot open the file now ("@ + error@ + ")"@,
            ),
            Opening::Opened(Err(error)) => Err(object.path@ + ": "@ + error@),
            Opening::Opened(Ok(pin)) => if total + pin.size > u64::MAX {
                Err("total object size overflowed u64"@)
            } else if total + pin.size > limit {
                Err(
                    "manifest objects total more than the "@ + digits(limit as nat)
                        + "-byte limit"@,
                )
            } else {
                Ok(total + pin.size as nat)
            },
        }
    }
}

/// How many bytes are counted, and which problems there are, after the first `n` objects.
pub open spec fn opened_after(
    objects: Seq<ManifestObject>,
    openings: Seq<Opening>,
    limit: u64,
    n: int,
) -> (nat, Seq<Text>)
    decreases n,
{
    if n <= 0 {
        (0, Seq::empty())
    } else {
        let (total, problems) = opened_after(objects, openings, limit, n - 1);
        match opened_total(objects[n - 1], openings[n - 1], total, limit) {
            Ok(next) => (next, problems),
            Err(problem) => (total, problems.push(problem)),
        }
    }
}

/// Writes the problem of an object whose identity cannot be relied on.
fn not_reusable(object: &ManifestObject) -> (r: String)
    requires
        !object.identity.reusable,
    ensures
        forall|opening: Opening, total: nat, limit: u64|
            #[trigger] opened_total(*object, opening, total, limit) == Err::<nat, Text>(r@),
{
    let mut out = object.path.clone();
    out.append(": manifest identity is not reusable (");
    match &object.identity.note {
        Some(note) => out.append(note.as_str()),
        None => out.append("no identity recorded"),
    }
    out.append(")");
    out
}

/// Tells whether an object is to be opened.
pub fn is_to_be_opened(object: &ManifestObject) -> (r: bool)
    ensures
        r == object.identity.reusable,
{
    object.identity.reusable
}

/// What one object comes to in the first stage.
fn count_object(object: &ManifestObject, opening: &Opening, total: u64, limit: u64) -> (r: Result<
    u64,
    String,
>)
    requires
        total <= limit,
    ensures
        match opened_total(*object, *opening, total as nat, limit) {
            Ok(next) => r matches Ok(given) && given == next && given <= limit,
            Err(problem) => r matches Err(given) && given@ == problem,
        },
{
    if !object.identity.reusable {
        return Err(not_reusable(object));
    }
    match opening {
        Opening::Unopened => Ok(total),
        Opening::Refused(error) => {
            let mut out = object.path.clone();
            out.append(": cannot open the file now (");
            out.append(error.as_str());
            out.append(")");
            Err(out)
        },
        Opening::Opened(pin) => match pin {
            Err(error) => Err(concat3(object.path.as_str(), ": ", error.as_str())),
            Ok(pin) => match total.checked_add(pin.size) {
                None => Err("total object size overflowed u64".to_owned()),
                Some(next) => {
                    if next > limit {
                        return Err(
                            concat3(
                                "manifest objects total more than the ",
                                decimal(limit).as_str(),
                                "-byte limit",
                            ),
                        );
                    }
                    Ok(next)
                },
            },
        },
    }
}

/// The first stage. `structure` holds the problems that the manifest itself has; where it has any,
/// nothing else is looked at. Only an object whose identity cannot be relied on is left unopened.
pub fn count_manifest_objects(
    structure: Vec<String>,
    objects: &Vec<ManifestObject>,
    openings: &Vec<Opening>,
    limit: u64,
) -> (r: Result<u64, Vec<String>>)
    requires
        structure@.len() == 0 ==> openings@.len() == objects@.len(),
        forall|i: int|
            0 <= i < openings@.len() && i < objects@.len() && #[trigger] openings@[i]
                is Unopened ==> !objects@[i].identity.reusable,
    ensures
        structure@.len() > 0 ==> r == Err::<u64, Vec<String>>(structure),
        structure@.len() == 0 ==> ({
            let (total, problems) = opened_after(
                objects@,
                openings@,
                limit,
                objects@.len() as int,
            );
            match r {
                Ok(given) => problems.len() == 0 && given == total,
                Err(given) => problems.len() > 0 && texts(given@) == problems,
            }
        }),
{
    if structure.len() > 0 {
        return Err(structure);
    }
    let mut problems: Vec<String> = Vec::new();
    assert(texts(problems@) =~= Seq::<Text>::empty());
    let mut total: u64 = 0;
    let mut i: usize = 0;
    while i < objects.len()
        invariant
            i <= objects@.len(),
            openings@.len() == objects@.len(),
            total <= limit,
            opened_after(objects@, openings@, limit, i as int) == (
                total as nat,
                texts(problems@),
            ),
            texts(problems@).len() == problems@.len(),
        decreases objects@.len() - i,
    {
        match count_object(&objects[i], &openings[i], total, limit) {
            Ok(next) => {
                total = next;
            },
            Err(problem) => {
                push_text(&mut problems, problem);
            },
        }
        i += 1;
    }
    if problems.len() > 0 {
        Err(problems)
    } else {
        Ok(total)
    }
}

/// A string that may be absent, for a message.
pub open spec fn or_dash(s: Option<String>) -> Text {
    match s {
        Some(given) => given@,
        None => "-"@,
    }
}

/// How a kind of identity is written.
pub open spec fn kind_text(kind: IdentityKind) -> Text {
    match kind {
        IdentityKind::GnuBuildId => "GnuBuildId"@,
        IdentityKind::FileDigest => "FileDigest"@,
        IdentityKind::Unavailable => "Unavailable"@,
    }
}

/// How an identity is written.
pub open spec fn identity_text(identity: ObjectIdentity) -> Text {
    kind_text(identity.kind) + " "@ + or_dash(identity.value) + " sha256 "@ + or_dash(
        identity.sha256,
    )
}

/// Whether two strings that may be absent have the same characters.
pub open spec fn same_text(a: Option<String>, b: Option<String>) -> bool {
    match (a, b) {
        (Some(x), Some(y)) => x@ == y@,
        (None, None) => true,
        _ => false,
    }
}

/// Whether two identities are the same.
pub open spec fn same_object(a: ObjectIdentity, b: ObjectIdentity) -> bool {
    a.kind == b.kind && same_text(a.value, b.value) && same_text(a.sha256, b.sha256)
}

/// The problem of an object in the second stage.
pub open spec fn identity_problem(
    object: ManifestObject,
    before: Pin,
    inspecting: Inspecting,
) -> Option<Text> {
    match inspecting {
        Inspecting::Failed(error) => Some(
            object.path@ + ": cannot identify the file now ("@ + error@ + ")"@,
        ),
        Inspecting::Seen(inspected, Err(error)) => Some(object.path@ + ": "@ + error@),
        Inspecting::Seen(inspected, Ok(after)) => if after != before {
            Some(object.path@ + ": file changed while it was being identified — retry"@)
        } else if !same_object(inspected.identity, object.identity) {
            Some(
                object.path@ + ": identity changed since discovery (manifest "@ + identity_text(
                    object.identity,
                ) + ", current "@ + identity_text(inspected.identity)
                    + ") — re-run `p11scope-discover`"@,
            )
        } else {
            None
        },
    }
}

/// The problems of the first `n` objects in the second stage.
pub open spec fn identity_problems(
    objects: Seq<ManifestObject>,
    pins: Seq<Pin>,
    inspectings: Seq<Inspecting>,
    n: int,
) -> Seq<Text>
    decreases n,
{
    if n <= 0 {
        Seq::empty()
    } else {
        let before = identity_problems(objects, pins, inspectings, n - 1);
        match identity_problem(objects[n - 1], pins[n - 1], inspectings[n - 1]) {
            Some(problem) => before.push(problem),
            None => before,
        }
    }
}

/// Whether a file offset lies in one of the parts that are mapped as code.
pub open spec fn in_code(executable: Seq<Segment>, offset: u64) -> bool {
    exists|i: int|
        0 <= i < executable.len() && (#[trigger] executable[i]).file_offset <= offset && offset
            - executable[i].file_offset < executable[i].size
}

/// The last of the first `n` objects with a number that has no problem, or none below zero.
pub open spec fn object_with(
    objects: Seq<ManifestObject>,
    pins: Seq<Pin>,
    inspectings: Seq<Inspecting>,
    id: u32,
    n: int,
) -> int
    decreases n,
{
    if n <= 0 {
        -1
    } else if objects[n - 1].id == id && identity_problem(
        objects[n - 1],
        pins[n - 1],
        inspectings[n - 1],
    ) is None {
        n - 1
    } else {
        object_with(objects, pins, inspectings, id, n - 1)
    }
}

/// The problem of a function: it is said to lie where its object has no code.
pub open spec fn function_problem(
    objects: Seq<ManifestObject>,
    pins: Seq<Pin>,
    inspectings: Seq<Inspecting>,
    function: ManifestFunction,
) -> Option<Text> {
    match function.resolution {
        Resolution::Unresolved => None,
        Resolution::Resolved { object, file_offset } => {
            let i = object_with(objects, pins, inspectings, object, objects.len() as int);
            if i >= 0 && !in_code(inspectings[i]->Seen_0.executable@, file_offset) {
                Some(
                    function.name@ + ": "@ + objects[i].path@ + "+0x"@ + hex_digits(
                        file_offset as nat,
                    ) + " is outside every executable ELF segment"@,
                )
            } else {
                None
            }
        },
    }
}

/// Problems with those of the first `n` functions of a surface.
pub open spec fn functions_problems(
    objects: Seq<ManifestObject>,
    pins: Seq<Pin>,
    inspectings: Seq<Inspecting>,
    problems: Seq<Text>,
    functions: Seq<ManifestFunction>,
    n: int,
) -> Seq<Text>
    decreases n,
{
    if n <= 0 {
        problems
    } else {
        let before = functions_problems(objects, pins, inspectings, problems, functions, n - 1);
        match function_problem(objects, pins, inspectings, functions[n - 1]) {
            Some(problem) => before.push(problem),
            None => before,
        }
    }
}

/// Problems with those of the first `n` surfaces.
pub open spec fn surfaces_problems(
    objects: Seq<ManifestObject>,
    pins: Seq<Pin>,
    inspectings: Seq<Inspecting>,
    problems: Seq<Text>,
    surfaces: Seq<ManifestSurface>,
    n: int,
) -> Seq<Text>
    decreases n,
{
    if n <= 0 {
        problems
    } else {
        functions_problems(
            objects,
            pins,
            inspectings,
            surfaces_problems(objects, pins, inspectings, problems, surfaces, n - 1),
            surfaces[n - 1].functions@,
            surfaces[n - 1].functions@.len() as int,
        )
    }
}

/// Every problem of the second stage: those of the objects, then those of the functions.
pub open spec fn matching_problems(
    objects: Seq<ManifestObject>,
    pins: Seq<Pin>,
    inspectings: Seq<Inspecting>,
    surfaces: Seq<ManifestSurface>,
) -> Seq<Text> {
    surfaces_problems(
        objects,
        pins,
        inspectings,
        identity_problems(objects, pins, inspectings, objects.len() as int),
        surfaces,
        surfaces.len() as int,
    )
}

/// Tells whether two strings that may be absent have the same characters.
fn are_same(a: &Option<String>, b: &Option<String>) -> (r: bool)
    ensures
        r == same_text(*a, *b),
{
    match (a, b) {
        (Some(x), Some(y)) => same(x.as_str(), y.as_str()),
        (None, None) => true,
        _ => false,
    }
}

/// Adds a string that may be absent to a message.
fn append_or_dash(out: &mut String, s: &Option<String>)
    ensures
        final(out)@ == old(out)@ + or_dash(*s),
{
    match s {
        Some(given) => out.append(given.as_str()),
        None => out.append("-"),
    }
}

/// Adds an identity to a message.
fn append_identity(out: &mut String, identity: &ObjectIdentity)
    ensures
        final(out)@ == old(out)@ + identity_text(*identity),
{
    let kind = match identity.kind {
        IdentityKind::GnuBuildId => "GnuBuildId",
        IdentityKind::FileDigest => "FileDigest",
        IdentityKind::Unavailable => "Unavailable",
    };
    out.append(kind);
    out.append(" ");
    append_or_dash(out, &identity.value);
    out.append(" sha256 ");
    append_or_dash(out, &identity.sha256);
    assert(out@ =~= old(out)@ + identity_text(*identity));
}

/// Compares one object with what the manifest recorded.
fn compare_object(object: &ManifestObject, before: &Pin, inspecting: &Inspecting) -> (r: Option<
    String,
>)
    ensures
        match identity_problem(*object, *before, *inspecting) {
            Some(problem) => r matches Some(given) && given@ == problem,
            None => r is None,
        },
{
    match inspecting {
        Inspecting::Failed(error) => {
            let mut out = object.path.clone();
            out.append(": cannot identify the file now (");
            out.append(error.as_str());
            out.append(")");
            Some(out)
        },
        Inspecting::Seen(inspected, after) => match after {
            Err(error) => Some(concat3(object.path.as_str(), ": ", error.as_str())),
            Ok(after) => {
                if *after != *before {
                    let mut out = object.path.clone();
                    out.append(": file changed while it was being identified — retry");
                    return Some(out);
                }
                if inspected.identity.kind == object.identity.kind && are_same(
                    &inspected.identity.value,
                    &object.identity.value,
                ) && are_same(&inspected.identity.sha256, &object.identity.sha256) {
                    return None;
                }
                let mut out = object.path.clone();
                out.append(": identity changed since discovery (manifest ");
                append_identity(&mut out, &object.identity);
                out.append(", current ");
                append_identity(&mut out, &inspected.identity);
                out.append(") — re-run `p11scope-discover`");
                Some(out)
            },
        },
    }
}

impl Inspected {
    /// Tells whether a file offset lies in one of the parts that are mapped as code.
    pub fn contains_executable_offset(&self, offset: u64) -> (r: bool)
        ensures
            r == in_code(self.executable@, offset),
    {
        let mut i: usize = 0;
        while i < self.executable.len()
            invariant
                i <= self.executable@.len(),
                forall|j: int|
                    0 <= j < i ==> !((#[trigger] self.executable@[j]).file_offset <= offset
                        && offset - self.executable@[j].file_offset < self.executable@[j].size),
            decreases self.executable@.len() - i,
        {
            let segment = self.executable[i];
            if segment.file_offset <= offset && offset - segment.file_offset < segment.size {
                return true;
            }
            i += 1;
        }
        false
    }
}

/// Finds the object with a number that has no problem.
fn find_object(
    objects: &Vec<ManifestObject>,
    pins: &Vec<Pin>,
    inspectings: &Vec<Inspecting>,
    id: u32,
) -> (r: Option<usize>)
    requires
        pins@.len() == objects@.len(),
        inspectings@.len() == objects@.len(),
    ensures
        ({
            let i = object_with(objects@, pins@, inspectings@, id, objects@.len() as int);
            match r {
                Some(at) => at == i && at < objects@.len() && identity_problem(
                    objects@[i],
                    pins@[i],
                    inspectings@[i],
                ) is None,
                None => i < 0,
            }
        }),
{
    let mut n: usize = objects.len();
    while n > 0
        invariant
            n <= objects@.len(),
            pins@.len() == objects@.len(),
            inspectings@.len() == objects@.len(),
            object_with(objects@, pins@, inspectings@, id, n as int) == object_with(
                objects@,
                pins@,
                inspectings@,
                id,
                objects@.len() as int,
            ),
        decreases n,
    {
        n -= 1;
        if objects[n].id == id {
            if let None = compare_object(&objects[n], &pins[n], &inspectings[n]) {
                return Some(n);
            }
        }
    }
    None
}

/// Checks where one function lies.
fn check_function(
    objects: &Vec<ManifestObject>,
    pins: &Vec<Pin>,
    inspectings: &Vec<Inspecting>,
    function: &ManifestFunction,
) -> (r: Option<String>)
    requires
        pins@.len() == objects@.len(),
        inspectings@.len() == objects@.len(),
    ensures
        match function_problem(objects@, pins@, inspectings@, *function) {
            Some(problem) => r matches Some(given) && given@ == problem,
            None => r is None,
        },
{
    match function.resolution {
        Resolution::Unresolved => None,
        Resolution::Resolved { object, file_offset } => {
            match find_object(objects, pins, inspectings, object) {
                None => None,
                Some(at) => match &inspectings[at] {
                    Inspecting::Failed(_) => None,
                    Inspecting::Seen(inspected, _) => {
                        if inspected.contains_executable_offset(file_offset) {
                            return None;
                        }
                        let mut out = function.name.clone();
                        out.append(": ");
                        out.append(objects[at].path.as_str());
                        out.append("+0x");
                        out.append(hexadecimal(file_offset).as_str());
                        out.append(" is outside every executable ELF segment");
                        Some(out)
                    },
                },
            }
        },
    }
}

/// The second stage: every object must be what the manifest recorded, and every function must lie
/// in code.
pub fn match_manifest_objects(
    objects: &Vec<ManifestObject>,
    pins: &Vec<Pin>,
    inspectings: &Vec<Inspecting>,
    surfaces: &Vec<ManifestSurface>,
) -> (r: Result<(), Vec<String>>)
    requires
        pins@.len() == objects@.len(),
        inspectings@.len() == objects@.len(),
    ensures
        ({
            let problems = matching_problems(objects@, pins@, inspectings@, surfaces@);
            match r {
                Ok(()) => problems.len() == 0,
                Err(given) => problems.len() > 0 && texts(given@) == problems,
            }
        }),
{
    let mut problems: Vec<String> = Vec::new();
    assert(texts(problems@) =~= Seq::<Text>::empty());
    let mut i: usize = 0;
    while i < objects.len()
        invariant
            i <= objects@.len(),
            pins@.len() == objects@.len(),
            inspectings@.len() == objects@.len(),
            texts(problems@) == identity_problems(objects@, pins@, inspectings@, i as int),
        decreases objects@.len() - i,
    {
        if let Some(problem) = compare_object(&objects[i], &pins[i], &inspectings[i]) {
            push_text(&mut problems, problem);
        }
        i += 1;
    }
    let ghost first = texts(problems@);
    let mut s: usize = 0;
    while s < surfaces.len()
        invariant
            s <= surfaces@.len(),
            pins@.len() == objects@.len(),
            inspectings@.len() == objects@.len(),
            texts(problems@) == surfaces_problems(
                objects@,
                pins@,
                inspectings@,
                first,
                surfaces@,
                s as int,
            ),
        decreases surfaces@.len() - s,
    {
        let functions = &surfaces[s].functions;
        let ghost before = texts(problems@);
        let mut f: usize = 0;
        while f < functions.len()
            invariant
                f <= functions@.len(),
                pins@.len() == objects@.len(),
                inspectings@.len() == objects@.len(),
                texts(problems@) == functions_problems(
                    objects@,
                    pins@,
                    inspectings@,
                    before,
                    functions@,
                    f as int,
                ),
            decreases functions@.len() - f,
        {
            if let Some(problem) = check_function(objects, pins, inspectings, &functions[f]) {
                push_text(&mut problems, problem);
            }
            f += 1;
        }
        s += 1;
    }
    assert(texts(problems@).len() == problems@.len());
    if problems.len() > 0 {
        Err(problems)
    } else {
        Ok(())
    }
}

/// Whether no later object has the number of an object.
pub open spec fn is_last(objects: Seq<ManifestObject>, i: int) -> bool {
    &&& 0 <= i < objects.len()
    &&& forall|j: int| i < j < objects.len() ==> (#[trigger] objects[j]).id != objects[i].id
}

/// Tells whether no later object has the number of an object.
fn is_last_of(objects: &Vec<ManifestObject>, i: usize) -> (r: bool)
    requires
        i < objects@.len(),
    ensures
        r == is_last(objects@, i as int),
{
    let len: usize = objects.len();
    let mut j: usize = i + 1;
    while j < len
        invariant
            i < j <= len,
            len == objects@.len(),
            forall|k: int| i < k < j ==> (#[trigger] objects@[k]).id != objects@[i as int].id,
        decreases objects@.len() - j,
    {
        if objects[j].id == objects[i].id {
            return false;
        }
        j += 1;
    }
    true
}

/// Whether positions of objects are in the order of the objects' numbers.
pub open spec fn in_order(objects: Seq<ManifestObject>, order: Seq<usize>) -> bool {
    forall|a: int, b: int|
        0 <= a < b < order.len() ==> objects[#[trigger] order[a] as int].id
            < objects[#[trigger] order[b] as int].id
}

/// The positions of the objects in the order of their numbers; of several with one number, the last.
pub fn by_number(objects: &Vec<ManifestObject>) -> (order: Vec<usize>)
    ensures
        in_order(objects@, order@),
        forall|a: int| 0 <= a < order@.len() ==> is_last(objects@, #[trigger] order@[a] as int),
        forall|i: usize| is_last(objects@, i as int) ==> #[trigger] order@.contains(i),
{
    let mut order: Vec<usize> = Vec::new();
    let mut i: usize = 0;
    while i < objects.len()
        invariant
            i <= objects@.len(),
            in_order(objects@, order@),
            forall|a: int|
                0 <= a < order@.len() ==> order@[a] < i && is_last(
                    objects@,
                    #[trigger] order@[a] as int,
                ),
            forall|k: usize| k < i && is_last(objects@, k as int) ==> #[trigger] order@.contains(k),
        decreases objects@.len() - i,
    {
        if is_last_of(objects, i) {
            let mut at: usize = 0;
            while at < order.len() && objects[order[at]].id < objects[i].id
                invariant
                    at <= order@.len(),
                    i < objects@.len(),
                    forall|a: int|
                        0 <= a < order@.len() ==> order@[a] < i && is_last(
                            objects@,
                            #[trigger] order@[a] as int,
                        ),
                    forall|a: int|
                        0 <= a < at ==> objects@[#[trigger] order@[a] as int].id
                            < objects@[i as int].id,
                decreases order@.len() - at,
            {
                at += 1;
            }
            let ghost before = order@;
            order.insert(at, i);
            proof {
                assert forall|a: int, b: int| 0 <= a < b < order@.len() implies objects@[
                #[trigger] order@[a] as int].id < objects@[#[trigger] order@[b] as int].id by {
                    let sa = if a < at {
                        a
                    } else {
                        a - 1
                    };
                    let sb = if b < at {
                        b
                    } else {
                        b - 1
                    };
                    if a != at {
                        assert(order@[a] == before[sa]);
                    }
                    if b != at {
                        assert(order@[b] == before[sb]);
                    }
                    if a == at {
                        assert(is_last(objects@, before[at as int] as int));
                        assert(objects@[i as int].id != objects@[before[at as int] as int].id);
                        if sb > at {
                            assert(objects@[before[at as int] as int].id < objects@[
                            before[sb] as int].id);
                        }
                    }
                }
                assert forall|a: int| 0 <= a < order@.len() implies order@[a] < i + 1 && is_last(
                    objects@,
                    #[trigger] order@[a] as int,
                ) by {
                    if a < at {
                        assert(order@[a] == before[a]);
                    } else if a > at {
                        assert(order@[a] == before[a - 1]);
                    }
                }
                assert forall|k: usize| k < i + 1 && is_last(objects@, k as int) implies #[trigger]
                    order@.contains(k) by {
                    if k < i {
                        assert(before.contains(k));
                        let p = choose|p: int| 0 <= p < before.len() && before[p] == k;
                        if p < at {
                            assert(order@[p] == k);
                        } else {
                            assert(order@[p + 1] == k);
                        }
                    } else {
                        assert(order@[at as int] == k);
                    }
                }
            }
        }
        i += 1;
    }
    order
}

/// An object that is ready to be keyed: its path and recorded identity, its pin, where it is
/// mapped, under which descriptor it is open, and whether it was opened through overlayfs.
#[derive(Debug)]
pub struct Candidate {
    pub path: String,
    pub pin: Pin,
    pub identity: ObjectIdentity,
    pub fd: i32,
    pub located: Located,
    pub overlay: Result<bool, String>,
}

/// The entry of a candidate, or its problem.
pub open spec fn candidate_entry(c: Candidate) -> Result<
    (ObjectKey, EntryText),
    Text,
> {
    match identity_found(c.located) {
        Err(error) => Err(c.path@ + ": "@ + error),
        Ok(seen) => match c.overlay {
            Err(error) => Err(c.path@ + ": "@ + error@),
            Ok(overlay) => Ok((seen.key, entry_of(c.fd, c.pin, c.path@, c.identity, seen, overlay))),
        },
    }
}

/// The last of the first `n` candidates with a key, or none below zero.
pub open spec fn candidate_with(list: Seq<Candidate>, key: ObjectKey, n: int) -> int
    decreases n,
{
    if n <= 0 {
        -1
    } else if candidate_entry(list[n - 1]) matches Ok(keyed) && keyed.0 == key {
        n - 1
    } else {
        candidate_with(list, key, n - 1)
    }
}

/// The problems of the first `n` candidates: those of each, and two that are one object.
pub open spec fn keying_problems(list: Seq<Candidate>, n: int) -> Seq<Text>
    decreases n,
{
    if n <= 0 {
        Seq::empty()
    } else {
        let before = keying_problems(list, n - 1);
        match candidate_entry(list[n - 1]) {
            Err(problem) => before.push(problem),
            Ok((key, _)) => {
                let earlier = candidate_with(list, key, n - 1);
                if earlier >= 0 {
                    before.push(
                        list[n - 1].path@ + " and "@ + list[earlier].path@
                            + " are the same object ("@ + key.text()
                            + "); refusing an ambiguous pin"@,
                    )
                } else {
                    before
                }
            },
        }
    }
}

/// Whether a list holds, under every key, the entry of the last of the first `n` candidates with
/// that key, and nothing else.
pub open spec fn holds_candidates(
    by_key: Seq<(ObjectKey, Entry)>,
    list: Seq<Candidate>,
    n: int,
) -> bool {
    &&& ordered(by_key)
    &&& forall|key: ObjectKey|
        #![trigger found(by_key, key)]
        match found(by_key, key) {
            Some(entry) => candidate_with(list, key, n) >= 0 && candidate_entry(
                list[candidate_with(list, key, n)],
            ) == Ok::<_, Text>((key, entry@)),
            None => candidate_with(list, key, n) < 0,
        }
}

/// Keys one candidate.
fn key_candidate(c: Candidate) -> (r: Result<(ObjectKey, Entry), String>)
    ensures
        match candidate_entry(c) {
            Ok((key, entry)) => r matches Ok(given) && given.0 == key && given.1@ == entry,
            Err(problem) => r matches Err(given) && given@ == problem,
        },
{
    match identity_of(&c.located) {
        Err(error) => Err(concat3(c.path.as_str(), ": ", error.as_str())),
        Ok(seen) => {
            let key = seen.key;
            match Entry::new(c.fd, c.pin, c.path.as_str(), &c.identity, seen, &c.overlay) {
                Err(error) => Err(concat3(c.path.as_str(), ": ", error.as_str())),
                Ok(entry) => Ok((key, entry)),
            }
        },
    }
}

/// The last stage: the objects that a manifest names, in the order of their numbers, keyed by what a
/// mapping of them shows. Two that show one key are refused.
pub fn pin_manifest_objects(candidates: Vec<Candidate>) -> (r: Result<PinnedObjects, Vec<String>>)
    ensures
        ({
            let n = candidates@.len() as int;
            let problems = keying_problems(candidates@, n);
            match r {
                Ok(pinned) => problems.len() == 0 && !pinned.changed && holds_candidates(
                    pinned.by_key@,
                    candidates@,
                    n,
                ),
                Err(given) => problems.len() > 0 && texts(given@) == problems,
            }
        }),
{
    let mut rest = candidates;
    let ghost all = rest@;
    let mut problems: Vec<String> = Vec::new();
    assert(texts(problems@) =~= Seq::<Text>::empty());
    let mut by_key: Vec<(ObjectKey, Entry)> = Vec::new();
    let ghost mut n: int = 0;
    assert(all.skip(0) =~= all);
    assert(holds_candidates(by_key@, all, 0));
    while rest.len() > 0
        invariant
            0 <= n <= all.len(),
            rest@ == all.skip(n),
            texts(problems@) == keying_problems(all, n),
            holds_candidates(by_key@, all, n),
        decreases rest@.len(),
    {
        let candidate = rest.remove(0);
        assert(all.skip(n)[0] == all[n]);
        let path = candidate.path.clone();
        let ghost before = by_key@;
        match key_candidate(candidate) {
            Err(problem) => {
                push_text(&mut problems, problem);
                assert(holds_candidates(by_key@, all, n + 1)) by {
                    assert forall|key: ObjectKey|
                        #![trigger found(by_key@, key)]
                        candidate_with(all, key, n + 1) == candidate_with(all, key, n) by {}
                }
            },
            Ok((key, entry)) => {
                let i: usize = find_slot(&by_key, &key);
                if has_at(&by_key, i, &key) {
                    assert(found(by_key@, key) == Some(by_key@[i as int].1));
                    let mut problem = path;
                    problem.append(" and ");
                    problem.append(by_key[i].1.path.as_str());
                    problem.append(" are the same object (");
                    problem.append(key.render().as_str());
                    problem.append("); refusing an ambiguous pin");
                    push_text(&mut problems, problem);
                } else {
                    assert(found(by_key@, key) is None);
                }
                replace(&mut by_key, key, entry);
                proof {
                    lemma_put(before, key, entry, key);
                    assert forall|other: ObjectKey|
                        #![trigger found(by_key@, other)]
                        match found(by_key@, other) {
                            Some(e) => candidate_with(all, other, n + 1) >= 0 && candidate_entry(
                                all[candidate_with(all, other, n + 1)],
                            ) == Ok::<_, Text>((other, e@)),
                            None => candidate_with(all, other, n + 1) < 0,
                        } by {
                        lemma_put(before, key, entry, other);
                        if other != key {
                            assert(found(before, other) == found(by_key@, other));
                        }
                    }
                }
            },
        }
        proof {
            n = n + 1;
        }
        assert(rest@ =~= all.skip(n));
    }
    assert(texts(problems@).len() == problems@.len());
    if problems.len() > 0 {
        Err(problems)
    } else {
        Ok(PinnedObjects { by_key, changed: false })
    }
}

} // verus!
