//! Which programs serve a slot, in what order they are attached, and what comes of it. No entry
//! probe is attached to a slot whose return probe is not there.

use crate::attach::policy::CapturePolicy;
use crate::discovery::hooks::HookAbi;
use crate::text::{same, Text};
use std::collections::BTreeSet;
use vstd::prelude::*;
use vstd::string::*;

verus! {

/// What stands in place of an argument that a function has not.
pub const ARG_NONE: u8 = 255;

/// The flag of a function of whose first template only the types are read.
pub const TEMPLATE0_TYPES_ONLY: u32 = 1;

/// What a probe may read of the calls of a slot.
#[derive(Clone, Copy, Debug, PartialEq, Eq, Structural)]
pub struct SlotSemantics {
    pub template0_arg: u8,
    pub template1_arg: u8,
    pub async_name_arg: u8,
    pub semantic_flags: u32,
}

impl SlotSemantics {
    /// Nothing is read of the calls: they are only counted.
    pub fn count_only() -> (r: Self)
        ensures
            r == (SlotSemantics {
                template0_arg: ARG_NONE,
                template1_arg: ARG_NONE,
                async_name_arg: ARG_NONE,
                semantic_flags: 0,
            }),
    {
        SlotSemantics {
            template0_arg: ARG_NONE,
            template1_arg: ARG_NONE,
            async_name_arg: ARG_NONE,
            semantic_flags: 0,
        }
    }
}

/// A place where probes are attached: its number, the descriptor that says what to read, the object
/// held open under a key of the capture, and the offset in it.
#[derive(Clone, Debug)]
pub struct Slot {
    pub index: u32,
    pub descriptor_index: u32,
    pub object_path: String,
    pub file_offset: u64,
    pub semantics: SlotSemantics,
}

/// The cookie of a probe: its slot in the lower half, its descriptor in the upper half.
pub fn attach_cookie(index: u32, descriptor_index: u32) -> (r: u64)
    ensures
        r == descriptor_index * 0x1_0000_0000 + index,
{
    descriptor_index as u64 * 0x1_0000_0000 + index as u64
}

/// Which of the entry programs serves a slot, in the order in which they are attached.
pub open spec fn entry_rank(semantics: SlotSemantics, policy: CapturePolicy) -> int {
    if policy != CapturePolicy::UnsafeUnvalidatedMetadata {
        0
    } else if semantics.template1_arg != ARG_NONE {
        3
    } else if semantics.semantic_flags & TEMPLATE0_TYPES_ONLY != 0 {
        2
    } else if semantics.template0_arg != ARG_NONE {
        1
    } else {
        0
    }
}

/// The name of an entry program.
pub open spec fn entry_name(rank: int) -> Text {
    if rank == 0 {
        "p11_entry"@
    } else if rank == 1 {
        "p11_entry_template"@
    } else if rank == 2 {
        "p11_entry_template_types"@
    } else {
        "p11_entry_template_pair"@
    }
}

/// The name of an entry program.
pub fn entry_program_name(rank: u8) -> (r: &'static str)
    ensures
        r@ == entry_name(rank as int),
{
    if rank == 0 {
        "p11_entry"
    } else if rank == 1 {
        "p11_entry_template"
    } else if rank == 2 {
        "p11_entry_template_types"
    } else {
        "p11_entry_template_pair"
    }
}

/// Works out which of the entry programs serves a slot.
fn rank_of(semantics: &SlotSemantics, policy: CapturePolicy) -> (r: u8)
    ensures
        r == entry_rank(*semantics, policy),
        r <= 3,
{
    if !policy.uses_unsafe_decoders() {
        return 0;
    }
    if semantics.template1_arg != ARG_NONE {
        3
    } else if semantics.semantic_flags & TEMPLATE0_TYPES_ONLY != 0 {
        2
    } else if semantics.template0_arg != ARG_NONE {
        1
    } else {
        0
    }
}

/// The entry program that serves a slot.
pub fn entry_program(semantics: &SlotSemantics, policy: CapturePolicy) -> (r: &'static str)
    ensures
        r@ == entry_name(entry_rank(*semantics, policy)),
{
    entry_program_name(rank_of(semantics, policy))
}

/// A capture that records only what is allowed never runs a program that decodes more.
pub proof fn lemma_safe_entry(semantics: SlotSemantics, policy: CapturePolicy)
    requires
        policy != CapturePolicy::UnsafeUnvalidatedMetadata,
    ensures
        entry_name(entry_rank(semantics, policy)) == "p11_entry"@,
{
}

/// The entry and the return program of a symbol that hands out a function table.
pub open spec fn export_names(abi: HookAbi) -> (Text, Text) {
    match abi {
        HookAbi::FunctionList => ("function_list_entry"@, "function_list_return"@),
        HookAbi::InterfaceList => ("interface_list_entry"@, "interface_list_return"@),
        HookAbi::Interface => ("interface_entry"@, "interface_return"@),
    }
}

/// The entry and the return program of a symbol that hands out a function table.
pub fn export_programs(abi: HookAbi) -> (r: (&'static str, &'static str))
    ensures
        (r.0@, r.1@) == export_names(abi),
{
    match abi {
        HookAbi::FunctionList => ("function_list_entry", "function_list_return"),
        HookAbi::InterfaceList => ("interface_list_entry", "interface_list_return"),
        HookAbi::Interface => ("interface_entry", "interface_return"),
    }
}

/// The side of a call that a probe sits on.
#[derive(Clone, Copy, Debug, PartialEq, Eq, PartialOrd, Ord, Structural)]
pub enum ProbeSide {
    Return,
    Entry,
}

/// The side that a program of a slot sits on; other programs have none.
pub open spec fn side_of(program: Text) -> Option<ProbeSide> {
    if program == "p11_return"@ {
        Some(ProbeSide::Return)
    } else if program == "p11_entry"@ || program == "p11_entry_template"@ || program
        == "p11_entry_template_types"@ || program == "p11_entry_template_pair"@ {
        Some(ProbeSide::Entry)
    } else {
        None
    }
}

/// The end of a slot that a program serves.
pub fn static_endpoint(program: &str, slot: u32) -> (r: Option<(u32, ProbeSide)>)
    ensures
        r == (match side_of(program@) {
            Some(side) => Some((slot, side)),
            None => None::<(u32, ProbeSide)>,
        }),
{
    if same(program, "p11_return") {
        Some((slot, ProbeSide::Return))
    } else if same(program, "p11_entry") || same(program, "p11_entry_template") || same(
        program,
        "p11_entry_template_types",
    ) || same(program, "p11_entry_template_pair") {
        Some((slot, ProbeSide::Entry))
    } else {
        None
    }
}

/// Whether a return probe was attached for a slot number.
pub open spec fn returned(slots: Seq<Slot>, exits: Seq<Result<(), String>>, index: u32) -> bool {
    exists|i: int|
        0 <= i < slots.len() && (#[trigger] slots[i]).index == index && exits[i] is Ok
}

/// The slots among the first `n` that one entry program serves and whose return probe is there.
pub open spec fn served(
    slots: Seq<Slot>,
    policy: CapturePolicy,
    exits: Seq<Result<(), String>>,
    rank: int,
    n: int,
) -> Seq<usize>
    decreases n,
{
    if n <= 0 {
        Seq::empty()
    } else {
        let before = served(slots, policy, exits, rank, n - 1);
        if entry_rank(slots[n - 1].semantics, policy) == rank && returned(
            slots,
            exits,
            slots[n - 1].index,
        ) {
            before.push((n - 1) as usize)
        } else {
            before
        }
    }
}

/// The slots to which entry probes are attached, in order: program by program, and for each the
/// slots in their own order.
pub open spec fn entry_steps(
    slots: Seq<Slot>,
    policy: CapturePolicy,
    exits: Seq<Result<(), String>>,
    ranks: int,
) -> Seq<usize>
    decreases ranks,
{
    if ranks <= 0 {
        Seq::empty()
    } else {
        entry_steps(slots, policy, exits, ranks - 1) + served(
            slots,
            policy,
            exits,
            ranks - 1,
            slots.len() as int,
        )
    }
}

/// Tells whether a return probe was attached for a slot number.
fn was_returned(slots: &Vec<Slot>, exits: &Vec<Result<(), String>>, index: u32) -> (r: bool)
    requires
        exits@.len() == slots@.len(),
    ensures
        r == returned(slots@, exits@, index),
{
    let mut i: usize = 0;
    while i < slots.len()
        invariant
            i <= slots@.len(),
            exits@.len() == slots@.len(),
            forall|j: int|
                0 <= j < i ==> (#[trigger] slots@[j]).index != index || exits@[j] is Err,
        decreases slots@.len() - i,
    {
        if slots[i].index == index && exits[i].is_ok() {
            assert(slots@[i as int].index == index);
            return true;
        }
        i += 1;
    }
    false
}

/// Works out to which slots entry probes are attached, and in what order, from what came of
/// attaching the return probes.
pub fn entry_order(
    slots: &Vec<Slot>,
    policy: CapturePolicy,
    exits: &Vec<Result<(), String>>,
) -> (steps: Vec<usize>)
    requires
        exits@.len() == slots@.len(),
    ensures
        steps@ == entry_steps(slots@, policy, exits@, 4),
        forall|k: int| 0 <= k < steps@.len() ==> (#[trigger] steps@[k]) < slots@.len(),
{
    let mut steps: Vec<usize> = Vec::new();
    let mut rank: u8 = 0;
    while rank < 4
        invariant
            rank <= 4,
            exits@.len() == slots@.len(),
            steps@ == entry_steps(slots@, policy, exits@, rank as int),
            forall|k: int| 0 <= k < steps@.len() ==> (#[trigger] steps@[k]) < slots@.len(),
        decreases 4 - rank,
    {
        let ghost before = steps@;
        let mut i: usize = 0;
        assert(before + Seq::<usize>::empty() =~= before);
        while i < slots.len()
            invariant
                i <= slots@.len(),
                rank < 4,
                exits@.len() == slots@.len(),
                steps@ == before + served(slots@, policy, exits@, rank as int, i as int),
                forall|k: int| 0 <= k < steps@.len() ==> (#[trigger] steps@[k]) < slots@.len(),
            decreases slots@.len() - i,
        {
            let ghost now = steps@;
            if rank_of(&slots[i].semantics, policy) == rank && was_returned(
                slots,
                exits,
                slots[i].index,
            ) {
                steps.push(i);
                assert(steps@ =~= before + served(
                    slots@,
                    policy,
                    exits@,
                    rank as int,
                    i as int,
                ).push(i));
            }
            i += 1;
        }
        rank += 1;
    }
    steps
}

/// Every slot that gets an entry probe has a return probe.
pub proof fn lemma_entry_after_return(
    slots: Seq<Slot>,
    policy: CapturePolicy,
    exits: Seq<Result<(), String>>,
    ranks: int,
    k: int,
)
    requires
        slots.len() <= usize::MAX,
        0 <= k < entry_steps(slots, policy, exits, ranks).len(),
    ensures
        ({
            let i = entry_steps(slots, policy, exits, ranks)[k] as int;
            0 <= i < slots.len() && returned(slots, exits, slots[i].index)
        }),
    decreases ranks,
{
    if ranks > 0 {
        let before = entry_steps(slots, policy, exits, ranks - 1);
        if k < before.len() {
            lemma_entry_after_return(slots, policy, exits, ranks - 1, k);
        } else {
            lemma_served(slots, policy, exits, ranks - 1, slots.len() as int, k - before.len());
        }
    }
}

/// Every slot that an entry program serves has a return probe.
proof fn lemma_served(
    slots: Seq<Slot>,
    policy: CapturePolicy,
    exits: Seq<Result<(), String>>,
    rank: int,
    n: int,
    k: int,
)
    requires
        0 <= n <= slots.len() <= usize::MAX,
        0 <= k < served(slots, policy, exits, rank, n).len(),
    ensures
        ({
            let i = served(slots, policy, exits, rank, n)[k] as int;
            0 <= i < slots.len() && returned(slots, exits, slots[i].index)
        }),
    decreases n,
{
    if n > 0 {
        let before = served(slots, policy, exits, rank, n - 1);
        if k < before.len() {
            lemma_served(slots, policy, exits, rank, n - 1, k);
        }
    }
}

/// What came of attaching probes to slots: the slots whose return and whose entry probe is there,
/// every failure with its slot, and every slot that is served on both sides, with when it was.
#[derive(Debug)]
pub struct AttachOutcome {
    pub exits: BTreeSet<u32>,
    pub entries: BTreeSet<u32>,
    pub failures: Vec<(u32, String)>,
    pub completed: Vec<(u32, Option<u64>)>,
}

/// Failures with their slots, by characters.
pub open spec fn failure_texts(list: Seq<(u32, String)>) -> Seq<(u32, Text)> {
    list.map_values(|f: (u32, String)| (f.0, f.1@))
}

/// The slots among the first `n` whose return probe is there.
pub open spec fn returns_of(slots: Seq<Slot>, exits: Seq<Result<(), String>>, n: int) -> Set<u32>
    decreases n,
{
    if n <= 0 {
        Set::empty()
    } else if exits[n - 1] is Ok {
        returns_of(slots, exits, n - 1).insert(slots[n - 1].index)
    } else {
        returns_of(slots, exits, n - 1)
    }
}

/// The failures of the first `n` return probes.
pub open spec fn return_failures(
    slots: Seq<Slot>,
    exits: Seq<Result<(), String>>,
    n: int,
) -> Seq<(u32, Text)>
    decreases n,
{
    if n <= 0 {
        Seq::empty()
    } else {
        let before = return_failures(slots, exits, n - 1);
        match exits[n - 1] {
            Ok(()) => before,
            Err(message) => before.push((slots[n - 1].index, message@)),
        }
    }
}

/// What came of the first `n` entry probes, in the order in which they were attached: the slots
/// served, the failures, and the completions.
pub open spec fn entries_of(
    slots: Seq<Slot>,
    steps: Seq<usize>,
    entries: Seq<Result<Option<u64>, String>>,
    failed: Seq<(u32, Text)>,
    n: int,
) -> (Set<u32>, Seq<(u32, Text)>, Seq<(u32, Option<u64>)>)
    decreases n,
{
    if n <= 0 {
        (Set::empty(), failed, Seq::empty())
    } else {
        let (there, failures, completed) = entries_of(slots, steps, entries, failed, n - 1);
        let index = slots[steps[n - 1] as int].index;
        match entries[n - 1] {
            Ok(at) => (there.insert(index), failures, completed.push((index, at))),
            Err(message) => (there, failures.push((index, message@)), completed),
        }
    }
}

/// Gathers what came of attaching return probes to every slot and then entry probes in the order
/// that was worked out. An entry probe that was attached comes with when that was.
pub fn attach_outcome(
    slots: &Vec<Slot>,
    policy: CapturePolicy,
    exits: &Vec<Result<(), String>>,
    entries: &Vec<Result<Option<u64>, String>>,
) -> (outcome: AttachOutcome)
    requires
        exits@.len() == slots@.len(),
        entries@.len() == entry_steps(slots@, policy, exits@, 4).len(),
    ensures
        ({
            let n = slots@.len() as int;
            let steps = entry_steps(slots@, policy, exits@, 4);
            let (there, failures, completed) = entries_of(
                slots@,
                steps,
                entries@,
                return_failures(slots@, exits@, n),
                steps.len() as int,
            );
            &&& outcome.exits@ == returns_of(slots@, exits@, n)
            &&& outcome.entries@ == there
            &&& failure_texts(outcome.failures@) == failures
            &&& outcome.completed@ == completed
        }),
{
    broadcast use vstd::std_specs::btree::group_btree_axioms;

    let steps = entry_order(slots, policy, exits);
    let mut there: BTreeSet<u32> = BTreeSet::new();
    let mut failures: Vec<(u32, String)> = Vec::new();
    assert(failure_texts(failures@) =~= Seq::<(u32, Text)>::empty());
    let mut i: usize = 0;
    while i < slots.len()
        invariant
            i <= slots@.len(),
            exits@.len() == slots@.len(),
            there@ == returns_of(slots@, exits@, i as int),
            failure_texts(failures@) == return_failures(slots@, exits@, i as int),
        decreases slots@.len() - i,
    {
        let ghost before = failure_texts(failures@);
        match &exits[i] {
            Ok(()) => {
                there.insert(slots[i].index);
            },
            Err(message) => {
                failures.push((slots[i].index, message.clone()));
                assert(failure_texts(failures@) =~= before.push(
                    (slots@[i as int].index, message@),
                ));
            },
        }
        i += 1;
    }
    let ghost failed = failure_texts(failures@);
    let mut on_entry: BTreeSet<u32> = BTreeSet::new();
    let mut completed: Vec<(u32, Option<u64>)> = Vec::new();
    let mut k: usize = 0;
    while k < steps.len()
        invariant
            k <= steps@.len(),
            entries@.len() == steps@.len(),
            forall|j: int| 0 <= j < steps@.len() ==> (#[trigger] steps@[j]) < slots@.len(),
            entries_of(slots@, steps@, entries@, failed, k as int) == (
                on_entry@,
                failure_texts(failures@),
                completed@,
            ),
        decreases steps@.len() - k,
    {
        let index: u32 = slots[steps[k]].index;
        let ghost before = failure_texts(failures@);
        match &entries[k] {
            Ok(at) => {
                on_entry.insert(index);
                completed.push((index, *at));
            },
            Err(message) => {
                failures.push((index, message.clone()));
                assert(failure_texts(failures@) =~= before.push((index, message@)));
            },
        }
        k += 1;
    }
    AttachOutcome { exits: there, entries: on_entry, failures, completed }
}

} // verus!
