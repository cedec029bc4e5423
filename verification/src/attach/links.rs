//! The links that a session owns: what each belongs to, and in what order links are detached. Entry
//! probes go first, so that fewer calls are stranded, and return probes last.

use crate::discovery::hooks::HookAbi;
use crate::discovery::loader::{LoaderContextId, PinnedObjectId};
use crate::text::{same, Text};
use vstd::prelude::*;
use vstd::string::*;

verus! {

/// A program that feeds the maps.
#[derive(Clone, Copy, Debug, PartialEq, Eq)]
pub enum ProducerProgram {
    UProbe(&'static str),
    TracePoint(&'static str),
}

/// A link whose lifetime the session owns, with the number under which it can be detached.
#[derive(Clone, Copy, Debug, PartialEq, Eq)]
pub enum RegisteredLink {
    /// A probe of a slot.
    UProbe { program: &'static str, slot: u32, id: u64 },
    /// A probe of a kernel event.
    TracePoint { program: &'static str, id: u64 },
    /// A probe of a loader context: of the loader itself, or of a symbol that hands out a function
    /// table.
    DynamicUProbe {
        program: &'static str,
        context: LoaderContextId,
        object: PinnedObjectId,
        file_offset: u64,
        cookie: u64,
        abi: Option<HookAbi>,
        id: u64,
    },
}

/// A symbol that hands out a function table and is probed for a loader context.
#[derive(Clone, Copy, Debug, PartialEq, Eq)]
pub struct DynamicExportIdentity {
    pub object: PinnedObjectId,
    pub file_offset: u64,
    pub cookie: u64,
    pub abi: HookAbi,
}

impl RegisteredLink {
    /// The program of the link.
    pub open spec fn program_name(self) -> Text {
        match self {
            RegisteredLink::UProbe { program, .. } => program@,
            RegisteredLink::TracePoint { program, .. } => program@,
            RegisteredLink::DynamicUProbe { program, .. } => program@,
        }
    }

    /// The slot of the link.
    pub open spec fn slot_number(self) -> Option<u32> {
        match self {
            RegisteredLink::UProbe { slot, .. } => Some(slot),
            _ => None,
        }
    }

    /// The loader context of the link.
    pub open spec fn context_number(self) -> Option<LoaderContextId> {
        match self {
            RegisteredLink::DynamicUProbe { context, .. } => Some(context),
            _ => None,
        }
    }

    /// The symbol that the link probes for its loader context.
    pub open spec fn export_identity(self) -> Option<DynamicExportIdentity> {
        match self {
            RegisteredLink::DynamicUProbe { object, file_offset, cookie, abi: Some(abi), .. } =>
                Some(DynamicExportIdentity { object, file_offset, cookie, abi }),
            _ => None,
        }
    }

    /// Whether the link feeds the maps from a kernel event.
    pub open spec fn is_tracepoint(self) -> bool {
        self is TracePoint
    }

    /// When the link is detached, among others.
    pub open spec fn rank(self) -> int {
        detach_rank(self.is_tracepoint(), self.program_name())
    }

    /// The program that feeds the maps through the link.
    pub fn producer(&self) -> (r: ProducerProgram)
        ensures
            match r {
                ProducerProgram::UProbe(name) => !self.is_tracepoint() && name@
                    == self.program_name(),
                ProducerProgram::TracePoint(name) => self.is_tracepoint() && name@
                    == self.program_name(),
            },
    {
        match self {
            RegisteredLink::UProbe { program, .. } => ProducerProgram::UProbe(*program),
            RegisteredLink::DynamicUProbe { program, .. } => ProducerProgram::UProbe(*program),
            RegisteredLink::TracePoint { program, .. } => ProducerProgram::TracePoint(*program),
        }
    }

    /// The slot of the link.
    pub fn slot(&self) -> (r: Option<u32>)
        ensures
            r == self.slot_number(),
    {
        match self {
            RegisteredLink::UProbe { slot, .. } => Some(*slot),
            _ => None,
        }
    }

    /// The loader context of the link.
    pub fn context(&self) -> (r: Option<LoaderContextId>)
        ensures
            r == self.context_number(),
    {
        match self {
            RegisteredLink::DynamicUProbe { context, .. } => Some(*context),
            _ => None,
        }
    }

    /// The symbol that the link probes for its loader context.
    pub fn export(&self) -> (r: Option<DynamicExportIdentity>)
        ensures
            r == self.export_identity(),
    {
        match self {
            RegisteredLink::DynamicUProbe { object, file_offset, cookie, abi, .. } => {
                match abi {
                    Some(abi) => Some(
                        DynamicExportIdentity {
                            object: *object,
                            file_offset: *file_offset,
                            cookie: *cookie,
                            abi: *abi,
                        },
                    ),
                    None => None,
                }
            },
            _ => None,
        }
    }
}

/// When a program is detached, among others: entry probes first, then the creation of processes,
/// then return probes, and everything else last.
pub open spec fn detach_rank(tracepoint: bool, name: Text) -> int {
    if tracepoint {
        if name == "task_newtask"@ {
            4
        } else {
            6
        }
    } else if name == "p11_entry"@ {
        0
    } else if name == "p11_entry_template"@ {
        1
    } else if name == "p11_entry_template_types"@ {
        2
    } else if name == "p11_entry_template_pair"@ {
        3
    } else if name == "p11_return"@ {
        5
    } else {
        6
    }
}

impl ProducerProgram {
    /// When the program is detached, among others.
    pub open spec fn rank(self) -> int {
        match self {
            ProducerProgram::UProbe(name) => detach_rank(false, name@),
            ProducerProgram::TracePoint(name) => detach_rank(true, name@),
        }
    }

    /// Works out when the program is detached, among others.
    pub fn detach_turn(&self) -> (r: u8)
        ensures
            r == self.rank(),
            r <= 6,
    {
        match self {
            ProducerProgram::TracePoint(name) => if same(*name, "task_newtask") {
                4
            } else {
                6
            },
            ProducerProgram::UProbe(name) => if same(*name, "p11_entry") {
                0
            } else if same(*name, "p11_entry_template") {
                1
            } else if same(*name, "p11_entry_template_types") {
                2
            } else if same(*name, "p11_entry_template_pair") {
                3
            } else if same(*name, "p11_return") {
                5
            } else {
                6
            },
        }
    }
}

/// The positions among the first `n` programs that have one turn.
pub open spec fn with_turn(programs: Seq<ProducerProgram>, turn: int, n: int) -> Seq<usize>
    decreases n,
{
    if n <= 0 {
        Seq::empty()
    } else if programs[n - 1].rank() == turn {
        with_turn(programs, turn, n - 1).push((n - 1) as usize)
    } else {
        with_turn(programs, turn, n - 1)
    }
}

/// The positions of programs in the order of their first `turns` turns; those with one turn stay in
/// their own order.
pub open spec fn by_turn(programs: Seq<ProducerProgram>, turns: int) -> Seq<usize>
    decreases turns,
{
    if turns <= 0 {
        Seq::empty()
    } else {
        by_turn(programs, turns - 1) + with_turn(programs, turns - 1, programs.len() as int)
    }
}

/// Works out in what order programs are detached. Every one of them is, once.
pub fn detach_order(programs: &Vec<ProducerProgram>) -> (order: Vec<usize>)
    ensures
        order@ == by_turn(programs@, 7),
        forall|k: int| 0 <= k < order@.len() ==> (#[trigger] order@[k]) < programs@.len(),
        order@.len() == programs@.len(),
{
    let mut order: Vec<usize> = Vec::new();
    let mut turn: u8 = 0;
    while turn < 7
        invariant
            turn <= 7,
            order@ == by_turn(programs@, turn as int),
            forall|k: int| 0 <= k < order@.len() ==> (#[trigger] order@[k]) < programs@.len(),
        decreases 7 - turn,
    {
        let ghost before = order@;
        let mut i: usize = 0;
        assert(before + Seq::<usize>::empty() =~= before);
        while i < programs.len()
            invariant
                i <= programs@.len(),
                turn < 7,
                order@ == before + with_turn(programs@, turn as int, i as int),
                forall|k: int| 0 <= k < order@.len() ==> (#[trigger] order@[k]) < programs@.len(),
            decreases programs@.len() - i,
        {
            if programs[i].detach_turn() == turn {
                order.push(i);
                assert(order@ =~= before + with_turn(programs@, turn as int, i as int).push(i));
            }
            i += 1;
        }
        turn += 1;
    }
    proof {
        lemma_turns_cover(programs@, programs@.len() as int);
        lemma_by_turn_len(programs@);
    }
    order
}

/// How many of the first `n` programs have one of the first `turns` turns.
spec fn turns_len(programs: Seq<ProducerProgram>, turns: int, n: int) -> nat
    decreases turns,
{
    if turns <= 0 {
        0
    } else {
        turns_len(programs, turns - 1, n) + with_turn(programs, turns - 1, n).len()
    }
}

/// Every program has one of seven turns.
proof fn lemma_turns_cover(programs: Seq<ProducerProgram>, n: int)
    requires
        0 <= n <= programs.len(),
    ensures
        turns_len(programs, 7, n) == n,
    decreases n,
{
    reveal_with_fuel(turns_len, 8);
    if n > 0 {
        lemma_turns_cover(programs, n - 1);
    }
}

/// The order holds as many positions as the turns have.
proof fn lemma_by_turn_len(programs: Seq<ProducerProgram>)
    ensures
        by_turn(programs, 7).len() == turns_len(programs, 7, programs.len() as int),
{
    reveal_with_fuel(by_turn, 8);
    reveal_with_fuel(turns_len, 8);
}

/// No program is detached before one whose turn is earlier.
pub proof fn lemma_detach_order(programs: Seq<ProducerProgram>, turns: int, a: int, b: int)
    requires
        programs.len() <= usize::MAX,
        0 <= a < b < by_turn(programs, turns).len(),
    ensures
        ({
            let order = by_turn(programs, turns);
            &&& 0 <= order[a] < programs.len()
            &&& 0 <= order[b] < programs.len()
            &&& programs[order[a] as int].rank() <= programs[order[b] as int].rank()
            &&& programs[order[a] as int].rank() == programs[order[b] as int].rank() ==> order[a]
                < order[b]
        }),
    decreases turns,
{
    if turns > 0 {
        let before = by_turn(programs, turns - 1);
        let last = with_turn(programs, turns - 1, programs.len() as int);
        if b < before.len() {
            lemma_detach_order(programs, turns - 1, a, b);
        } else {
            lemma_with_turn(programs, turns - 1, programs.len() as int, b - before.len());
            if a < before.len() {
                lemma_earlier_turns(programs, turns - 1, a);
            } else {
                lemma_with_turn(programs, turns - 1, programs.len() as int, a - before.len());
                lemma_with_turn_grows(
                    programs,
                    turns - 1,
                    programs.len() as int,
                    a - before.len(),
                    b - before.len(),
                );
            }
        }
    }
}

/// Every position with one turn is a program with that turn.
proof fn lemma_with_turn(programs: Seq<ProducerProgram>, turn: int, n: int, k: int)
    requires
        0 <= n <= programs.len() <= usize::MAX,
        0 <= k < with_turn(programs, turn, n).len(),
    ensures
        0 <= with_turn(programs, turn, n)[k] < n,
        programs[with_turn(programs, turn, n)[k] as int].rank() == turn,
    decreases n,
{
    if n > 0 {
        if k < with_turn(programs, turn, n - 1).len() {
            lemma_with_turn(programs, turn, n - 1, k);
        }
    }
}

/// Positions with one turn grow.
proof fn lemma_with_turn_grows(
    programs: Seq<ProducerProgram>,
    turn: int,
    n: int,
    a: int,
    b: int,
)
    requires
        0 <= n <= programs.len() <= usize::MAX,
        0 <= a < b < with_turn(programs, turn, n).len(),
    ensures
        with_turn(programs, turn, n)[a] < with_turn(programs, turn, n)[b],
    decreases n,
{
    if n > 0 {
        let before = with_turn(programs, turn, n - 1);
        if b < before.len() {
            lemma_with_turn_grows(programs, turn, n - 1, a, b);
        } else {
            lemma_with_turn(programs, turn, n - 1, a);
        }
    }
}

/// Every position of the first turns is a program with one of them.
proof fn lemma_earlier_turns(programs: Seq<ProducerProgram>, turns: int, a: int)
    requires
        programs.len() <= usize::MAX,
        0 <= a < by_turn(programs, turns).len(),
    ensures
        0 <= by_turn(programs, turns)[a] < programs.len(),
        programs[by_turn(programs, turns)[a] as int].rank() < turns,
    decreases turns,
{
    if turns > 0 {
        let before = by_turn(programs, turns - 1);
        if a < before.len() {
            lemma_earlier_turns(programs, turns - 1, a);
        } else {
            lemma_with_turn(programs, turns - 1, programs.len() as int, a - before.len());
        }
    }
}

/// The producers that a capture detaches at its end, in order, where each program is detached as a
/// whole.
pub fn producer_order(unsafe_decoders: bool, fork_attached: bool) -> (order: Vec<ProducerProgram>)
    ensures
        order@.len() == 2 + (if unsafe_decoders {
            3int
        } else {
            0int
        }) + (if fork_attached {
            1int
        } else {
            0int
        }),
        forall|i: int|
            0 <= i < order@.len() ==> (#[trigger] order@[i]).rank() == producer_turn(
                unsafe_decoders,
                fork_attached,
                i,
            ),
{
    let mut order: Vec<ProducerProgram> = Vec::new();
    proof {
        lemma_names();
    }
    order.push(ProducerProgram::UProbe("p11_entry"));
    if unsafe_decoders {
        order.push(ProducerProgram::UProbe("p11_entry_template"));
        order.push(ProducerProgram::UProbe("p11_entry_template_types"));
        order.push(ProducerProgram::UProbe("p11_entry_template_pair"));
    }
    if fork_attached {
        order.push(ProducerProgram::TracePoint("task_newtask"));
    }
    order.push(ProducerProgram::UProbe("p11_return"));
    order
}

/// The turn of the producer at a position of the order at the end of a capture.
pub open spec fn producer_turn(unsafe_decoders: bool, fork_attached: bool, i: int) -> int {
    if i == 0 {
        0
    } else if unsafe_decoders && i <= 3 {
        i
    } else if fork_attached && i == if unsafe_decoders {
        4int
    } else {
        1int
    } {
        4
    } else {
        5
    }
}

/// The names of the programs differ.
proof fn lemma_names()
    ensures
        detach_rank(false, "p11_entry"@) == 0,
        detach_rank(false, "p11_entry_template"@) == 1,
        detach_rank(false, "p11_entry_template_types"@) == 2,
        detach_rank(false, "p11_entry_template_pair"@) == 3,
        detach_rank(true, "task_newtask"@) == 4,
        detach_rank(false, "p11_return"@) == 5,
{
    reveal_strlit("p11_entry");
    reveal_strlit("p11_entry_template");
    reveal_strlit("p11_entry_template_types");
    reveal_strlit("p11_entry_template_pair");
    reveal_strlit("p11_return");
    assert("p11_entry"@.len() == 9);
    assert("p11_entry_template"@.len() == 18);
    assert("p11_entry_template_types"@.len() == 24);
    assert("p11_entry_template_pair"@.len() == 23);
    assert("p11_return"@.len() == 10);
}

/// Goes on after a failure, and reports the first: what a row of detachments comes to.
pub open spec fn first_failure(results: Seq<Result<(), String>>, n: int) -> Option<Text>
    decreases n,
{
    if n <= 0 {
        None
    } else {
        match first_failure(results, n - 1) {
            Some(message) => Some(message),
            None => match results[n - 1] {
                Err(message) => Some(message@),
                Ok(()) => None,
            },
        }
    }
}

/// The failures among the first `n` results.
pub open spec fn failures_of(results: Seq<Result<(), String>>, n: int) -> Seq<Text>
    decreases n,
{
    if n <= 0 {
        Seq::empty()
    } else {
        match results[n - 1] {
            Err(message) => failures_of(results, n - 1).push(message@),
            Ok(()) => failures_of(results, n - 1),
        }
    }
}

/// The symbols probed for a loader context by the first `n` links, each once, in order.
pub open spec fn exports_for(
    links: Seq<(LoaderContextId, Option<DynamicExportIdentity>)>,
    context: LoaderContextId,
    n: int,
) -> Seq<DynamicExportIdentity>
    decreases n,
{
    if n <= 0 {
        Seq::empty()
    } else {
        let before = exports_for(links, context, n - 1);
        match links[n - 1] {
            (linked, Some(export)) => if linked == context && !before.contains(export) {
                before.push(export)
            } else {
                before
            },
            _ => before,
        }
    }
}

/// Tells whether two symbols are the same.
fn same_export(a: &DynamicExportIdentity, b: &DynamicExportIdentity) -> (r: bool)
    ensures
        r == (*a == *b),
{
    a.object == b.object && a.file_offset == b.file_offset && a.cookie == b.cookie && a.abi
        == b.abi
}

/// Tells whether a symbol is listed.
fn lists_export(list: &Vec<DynamicExportIdentity>, export: &DynamicExportIdentity) -> (r: bool)
    ensures
        r == list@.contains(*export),
{
    let mut i: usize = 0;
    while i < list.len()
        invariant
            i <= list@.len(),
            forall|j: int| 0 <= j < i ==> list@[j] != *export,
        decreases list@.len() - i,
    {
        if same_export(&list[i], export) {
            return true;
        }
        i += 1;
    }
    false
}

/// The symbols probed for a loader context, each once, in the order in which they were first probed.
pub fn dynamic_export_snapshot_with(
    links: &Vec<(LoaderContextId, Option<DynamicExportIdentity>)>,
    context: LoaderContextId,
) -> (snapshot: Vec<DynamicExportIdentity>)
    ensures
        snapshot@ == exports_for(links@, context, links@.len() as int),
        snapshot@.no_duplicates(),
{
    let mut snapshot: Vec<DynamicExportIdentity> = Vec::new();
    let mut i: usize = 0;
    while i < links.len()
        invariant
            i <= links@.len(),
            snapshot@ == exports_for(links@, context, i as int),
            snapshot@.no_duplicates(),
        decreases links@.len() - i,
    {
        if links[i].0 == context {
            if let Some(export) = &links[i].1 {
                if !lists_export(&snapshot, export) {
                    snapshot.push(*export);
                }
            }
        }
        i += 1;
    }
    snapshot
}

} // verus!
