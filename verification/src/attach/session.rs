//! What a session remembers of its probes: the links that it owns, what was attached, and what
//! failed. Failures are reported as gaps in the evidence, never taken as zero calls.

use crate::attach::laws::{lemma_only_the_meant_are_taken, parts_links};
use crate::attach::links::{
    by_turn, detach_order, dynamic_export_snapshot_with, exports_for, failures_of, first_failure,
    DynamicExportIdentity, ProducerProgram, RegisteredLink,
};
use crate::attach::policy::{CapturePolicy, PauseKey};
use crate::attach::probes::{export_names, export_programs, failure_texts, AttachOutcome, Slot};
use crate::discovery::hooks::HookAbi;
use crate::discovery::loader::{LoaderContextId, PinnedObjectId};
use crate::text::{concat3, decimal, digits, push_text, same, texts, Text};
use std::collections::BTreeSet;
use vstd::prelude::*;
use vstd::std_specs::iter::IteratorSpec;
use vstd::string::*;

verus! {

/// Which links are meant.
#[derive(Debug)]
pub enum Selection {
    /// Every link.
    All,
    /// The links of a loader context.
    Context(LoaderContextId),
    /// The links of some slots.
    Slots(Vec<u32>),
}

/// Whether a link is meant.
pub open spec fn selects(selection: Selection, link: RegisteredLink) -> bool {
    match selection {
        Selection::All => true,
        Selection::Context(context) => link.context_number() == Some(context),
        Selection::Slots(slots) => match link.slot_number() {
            Some(slot) => slots@.contains(slot),
            None => false,
        },
    }
}

/// Tells whether a number is listed.
pub fn lists(list: &Vec<u32>, n: u32) -> (r: bool)
    ensures
        r == list@.contains(n),
{
    let mut i: usize = 0;
    while i < list.len()
        invariant
            i <= list@.len(),
            forall|j: int| 0 <= j < i ==> list@[j] != n,
        decreases list@.len() - i,
    {
        if list[i] == n {
            return true;
        }
        i += 1;
    }
    false
}

impl Selection {
    /// Tells whether a link is meant.
    fn meets(&self, link: &RegisteredLink) -> (r: bool)
        ensures
            r == selects(*self, *link),
    {
        match self {
            Selection::All => true,
            Selection::Context(context) => match link.context() {
                Some(linked) => linked == *context,
                None => false,
            },
            Selection::Slots(slots) => match link.slot() {
                Some(slot) => lists(slots, slot),
                None => false,
            },
        }
    }
}

/// The links among the first `n` that are meant, or that are not.
pub open spec fn chosen(
    links: Seq<RegisteredLink>,
    selection: Selection,
    meant: bool,
    n: int,
) -> Seq<RegisteredLink>
    decreases n,
{
    if n <= 0 {
        Seq::empty()
    } else if selects(selection, links[n - 1]) == meant {
        chosen(links, selection, meant, n - 1).push(links[n - 1])
    } else {
        chosen(links, selection, meant, n - 1)
    }
}

/// Whether programs are those of links.
pub open spec fn programs_are(programs: Seq<ProducerProgram>, links: Seq<RegisteredLink>) -> bool {
    &&& programs.len() == links.len()
    &&& forall|i: int| 0 <= i < links.len() ==> (#[trigger] programs[i]).rank() == links[i].rank()
}

/// The links of one turn among the first `n`.
pub open spec fn links_with_turn(links: Seq<RegisteredLink>, turn: int, n: int) -> Seq<
    RegisteredLink,
>
    decreases n,
{
    if n <= 0 {
        Seq::empty()
    } else if links[n - 1].rank() == turn {
        links_with_turn(links, turn, n - 1).push(links[n - 1])
    } else {
        links_with_turn(links, turn, n - 1)
    }
}

/// Links in the order of their first `turns` turns; those with one turn stay in their own order.
pub open spec fn links_by_turn(links: Seq<RegisteredLink>, turns: int) -> Seq<RegisteredLink>
    decreases turns,
{
    if turns <= 0 {
        Seq::empty()
    } else {
        links_by_turn(links, turns - 1) + links_with_turn(links, turns - 1, links.len() as int)
    }
}

/// Positions of one turn lead to the links of that turn.
proof fn lemma_turn_links(
    programs: Seq<ProducerProgram>,
    links: Seq<RegisteredLink>,
    turn: int,
    n: int,
)
    requires
        programs_are(programs, links),
        0 <= n <= links.len() <= usize::MAX,
    ensures
        crate::attach::links::with_turn(programs, turn, n).map_values(|i: usize| links[i as int])
            == links_with_turn(links, turn, n),
    decreases n,
{
    if n > 0 {
        lemma_turn_links(programs, links, turn, n - 1);
        assert(programs[n - 1].rank() == links[n - 1].rank());
    }
    assert(crate::attach::links::with_turn(programs, turn, n).map_values(
        |i: usize| links[i as int],
    ) =~= links_with_turn(links, turn, n));
}

/// The order of positions leads to the order of links.
proof fn lemma_turns_links(programs: Seq<ProducerProgram>, links: Seq<RegisteredLink>, turns: int)
    requires
        programs_are(programs, links),
        links.len() <= usize::MAX,
    ensures
        by_turn(programs, turns).map_values(|i: usize| links[i as int]) == links_by_turn(
            links,
            turns,
        ),
    decreases turns,
{
    if turns > 0 {
        lemma_turns_links(programs, links, turns - 1);
        lemma_turn_links(programs, links, turns - 1, links.len() as int);
    }
    assert(by_turn(programs, turns).map_values(|i: usize| links[i as int]) =~= links_by_turn(
        links,
        turns,
    ));
}

/// Puts links into the order in which they are detached.
fn order_links(links: &Vec<RegisteredLink>) -> (ordered: Vec<RegisteredLink>)
    ensures
        ordered@ == links_by_turn(links@, 7),
        ordered@.len() == links@.len(),
{
    let mut programs: Vec<ProducerProgram> = Vec::new();
    let mut i: usize = 0;
    while i < links.len()
        invariant
            i <= links@.len(),
            programs@.len() == i,
            forall|j: int| 0 <= j < i ==> (#[trigger] programs@[j]).rank() == links@[j].rank(),
        decreases links@.len() - i,
    {
        programs.push(links[i].producer());
        i += 1;
    }
    let order = detach_order(&programs);
    let mut ordered: Vec<RegisteredLink> = Vec::new();
    let mut k: usize = 0;
    while k < order.len()
        invariant
            k <= order@.len(),
            ordered@.len() == k,
            programs@.len() == links@.len(),
            forall|j: int| 0 <= j < order@.len() ==> (#[trigger] order@[j]) < programs@.len(),
            forall|j: int| 0 <= j < k ==> #[trigger] ordered@[j] == links@[order@[j] as int],
        decreases order@.len() - k,
    {
        ordered.push(links[order[k]]);
        k += 1;
    }
    proof {
        lemma_turns_links(programs@, links@, 7);
        assert(ordered@ =~= order@.map_values(|i: usize| links@[i as int]));
    }
    ordered
}

/// What a session remembers.
#[derive(Debug)]
pub struct Session {
    pub attach_failures: Vec<(u32, String)>,
    pub detach_failures: Vec<String>,
    /// Whether every producer was detached: only then is there an end to what they wrote.
    pub producers_detached: bool,
    /// The slots that had a return probe at some time.
    pub return_history: BTreeSet<u32>,
    /// The slots that had an entry probe at some time.
    pub entry_history: BTreeSet<u32>,
    /// Whether any probe of a loader context was ever attached.
    pub dynamic_attached: bool,
    pub policy: CapturePolicy,
    pub pause_key: Option<PauseKey>,
    pub lifecycle_unavailable: Option<String>,
    pub process_creation_unavailable: Option<String>,
    pub links: Vec<RegisteredLink>,
}

/// What a session that was started on trial can track: the lifecycle of processes, and everything
/// in its scope.
#[derive(Clone, Copy, Debug, PartialEq, Eq, Structural)]
pub struct AttachPreflight {
    pub lifecycle: bool,
    pub scope: bool,
}

/// Whether two sessions agree in everything but their links and what failed at detaching.
pub open spec fn same_but_links(a: Session, b: Session) -> bool {
    &&& a.attach_failures == b.attach_failures
    &&& a.return_history == b.return_history
    &&& a.entry_history == b.entry_history
    &&& a.dynamic_attached == b.dynamic_attached
    &&& a.policy == b.policy
    &&& a.pause_key == b.pause_key
    &&& a.lifecycle_unavailable == b.lifecycle_unavailable
    &&& a.process_creation_unavailable == b.process_creation_unavailable
}

/// Whether a link is the probe of a loader context that is meant.
pub open spec fn is_dynamic(
    link: RegisteredLink,
    context: LoaderContextId,
    program: Text,
    object: PinnedObjectId,
    file_offset: u64,
    cookie: u64,
) -> bool {
    match link {
        RegisteredLink::DynamicUProbe {
            program: p,
            context: c,
            object: o,
            file_offset: f,
            cookie: k,
            ..
        } => p@ == program && c == context && o == object && f == file_offset && k == cookie,
        _ => false,
    }
}

/// Whether any of the links is the probe of a loader context that is meant.
pub open spec fn has_dynamic(
    links: Seq<RegisteredLink>,
    context: LoaderContextId,
    program: Text,
    object: PinnedObjectId,
    file_offset: u64,
    cookie: u64,
) -> bool {
    exists|i: int|
        0 <= i < links.len() && is_dynamic(
            #[trigger] links[i],
            context,
            program,
            object,
            file_offset,
            cookie,
        )
}

/// Whether any of the links serves a slot.
pub open spec fn has_slot(links: Seq<RegisteredLink>, slot: u32) -> bool {
    exists|i: int| 0 <= i < links.len() && (#[trigger] links[i]).slot_number() == Some(slot)
}

/// The first of the first `n` slots whose number an earlier one has.
pub open spec fn repeated(slots: Seq<Slot>, n: int) -> Option<u32>
    decreases n,
{
    if n <= 0 {
        None
    } else {
        match repeated(slots, n - 1) {
            Some(index) => Some(index),
            None => if exists|i: int|
                0 <= i < n - 1 && (#[trigger] slots[i]).index == slots[n - 1].index {
                Some(slots[n - 1].index)
            } else {
                None
            },
        }
    }
}

/// The first of the first `n` slots that a link serves.
pub open spec fn linked(slots: Seq<Slot>, links: Seq<RegisteredLink>, n: int) -> Option<u32>
    decreases n,
{
    if n <= 0 {
        None
    } else {
        match linked(slots, links, n - 1) {
            Some(index) => Some(index),
            None => if has_slot(links, slots[n - 1].index) {
                Some(slots[n - 1].index)
            } else {
                None
            },
        }
    }
}

/// Why slots cannot be attached to.
pub open spec fn target_fault(slots: Seq<Slot>, links: Seq<RegisteredLink>) -> Option<Text> {
    let n = slots.len() as int;
    match repeated(slots, n) {
        Some(index) => Some(
            "slot "@ + digits(index as nat) + " was requested for attachment twice"@,
        ),
        None => match linked(slots, links, n) {
            Some(index) => Some(
                "slot "@ + digits(index as nat) + " already has an owned probe link"@,
            ),
            None => None,
        },
    }
}

/// The links of a session, each with its loader context and the symbol that it probes; a link
/// without a loader context stands with the one asked for.
pub open spec fn link_exports(links: Seq<RegisteredLink>, context: LoaderContextId) -> Seq<
    (LoaderContextId, Option<DynamicExportIdentity>),
> {
    links.map_values(
        |link: RegisteredLink|
            (
                match link.context_number() {
                    Some(linked) => linked,
                    None => context,
                },
                link.export_identity(),
            ),
    )
}

/// The first of the slots that a link serves.
fn find_linked(slots: &Vec<Slot>, links: &Vec<RegisteredLink>) -> (r: Option<u32>)
    ensures
        r == linked(slots@, links@, slots@.len() as int),
{
    let mut i: usize = 0;
    while i < slots.len()
        invariant
            i <= slots@.len(),
            linked(slots@, links@, i as int) is None,
        decreases slots@.len() - i,
    {
        if serves_slot(links, slots[i].index) {
            proof {
                lemma_linked_stays(slots@, links@, i + 1, slots@.len() as int);
            }
            return Some(slots[i].index);
        }
        i += 1;
    }
    None
}

/// A slot found to be served stays the first.
proof fn lemma_linked_stays(slots: Seq<Slot>, links: Seq<RegisteredLink>, n: int, m: int)
    requires
        n <= m,
        linked(slots, links, n) is Some,
    ensures
        linked(slots, links, m) == linked(slots, links, n),
    decreases m - n,
{
    if n < m {
        lemma_linked_stays(slots, links, n, m - 1);
    }
}

/// A slot found to be repeated stays the first.
proof fn lemma_repeated_stays(slots: Seq<Slot>, n: int, m: int)
    requires
        n <= m,
        repeated(slots, n) is Some,
    ensures
        repeated(slots, m) == repeated(slots, n),
    decreases m - n,
{
    if n < m {
        lemma_repeated_stays(slots, n, m - 1);
    }
}

/// The first of the slots whose number an earlier one has.
fn find_repeated(slots: &Vec<Slot>) -> (r: Option<u32>)
    ensures
        r == repeated(slots@, slots@.len() as int),
{
    let mut i: usize = 0;
    while i < slots.len()
        invariant
            i <= slots@.len(),
            repeated(slots@, i as int) is None,
        decreases slots@.len() - i,
    {
        let mut j: usize = 0;
        while j < i
            invariant
                j <= i < slots@.len(),
                repeated(slots@, i as int) is None,
                forall|k: int|
                    0 <= k < j ==> (#[trigger] slots@[k]).index != slots@[i as int].index,
            decreases i - j,
        {
            if slots[j].index == slots[i].index {
                proof {
                    assert(slots@[j as int].index == slots@[i as int].index);
                    lemma_repeated_stays(slots@, i + 1, slots@.len() as int);
                }
                return Some(slots[i].index);
            }
            j += 1;
        }
        i += 1;
    }
    None
}

/// Tells whether any of the links serves a slot.
pub(crate) fn serves_slot(links: &Vec<RegisteredLink>, slot: u32) -> (r: bool)
    ensures
        r == has_slot(links@, slot),
{
    let mut i: usize = 0;
    while i < links.len()
        invariant
            i <= links@.len(),
            forall|j: int| 0 <= j < i ==> (#[trigger] links@[j]).slot_number() != Some(slot),
        decreases links@.len() - i,
    {
        if let Some(linked) = links[i].slot() {
            if linked == slot {
                assert(links@[i as int].slot_number() == Some(slot));
                return true;
            }
        }
        i += 1;
    }
    false
}

/// Numbers with those of a set.
fn extend_history(history: &mut BTreeSet<u32>, more: &BTreeSet<u32>)
    ensures
        final(history)@ == old(history)@.union(more@),
{
    broadcast use vstd::std_specs::btree::group_btree_axioms;

    let items = more.iter();
    let ghost listed = IteratorSpec::remaining(&items);
    assert(listed.unref().to_set() == more@);
    assert forall|i: int| 0 <= i < listed.len() implies more@.contains(*(#[trigger] listed[i])) by {
        assert(listed.unref()[i] == *listed[i]);
    }
    assert forall|k: u32| #[trigger] more@.contains(k) implies listed.contains(&k) by {
        assert(listed.unref().contains(k));
        let i = choose|i: int| 0 <= i < listed.unref().len() && listed.unref()[i] == k;
        assert(listed[i] == &k);
    }
    for item in iter: items
        invariant
            iter.seq() == listed,
            forall|i: int| 0 <= i < listed.len() ==> more@.contains(*(#[trigger] listed[i])),
            forall|k: u32|
                #[trigger] history@.contains(k) <==> old(history)@.contains(k) || exists|i: int|
                    0 <= i < iter.index() && *(#[trigger] listed[i]) == k,
    {
        assert(listed[iter.index()] == item);
        let ghost before = history@;
        history.insert(*item);
        assert forall|k: u32| #[trigger] history@.contains(k) <==> old(history)@.contains(k)
            || exists|i: int| 0 <= i < iter.index() + 1 && *(#[trigger] listed[i]) == k by {
            if history@.contains(k) && !before.contains(k) {
                assert(*listed[iter.index()] == k);
            }
            if before.contains(k) && !old(history)@.contains(k) {
                let i = choose|i: int| 0 <= i < iter.index() && *(#[trigger] listed[i]) == k;
                assert(*listed[i] == k);
            }
        }
    }
    assert(history@ =~= old(history)@.union(more@)) by {
        assert forall|k: u32| history@.contains(k) == old(history)@.union(more@).contains(k) by {
            if more@.contains(k) {
                assert(listed.contains(&k));
                let i = choose|i: int| 0 <= i < listed.len() && listed[i] == &k;
                assert(*listed[i] == k);
            }
        }
    }
}

impl Session {
    /// A session without probes of slots.
    pub fn new(
        policy: CapturePolicy,
        pause_key: Option<PauseKey>,
        lifecycle_unavailable: Option<String>,
        process_creation_unavailable: Option<String>,
        links: Vec<RegisteredLink>,
    ) -> (r: Self)
        ensures
            r.attach_failures@.len() == 0,
            r.detach_failures@.len() == 0,
            !r.producers_detached,
            r.return_history@ == Set::<u32>::empty(),
            r.entry_history@ == Set::<u32>::empty(),
            !r.dynamic_attached,
            r.policy == policy,
            r.pause_key == pause_key,
            r.lifecycle_unavailable == lifecycle_unavailable,
            r.process_creation_unavailable == process_creation_unavailable,
            r.links == links,
    {
        Session {
            attach_failures: Vec::new(),
            detach_failures: Vec::new(),
            producers_detached: false,
            return_history: BTreeSet::new(),
            entry_history: BTreeSet::new(),
            dynamic_attached: false,
            policy,
            pause_key,
            lifecycle_unavailable,
            process_creation_unavailable,
            links,
        }
    }

    /// What the capture records.
    pub fn capture_policy(&self) -> (r: CapturePolicy)
        ensures
            r == self.policy,
    {
        self.policy
    }

    /// Tells whether slots can be attached to: none twice, and none that is served already.
    pub fn check_targets(&self, targets: &Vec<Slot>) -> (r: Result<(), String>)
        ensures
            match target_fault(targets@, self.links@) {
                None => r is Ok,
                Some(message) => r matches Err(given) && given@ == message,
            },
    {
        if let Some(index) = find_repeated(targets) {
            return Err(
                concat3(
                    "slot ",
                    decimal(index as u64).as_str(),
                    " was requested for attachment twice",
                ),
            );
        }
        if let Some(index) = find_linked(targets, &self.links) {
            return Err(
                concat3(
                    "slot ",
                    decimal(index as u64).as_str(),
                    " already has an owned probe link",
                ),
            );
        }
        Ok(())
    }

    /// Remembers a probe of a slot.
    pub fn register_probe(&mut self, program: &'static str, slot: u32, id: u64)
        ensures
            same_but_links(*final(self), *old(self)),
            final(self).detach_failures == old(self).detach_failures,
            final(self).producers_detached == old(self).producers_detached,
            final(self).links@ == old(self).links@.push(
                RegisteredLink::UProbe { program, slot, id },
            ),
    {
        self.links.push(RegisteredLink::UProbe { program, slot, id });
    }

    /// Remembers what came of attaching to slots. Gives the slots that failed, and those that are
    /// served on both sides.
    pub fn record_outcome(&mut self, outcome: AttachOutcome) -> (r: (
        Vec<u32>,
        Vec<(u32, Option<u64>)>,
    ))
        ensures
            final(self).return_history@ == old(self).return_history@.union(outcome.returned_slots()),
            final(self).entry_history@ == old(self).entry_history@.union(outcome.entered_slots()),
            final(self).attach_failures@ == old(self).attach_failures@ + outcome.failures@,
            r.0@ == outcome.failures@.map_values(|f: (u32, String)| f.0),
            r.1 == outcome.completed,
            final(self).links == old(self).links,
            final(self).detach_failures == old(self).detach_failures,
            final(self).producers_detached == old(self).producers_detached,
            final(self).dynamic_attached == old(self).dynamic_attached,
            final(self).policy == old(self).policy,
            final(self).pause_key == old(self).pause_key,
            final(self).lifecycle_unavailable == old(self).lifecycle_unavailable,
            final(self).process_creation_unavailable == old(self).process_creation_unavailable,
    {
        extend_history(&mut self.return_history, &outcome.exits);
        extend_history(&mut self.entry_history, &outcome.entries);
        let mut failed: Vec<u32> = Vec::new();
        let mut rest = outcome.failures;
        let ghost all = rest@;
        let ghost mut n: int = 0;
        assert(all.skip(0) =~= all);
        assert(old(self).attach_failures@ + all.take(0) =~= old(self).attach_failures@);
        while rest.len() > 0
            invariant
                0 <= n <= all.len(),
                rest@ == all.skip(n),
                failed@.len() == n,
                forall|j: int| 0 <= j < n ==> #[trigger] failed@[j] == all[j].0,
                self.attach_failures@ == old(self).attach_failures@ + all.take(n),
                self.return_history@ == old(self).return_history@.union(outcome.returned_slots()),
                self.entry_history@ == old(self).entry_history@.union(outcome.entered_slots()),
                self.links == old(self).links,
                self.detach_failures == old(self).detach_failures,
                self.producers_detached == old(self).producers_detached,
                self.dynamic_attached == old(self).dynamic_attached,
                self.policy == old(self).policy,
                self.pause_key == old(self).pause_key,
                self.lifecycle_unavailable == old(self).lifecycle_unavailable,
                self.process_creation_unavailable == old(self).process_creation_unavailable,
            decreases rest@.len(),
        {
            let failure = rest.remove(0);
            assert(all.skip(n)[0] == all[n]);
            failed.push(failure.0);
            self.attach_failures.push(failure);
            proof {
                n = n + 1;
            }
            assert(rest@ =~= all.skip(n));
            assert(self.attach_failures@ =~= old(self).attach_failures@ + all.take(n));
        }
        assert(all.take(n) =~= all);
        assert(failed@ =~= all.map_values(|f: (u32, String)| f.0));
        (failed, outcome.completed)
    }

    /// Remembers that a probe of a loader context was attached, or was not. What was attached once
    /// stays known, whatever becomes of the probe.
    pub fn record_dynamic_attach(&mut self, attached: bool)
        ensures
            final(self).dynamic_attached == (old(self).dynamic_attached || attached),
            final(self).links == old(self).links,
            final(self).detach_failures == old(self).detach_failures,
            final(self).attach_failures == old(self).attach_failures,
            final(self).producers_detached == old(self).producers_detached,
            final(self).return_history == old(self).return_history,
            final(self).entry_history == old(self).entry_history,
            final(self).policy == old(self).policy,
            final(self).pause_key == old(self).pause_key,
            final(self).lifecycle_unavailable == old(self).lifecycle_unavailable,
            final(self).process_creation_unavailable == old(self).process_creation_unavailable,
    {
        if attached {
            self.dynamic_attached = true;
        }
    }

    /// Tells whether a probe of a loader context is there.
    pub fn has_dynamic_link(
        &self,
        context: LoaderContextId,
        program: &str,
        object: PinnedObjectId,
        file_offset: u64,
        cookie: u64,
    ) -> (r: bool)
        ensures
            r == has_dynamic(self.links@, context, program@, object, file_offset, cookie),
    {
        let mut i: usize = 0;
        while i < self.links.len()
            invariant
                i <= self.links@.len(),
                forall|j: int|
                    0 <= j < i ==> !is_dynamic(
                        #[trigger] self.links@[j],
                        context,
                        program@,
                        object,
                        file_offset,
                        cookie,
                    ),
            decreases self.links@.len() - i,
        {
            if let RegisteredLink::DynamicUProbe {
                program: p,
                context: c,
                object: o,
                file_offset: f,
                cookie: k,
                abi: _,
                id: _,
            } = &self.links[i] {
                if same(*p, program) && *c == context && *o == object && *f == file_offset && *k
                    == cookie {
                    assert(is_dynamic(
                        self.links@[i as int],
                        context,
                        program@,
                        object,
                        file_offset,
                        cookie,
                    ));
                    return true;
                }
            }
            i += 1;
        }
        false
    }

    /// Tells whether a symbol is probed for a loader context: by its return probe, which is the
    /// last of the pair to be attached.
    pub fn has_dynamic_export(
        &self,
        context: LoaderContextId,
        target: (PinnedObjectId, u64),
        cookie: u64,
        abi: HookAbi,
    ) -> (r: bool)
        ensures
            r == has_dynamic(
                self.links@,
                context,
                export_names(abi).1,
                target.0,
                target.1,
                cookie,
            ),
    {
        let (_, return_program) = export_programs(abi);
        self.has_dynamic_link(context, return_program, target.0, target.1, cookie)
    }

    /// Remembers the probe of a loader.
    pub fn register_loader(
        &mut self,
        context: LoaderContextId,
        object: PinnedObjectId,
        file_offset: u64,
        cookie: u64,
        id: u64,
    )
        ensures
            same_but_links(*final(self), *old(self)),
            final(self).detach_failures == old(self).detach_failures,
            final(self).producers_detached == old(self).producers_detached,
            final(self).links@.len() == old(self).links@.len() + 1,
            final(self).links@.drop_last() == old(self).links@,
            is_dynamic(
                final(self).links@.last(),
                context,
                "dl_debug_state"@,
                object,
                file_offset,
                cookie,
            ),
            final(self).links@.last().export_identity() is None,
            final(self).links@.last() matches RegisteredLink::DynamicUProbe { id: given, .. }
                && given == id,
    {
        let ghost before = self.links@;
        self.links.push(
            RegisteredLink::DynamicUProbe {
                program: "dl_debug_state",
                context,
                object,
                file_offset,
                cookie,
                abi: None,
                id,
            },
        );
        assert(self.links@.drop_last() =~= before);
    }

    /// Remembers the pair of probes of a symbol: the entry probe first, so that detaching stops new
    /// state before it removes what consumes it.
    pub fn register_export(
        &mut self,
        context: LoaderContextId,
        target: (PinnedObjectId, u64),
        cookie: u64,
        abi: HookAbi,
        entry_id: u64,
        return_id: u64,
    )
        ensures
            same_but_links(*final(self), *old(self)),
            final(self).detach_failures == old(self).detach_failures,
            final(self).producers_detached == old(self).producers_detached,
            ({
                let n = old(self).links@.len() as int;
                &&& final(self).links@.len() == n + 2
                &&& final(self).links@.take(n) == old(self).links@
                &&& is_dynamic(
                    final(self).links@[n],
                    context,
                    export_names(abi).0,
                    target.0,
                    target.1,
                    cookie,
                )
                &&& is_dynamic(
                    final(self).links@[n + 1],
                    context,
                    export_names(abi).1,
                    target.0,
                    target.1,
                    cookie,
                )
                &&& final(self).links@[n].export_identity() == Some(
                    DynamicExportIdentity {
                        object: target.0,
                        file_offset: target.1,
                        cookie,
                        abi,
                    },
                )
                &&& final(self).links@[n + 1].export_identity() == final(self).links@[n].export_identity()
                &&& final(self).links@[n] matches RegisteredLink::DynamicUProbe { id, .. } && id
                    == entry_id
                &&& final(self).links@[n + 1] matches RegisteredLink::DynamicUProbe { id, .. } && id
                    == return_id
            }),
    {
        let (entry_program, return_program) = export_programs(abi);
        let ghost before = self.links@;
        self.links.push(
            RegisteredLink::DynamicUProbe {
                program: entry_program,
                context,
                object: target.0,
                file_offset: target.1,
                cookie,
                abi: Some(abi),
                id: entry_id,
            },
        );
        self.links.push(
            RegisteredLink::DynamicUProbe {
                program: return_program,
                context,
                object: target.0,
                file_offset: target.1,
                cookie,
                abi: Some(abi),
                id: return_id,
            },
        );
        assert(self.links@.take(before.len() as int) =~= before);
    }

    /// Remembers that a probe of a pair that was not completed could not be detached.
    pub fn record_partial_detach(&mut self, program: &str, error: &str)
        ensures
            texts(final(self).detach_failures@) == texts(old(self).detach_failures@).push(
                "detaching partial "@ + program@ + ": "@ + error@,
            ),
            same_but_links(*final(self), *old(self)),
            final(self).links == old(self).links,
            final(self).producers_detached == old(self).producers_detached,
    {
        let mut message = concat3("detaching partial ", program, ": ");
        message.append(error);
        push_text(&mut self.detach_failures, message);
    }

    /// The symbols probed for a loader context.
    pub fn dynamic_exports(&self, context: LoaderContextId) -> (r: Vec<DynamicExportIdentity>)
        ensures
            r@ == exports_for(
                link_exports(self.links@, context),
                context,
                self.links@.len() as int,
            ),
            r@.no_duplicates(),
    {
        let mut pairs: Vec<(LoaderContextId, Option<DynamicExportIdentity>)> = Vec::new();
        let mut i: usize = 0;
        while i < self.links.len()
            invariant
                i <= self.links@.len(),
                pairs@.len() == i,
                forall|j: int|
                    0 <= j < i ==> #[trigger] pairs@[j] == link_exports(self.links@, context)[j],
            decreases self.links@.len() - i,
        {
            let of = match self.links[i].context() {
                Some(linked) => linked,
                None => context,
            };
            pairs.push((of, self.links[i].export()));
            i += 1;
        }
        assert(pairs@ =~= link_exports(self.links@, context));
        dynamic_export_snapshot_with(&pairs, context)
    }

    /// Gives up the links that are meant, and hands them over in the order in which they are to be
    /// detached. Each is handed over once: a link that fails to detach is not tried again.
    pub fn take_links(&mut self, selection: &Selection) -> (r: Vec<RegisteredLink>)
        ensures
            r@ == links_by_turn(
                chosen(old(self).links@, *selection, true, old(self).links@.len() as int),
                7,
            ),
            final(self).links@ == chosen(
                old(self).links@,
                *selection,
                false,
                old(self).links@.len() as int,
            ),
            parts_links(old(self).links@, *selection, r@, final(self).links@),
            r@.len() + final(self).links@.len() == old(self).links@.len(),
            same_but_links(*final(self), *old(self)),
            final(self).detach_failures == old(self).detach_failures,
            final(self).producers_detached == old(self).producers_detached,
    {
        let mut selected: Vec<RegisteredLink> = Vec::new();
        let mut retained: Vec<RegisteredLink> = Vec::new();
        let mut i: usize = 0;
        while i < self.links.len()
            invariant
                i <= self.links@.len(),
                self.links == old(self).links,
                selected@ == chosen(self.links@, *selection, true, i as int),
                retained@ == chosen(self.links@, *selection, false, i as int),
                selected@.len() + retained@.len() == i,
            decreases self.links@.len() - i,
        {
            let link = self.links[i];
            if selection.meets(&link) {
                selected.push(link);
            } else {
                retained.push(link);
            }
            i += 1;
        }
        self.links = retained;
        proof {
            lemma_only_the_meant_are_taken(old(self).links@, *selection);
        }
        order_links(&selected)
    }

    /// Remembers what came of detaching links. Every failure is kept, and the first is reported.
    pub fn record_detached(&mut self, results: &Vec<Result<(), String>>) -> (r: Result<(), String>)
        ensures
            texts(final(self).detach_failures@) == texts(old(self).detach_failures@) + failures_of(
                results@,
                results@.len() as int,
            ),
            match first_failure(results@, results@.len() as int) {
                None => r is Ok,
                Some(message) => r matches Err(given) && given@ == message,
            },
            same_but_links(*final(self), *old(self)),
            final(self).links == old(self).links,
            final(self).producers_detached == old(self).producers_detached,
    {
        let mut first: Option<String> = None;
        let mut i: usize = 0;
        let ghost before = texts(self.detach_failures@);
        assert(before + Seq::<Text>::empty() =~= before);
        while i < results.len()
            invariant
                i <= results@.len(),
                texts(self.detach_failures@) == before + failures_of(results@, i as int),
                match first_failure(results@, i as int) {
                    None => first is None,
                    Some(message) => first matches Some(given) && given@ == message,
                },
                same_but_links(*self, *old(self)),
                self.links == old(self).links,
                self.producers_detached == old(self).producers_detached,
            decreases results@.len() - i,
        {
            let ghost now = failures_of(results@, i as int);
            if let Err(message) = &results[i] {
                push_text(&mut self.detach_failures, message.clone());
                assert(texts(self.detach_failures@) =~= before + now.push(message@));
                if first.is_none() {
                    first = Some(message.clone());
                }
            }
            i += 1;
        }
        match first {
            None => Ok(()),
            Some(message) => Err(message),
        }
    }

    /// Remembers what came of detaching every link. The producers are gone only where none failed.
    pub fn detach_producers(&mut self, results: &Vec<Result<(), String>>) -> (r: Result<
        (),
        String,
    >)
        ensures
            texts(final(self).detach_failures@) == texts(old(self).detach_failures@) + failures_of(
                results@,
                results@.len() as int,
            ),
            match first_failure(results@, results@.len() as int) {
                None => r is Ok,
                Some(message) => r matches Err(given) && given@ == message,
            },
            final(self).producers_detached == (r is Ok),
            same_but_links(*final(self), *old(self)),
            final(self).links == old(self).links,
    {
        let detached = self.record_detached(results);
        self.producers_detached = detached.is_ok();
        detached
    }

    /// What the session can track.
    pub fn preflight(&self) -> (r: AttachPreflight)
        ensures
            r.lifecycle == (self.lifecycle_unavailable is None),
            r.scope == (self.process_creation_unavailable is None),
    {
        AttachPreflight {
            lifecycle: self.lifecycle_unavailable.is_none(),
            scope: self.process_creation_unavailable.is_none(),
        }
    }

    /// Every probe that could not be attached, with its slot.
    pub fn attach_failures(&self) -> (r: &Vec<(u32, String)>)
        ensures
            *r == self.attach_failures,
    {
        &self.attach_failures
    }

    /// Every link that could not be detached.
    pub fn detach_failures(&self) -> (r: &Vec<String>)
        ensures
            *r == self.detach_failures,
    {
        &self.detach_failures
    }

    /// Why the lifecycle of processes is not tracked.
    pub fn lifecycle_tracking_unavailable(&self) -> (r: Option<&String>)
        ensures
            match self.lifecycle_unavailable {
                Some(why) => r == Some(&why),
                None => r is None,
            },
    {
        match &self.lifecycle_unavailable {
            Some(why) => Some(why),
            None => None,
        }
    }

    /// Why the creation of processes is not tracked.
    pub fn process_creation_tracking_unavailable(&self) -> (r: Option<&String>)
        ensures
            match self.process_creation_unavailable {
                Some(why) => r == Some(&why),
                None => r is None,
            },
    {
        match &self.process_creation_unavailable {
            Some(why) => Some(why),
            None => None,
        }
    }

    /// How many ends of slots had a probe at some time: two for a slot that is served on both sides.
    /// An end that was probed twice counts once.
    pub fn attached_probes(&self) -> (r: usize)
        requires
            self.return_history@.len() + self.entry_history@.len() <= usize::MAX,
        ensures
            r == self.return_history@.len() + self.entry_history@.len(),
    {
        broadcast use vstd::std_specs::btree::group_btree_axioms;

        self.return_history.len() + self.entry_history.len()
    }

    /// Tells whether any probe of a loader context was ever attached.
    pub fn dynamic_per_offset_attached(&self) -> (r: bool)
        ensures
            r == self.dynamic_attached,
    {
        self.dynamic_attached
    }
}

impl AttachOutcome {
    /// The slots whose return probe is there.
    pub open spec fn returned_slots(&self) -> Set<u32> {
        self.exits@
    }

    /// The slots whose entry probe is there.
    pub open spec fn entered_slots(&self) -> Set<u32> {
        self.entries@
    }
}

/// What is to be done about slots whose replacement failed.
pub open spec fn failed_slots(slots: Seq<Slot>, failed: Seq<u32>, n: int) -> Seq<u32>
    decreases n,
{
    if n <= 0 {
        Seq::empty()
    } else if failed.contains(slots[n - 1].index) {
        failed_slots(slots, failed, n - 1).push(slots[n - 1].index)
    } else {
        failed_slots(slots, failed, n - 1)
    }
}

impl Session {
    /// Tells whether slots can be replaced: their old links must be gone.
    pub fn check_replacements(&self, replace: &Vec<Slot>) -> (r: Result<(), String>)
        ensures
            match linked(replace@, self.links@, replace@.len() as int) {
                None => r is Ok,
                Some(index) => r matches Err(given) && given@ == "replacement slot "@ + digits(
                    index as nat,
                ) + " still has an old link; detach and synchronize it before reattach"@,
            },
    {
        match find_linked(replace, &self.links) {
            None => Ok(()),
            Some(index) => Err(
                concat3(
                    "replacement slot ",
                    decimal(index as u64).as_str(),
                    " still has an old link; detach and synchronize it before reattach",
                ),
            ),
        }
    }

    /// Remembers that no slot of a replacement could be attached to.
    pub fn record_replacement_failure(&mut self, replace: &Vec<Slot>, error: &str)
        ensures
            failure_texts(final(self).attach_failures@) == failure_texts(old(self).attach_failures@)
                + replace@.map_values(
                |slot: Slot| (slot.index, "replacement attach: "@ + error@),
            ),
            final(self).links == old(self).links,
            final(self).detach_failures == old(self).detach_failures,
            final(self).producers_detached == old(self).producers_detached,
            final(self).dynamic_attached == old(self).dynamic_attached,
            final(self).return_history == old(self).return_history,
            final(self).entry_history == old(self).entry_history,
            final(self).policy == old(self).policy,
            final(self).pause_key == old(self).pause_key,
            final(self).lifecycle_unavailable == old(self).lifecycle_unavailable,
            final(self).process_creation_unavailable == old(self).process_creation_unavailable,
    {
        let mut i: usize = 0;
        let ghost before = failure_texts(self.attach_failures@);
        let ghost added = replace@.map_values(
            |slot: Slot| (slot.index, "replacement attach: "@ + error@),
        );
        assert(before + added.take(0) =~= before);
        while i < replace.len()
            invariant
                i <= replace@.len(),
                added == replace@.map_values(
                    |slot: Slot| (slot.index, "replacement attach: "@ + error@),
                ),
                failure_texts(self.attach_failures@) == before + added.take(i as int),
                self.links == old(self).links,
                self.detach_failures == old(self).detach_failures,
                self.producers_detached == old(self).producers_detached,
                self.dynamic_attached == old(self).dynamic_attached,
                self.return_history == old(self).return_history,
                self.entry_history == old(self).entry_history,
                self.policy == old(self).policy,
                self.pause_key == old(self).pause_key,
                self.lifecycle_unavailable == old(self).lifecycle_unavailable,
                self.process_creation_unavailable == old(self).process_creation_unavailable,
            decreases replace@.len() - i,
        {
            let mut message = "replacement attach: ".to_owned();
            message.append(error);
            let ghost now = failure_texts(self.attach_failures@);
            let ghost entry = (replace@[i as int].index, message@);
            self.attach_failures.push((replace[i].index, message));
            assert(failure_texts(self.attach_failures@) =~= now.push(entry));
            assert(added[i as int] == entry);
            i += 1;
            assert(now.push(entry) =~= before + added.take(i as int));
        }
        assert(added.take(i as int) =~= added);
    }
}

/// The slots of a replacement that failed on either side: each must lose the probe that it may still
/// have, and is given up.
pub fn replacement_losses(replace: &Vec<Slot>, failed: &Vec<u32>) -> (r: Vec<u32>)
    ensures
        r@ == failed_slots(replace@, failed@, replace@.len() as int),
{
    let mut out: Vec<u32> = Vec::new();
    let mut i: usize = 0;
    while i < replace.len()
        invariant
            i <= replace@.len(),
            out@ == failed_slots(replace@, failed@, i as int),
        decreases replace@.len() - i,
    {
        if lists(failed, replace[i].index) {
            out.push(replace[i].index);
        }
        i += 1;
    }
    out
}

} // verus!
