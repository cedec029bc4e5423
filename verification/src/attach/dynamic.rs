//! Probing loader contexts while the capture runs: when a probe is attached, what came of it, and
//! what is taken back of a pair that was not completed.

use crate::attach::probes::{export_names, export_programs, Slot};
use crate::attach::session::{has_dynamic, has_slot, same_but_links, Session};
use crate::attach::startup::{changed_text, refuse_changed, ChangeCheck};
use crate::attach::links::{DynamicExportIdentity, RegisteredLink};
use crate::attach::session::is_dynamic;
use crate::discovery::hooks::HookAbi;
use crate::discovery::loader::{LoaderContextId, PinnedObjectId};
use crate::text::{concat3, decimal, digits, hex_digits, hexadecimal, texts, Text};
use vstd::prelude::*;
use vstd::string::*;

verus! {

/// Why a loader could not be probed.
#[derive(Debug)]
pub enum DynamicLoaderAttachFailure {
    /// The kernel refused.
    KernelUnavailable(String),
    /// The object is not, or cannot be shown to be, the one that was pinned.
    Provenance(String),
    /// The object is not pinned.
    Registry(String),
    /// The loaded object lacks the program.
    ProgramMissing,
    /// The program is of another kind.
    ProgramType(String),
    /// No process is meant.
    InvalidPid,
}

impl DynamicLoaderAttachFailure {
    /// What is reported of it.
    pub open spec fn text(self) -> Text {
        match self {
            DynamicLoaderAttachFailure::KernelUnavailable(error) => error@,
            DynamicLoaderAttachFailure::Provenance(error) => error@,
            DynamicLoaderAttachFailure::Registry(error) => error@,
            DynamicLoaderAttachFailure::ProgramMissing =>
                "program dl_debug_state missing from object"@,
            DynamicLoaderAttachFailure::ProgramType(error) => error@,
            DynamicLoaderAttachFailure::InvalidPid => "dynamic loader PID must be non-zero"@,
        }
    }

    /// Writes what is reported of it.
    pub fn render(&self) -> (r: String)
        ensures
            r@ == self.text(),
    {
        match self {
            DynamicLoaderAttachFailure::KernelUnavailable(error) => error.as_str().to_owned(),
            DynamicLoaderAttachFailure::Provenance(error) => error.as_str().to_owned(),
            DynamicLoaderAttachFailure::Registry(error) => error.as_str().to_owned(),
            DynamicLoaderAttachFailure::ProgramMissing =>
                "program dl_debug_state missing from object".to_owned(),
            DynamicLoaderAttachFailure::ProgramType(error) => error.as_str().to_owned(),
            DynamicLoaderAttachFailure::InvalidPid =>
                "dynamic loader PID must be non-zero".to_owned(),
        }
    }
}

/// What was found of a program in the loaded object.
#[derive(Debug)]
pub enum ProgramSeen {
    /// It is not there.
    Missing,
    /// It is of another kind.
    OtherType(String),
    /// It is a probe.
    Probe,
}

/// What came of attaching a probe.
#[derive(Debug)]
pub enum ProbeSeen {
    /// The program cannot be had.
    NoProgram(String),
    /// The kernel refused.
    Failed(String),
    /// It is attached, under a number.
    Attached(u64),
}

/// What came of detaching the return probe of a pair that was not completed.
#[derive(Debug)]
pub enum PartialDetach {
    /// The program cannot be had.
    NoProgram(String),
    /// The kernel refused.
    Failed(String),
    /// It is detached.
    Done,
}

/// What is next when the entry probe of a pair was tried.
#[derive(Debug)]
pub enum EntryStep {
    /// The pair is complete.
    Done,
    /// It failed, and nothing can be taken back.
    Failed(String),
    /// It failed: detach the return probe.
    DetachReturn(String),
}

/// What is reported of a probe that the kernel refused.
pub open spec fn place_failure(
    program: Text,
    object: PinnedObjectId,
    file_offset: u64,
    error: Text,
) -> Text {
    program + " at object "@ + ("PinnedObjectId("@ + digits(object.0 as nat) + ")"@) + "+0x"@
        + hex_digits(file_offset as nat) + ": "@ + error
}

fn render_place_failure(program: &str, object: PinnedObjectId, file_offset: u64, error: &str) -> (r:
    String)
    ensures
        r@ == place_failure(program@, object, file_offset, error@),
{
    let mut message = program.to_owned();
    message.append(" at object ");
    message.append(concat3("PinnedObjectId(", decimal(object.0).as_str(), ")").as_str());
    message.append("+0x");
    message.append(hexadecimal(file_offset).as_str());
    message.append(": ");
    message.append(error);
    message
}

/// What two sessions agree in but for their links, what failed at detaching, and whether a probe of
/// a loader context was attached.
pub open spec fn same_but_dynamic(a: Session, b: Session) -> bool {
    &&& a.attach_failures == b.attach_failures
    &&& a.producers_detached == b.producers_detached
    &&& a.return_history == b.return_history
    &&& a.entry_history == b.entry_history
    &&& a.policy == b.policy
    &&& a.pause_key == b.pause_key
    &&& a.lifecycle_unavailable == b.lifecycle_unavailable
    &&& a.process_creation_unavailable == b.process_creation_unavailable
}

impl Session {
    /// Tells whether a loader is to be probed now, and through which path: `None` where its probe
    /// is there already.
    pub fn plan_loader(
        &self,
        context: LoaderContextId,
        pid: u32,
        target: (PinnedObjectId, u64),
        cookie: u64,
        unchanged: Result<bool, String>,
        path: Result<String, String>,
        program: ProgramSeen,
    ) -> (r: Result<Option<String>, DynamicLoaderAttachFailure>)
        ensures
            match unchanged {
                Err(error) => r == Err::<Option<String>, _>(
                    DynamicLoaderAttachFailure::Provenance(error),
                ),
                Ok(false) => r matches Err(DynamicLoaderAttachFailure::Provenance(message))
                    && message@ == changed_text(ChangeCheck::BeforeLoader),
                Ok(true) => if has_dynamic(
                    self.links@,
                    context,
                    "dl_debug_state"@,
                    target.0,
                    target.1,
                    cookie,
                ) {
                    r == Ok::<_, DynamicLoaderAttachFailure>(None::<String>)
                } else {
                    match path {
                        Err(error) => r == Err::<Option<String>, _>(
                            DynamicLoaderAttachFailure::Registry(error),
                        ),
                        Ok(path) => match program {
                            ProgramSeen::Missing => r == Err::<Option<String>, _>(
                                DynamicLoaderAttachFailure::ProgramMissing,
                            ),
                            ProgramSeen::OtherType(error) => r == Err::<Option<String>, _>(
                                DynamicLoaderAttachFailure::ProgramType(error),
                            ),
                            ProgramSeen::Probe => if pid == 0 {
                                r == Err::<Option<String>, _>(DynamicLoaderAttachFailure::InvalidPid)
                            } else {
                                r == Ok::<_, DynamicLoaderAttachFailure>(Some(path))
                            },
                        },
                    }
                },
            },
    {
        match unchanged {
            Err(error) => return Err(DynamicLoaderAttachFailure::Provenance(error)),
            Ok(same) => {
                if let Err(error) = refuse_changed(ChangeCheck::BeforeLoader, Ok(same)) {
                    return Err(DynamicLoaderAttachFailure::Provenance(error));
                }
            },
        }
        if self.has_dynamic_link(context, "dl_debug_state", target.0, target.1, cookie) {
            return Ok(None);
        }
        let path = match path {
            Err(error) => return Err(DynamicLoaderAttachFailure::Registry(error)),
            Ok(path) => path,
        };
        match program {
            ProgramSeen::Missing => Err(DynamicLoaderAttachFailure::ProgramMissing),
            ProgramSeen::OtherType(error) => Err(DynamicLoaderAttachFailure::ProgramType(error)),
            ProgramSeen::Probe => if pid == 0 {
                Err(DynamicLoaderAttachFailure::InvalidPid)
            } else {
                Ok(Some(path))
            },
        }
    }

    /// Remembers what came of attaching the probe of a loader.
    pub fn settle_loader(
        &mut self,
        context: LoaderContextId,
        target: (PinnedObjectId, u64),
        cookie: u64,
        outcome: Result<u64, String>,
    ) -> (r: Result<bool, DynamicLoaderAttachFailure>)
        ensures
            same_but_dynamic(*final(self), *old(self)),
            final(self).detach_failures == old(self).detach_failures,
            final(self).dynamic_attached == (old(self).dynamic_attached || outcome is Ok),
            match outcome {
                Ok(id) => {
                    &&& r == Ok::<bool, DynamicLoaderAttachFailure>(true)
                    &&& final(self).links@.len() == old(self).links@.len() + 1
                    &&& final(self).links@.drop_last() == old(self).links@
                    &&& is_dynamic(
                        final(self).links@.last(),
                        context,
                        "dl_debug_state"@,
                        target.0,
                        target.1,
                        cookie,
                    )
                    &&& final(self).links@.last().export_identity() is None
                    &&& final(self).links@.last() matches RegisteredLink::DynamicUProbe {
                        id: given,
                        ..
                    } && given == id
                },
                Err(error) => {
                    &&& final(self).links == old(self).links
                    &&& r matches Err(DynamicLoaderAttachFailure::KernelUnavailable(message))
                        && message@ == place_failure("dl_debug_state"@, target.0, target.1, error@)
                },
            },
    {
        self.record_dynamic_attach(outcome.is_ok());
        match outcome {
            Ok(id) => {
                self.register_loader(context, target.0, target.1, cookie, id);
                Ok(true)
            },
            Err(error) => Err(
                DynamicLoaderAttachFailure::KernelUnavailable(
                    render_place_failure("dl_debug_state", target.0, target.1, error.as_str()),
                ),
            ),
        }
    }

    /// Tells whether a symbol is to be probed now, and through which path: `None` where its probes
    /// are there already.
    pub fn plan_export(
        &self,
        context: LoaderContextId,
        pid: u32,
        target: (PinnedObjectId, u64),
        cookie: u64,
        abi: HookAbi,
        unchanged: Result<bool, String>,
        path: Result<String, String>,
    ) -> (r: Result<Option<String>, String>)
        ensures
            match unchanged {
                Err(error) => r matches Err(message) && message@ == error@,
                Ok(false) => r matches Err(message) && message@ == changed_text(
                    ChangeCheck::BeforeExport,
                ),
                Ok(true) => if has_dynamic(
                    self.links@,
                    context,
                    export_names(abi).1,
                    target.0,
                    target.1,
                    cookie,
                ) {
                    r == Ok::<_, String>(None::<String>)
                } else {
                    match path {
                        Err(error) => r == Err::<Option<String>, _>(error),
                        Ok(path) => if pid == 0 {
                            r matches Err(message) && message@
                                == "dynamic export PID must be non-zero"@
                        } else {
                            r == Ok::<_, String>(Some(path))
                        },
                    }
                },
            },
    {
        if let Err(error) = refuse_changed(ChangeCheck::BeforeExport, unchanged) {
            return Err(error);
        }
        if self.has_dynamic_export(context, target, cookie, abi) {
            return Ok(None);
        }
        let path = match path {
            Err(error) => return Err(error),
            Ok(path) => path,
        };
        if pid == 0 {
            return Err("dynamic export PID must be non-zero".to_owned());
        }
        Ok(Some(path))
    }

    /// Remembers what came of attaching the return probe of a symbol, which is tried first.
    pub fn settle_return(
        &mut self,
        target: (PinnedObjectId, u64),
        abi: HookAbi,
        seen: ProbeSeen,
    ) -> (r: Result<u64, String>)
        ensures
            same_but_dynamic(*final(self), *old(self)),
            final(self).links == old(self).links,
            final(self).detach_failures == old(self).detach_failures,
            final(self).dynamic_attached == (old(self).dynamic_attached || seen is Attached),
            match seen {
                ProbeSeen::NoProgram(error) => r == Err::<u64, String>(error),
                ProbeSeen::Failed(error) => r matches Err(message) && message@ == place_failure(
                    export_names(abi).1,
                    target.0,
                    target.1,
                    error@,
                ),
                ProbeSeen::Attached(id) => r == Ok::<u64, String>(id),
            },
    {
        match seen {
            ProbeSeen::NoProgram(error) => Err(error),
            ProbeSeen::Failed(error) => {
                self.record_dynamic_attach(false);
                let (_, program) = export_programs(abi);
                Err(render_place_failure(program, target.0, target.1, error.as_str()))
            },
            ProbeSeen::Attached(id) => {
                self.record_dynamic_attach(true);
                Ok(id)
            },
        }
    }

    /// Remembers what came of attaching the entry probe of a symbol whose return probe is attached:
    /// the pair, if it is complete.
    pub fn settle_entry(
        &mut self,
        context: LoaderContextId,
        target: (PinnedObjectId, u64),
        cookie: u64,
        abi: HookAbi,
        return_id: u64,
        seen: ProbeSeen,
    ) -> (r: EntryStep)
        ensures
            same_but_dynamic(*final(self), *old(self)),
            final(self).detach_failures == old(self).detach_failures,
            final(self).dynamic_attached == (old(self).dynamic_attached || seen is Attached),
            match seen {
                ProbeSeen::NoProgram(error) => r == EntryStep::Failed(error) && final(self).links
                    == old(self).links,
                ProbeSeen::Failed(error) => {
                    &&& final(self).links == old(self).links
                    &&& r matches EntryStep::DetachReturn(message) && message@ == place_failure(
                        export_names(abi).0,
                        target.0,
                        target.1,
                        error@,
                    )
                },
                ProbeSeen::Attached(entry_id) => {
                    let n = old(self).links@.len() as int;
                    &&& r is Done
                    &&& final(self).links@.len() == n + 2
                    &&& final(self).links@.take(n) == old(self).links@
                    &&& is_dynamic(
                        final(self).links@[n],
                        context,
                        export_names(abi).0,
                        target.0,
                        target.1,
                        cookie,
                    )
                    &&& is_dynamic(
                        final(self).links@[n + 1],
                        context,
                        export_names(abi).1,
                        target.0,
                        target.1,
                        cookie,
                    )
                    &&& final(self).links@[n].export_identity() == Some(
                        DynamicExportIdentity {
                            object: target.0,
                            file_offset: target.1,
                            cookie,
                            abi,
                        },
                    )
                    &&& final(self).links@[n + 1].export_identity()
                        == final(self).links@[n].export_identity()
                    &&& final(self).links@[n] matches RegisteredLink::DynamicUProbe { id, .. } && id
                        == entry_id
                    &&& final(self).links@[n + 1] matches RegisteredLink::DynamicUProbe { id, .. }
                        && id == return_id
                },
            },
    {
        match seen {
            ProbeSeen::NoProgram(error) => EntryStep::Failed(error),
            ProbeSeen::Failed(error) => {
                self.record_dynamic_attach(false);
                let (program, _) = export_programs(abi);
                EntryStep::DetachReturn(
                    render_place_failure(program, target.0, target.1, error.as_str()),
                )
            },
            ProbeSeen::Attached(entry_id) => {
                self.record_dynamic_attach(true);
                self.register_export(context, target, cookie, abi, entry_id, return_id);
                EntryStep::Done
            },
        }
    }

    /// Remembers what came of detaching the return probe of a pair that was not completed, and
    /// gives what is reported of the pair.
    pub fn settle_partial(&mut self, abi: HookAbi, message: String, detached: PartialDetach) -> (r:
        String)
        ensures
            same_but_links(*final(self), *old(self)),
            final(self).links == old(self).links,
            final(self).producers_detached == old(self).producers_detached,
            match detached {
                PartialDetach::NoProgram(error) => r == error && final(self).detach_failures
                    == old(self).detach_failures,
                PartialDetach::Failed(error) => r == message && texts(final(self).detach_failures@)
                    == texts(old(self).detach_failures@).push(
                    "detaching partial "@ + export_names(abi).1 + ": "@ + error@,
                ),
                PartialDetach::Done => r == message && final(self).detach_failures
                    == old(self).detach_failures,
            },
    {
        match detached {
            PartialDetach::NoProgram(error) => error,
            PartialDetach::Failed(error) => {
                let (_, program) = export_programs(abi);
                self.record_partial_detach(program, error.as_str());
                message
            },
            PartialDetach::Done => message,
        }
    }

    /// Tells whether any link serves a slot.
    pub fn has_slot_link(&self, slot: u32) -> (r: bool)
        ensures
            r == has_slot(self.links@, slot),
    {
        crate::attach::session::serves_slot(&self.links, slot)
    }

    /// The positions of the slots of a plan that are to be attached to: those that are active and
    /// that no link serves.
    pub fn pending_targets(&self, slots: &Vec<Slot>, active: &Vec<bool>) -> (pending: Vec<usize>)
        requires
            slots@.len() == active@.len(),
        ensures
            pending@.map_values(|i: usize| i as int) == pending_from(
                slots@,
                active@,
                self.links@,
                slots@.len() as int,
            ),
    {
        let mut pending: Vec<usize> = Vec::new();
        assert(pending@.map_values(|i: usize| i as int) =~= Seq::<int>::empty());
        let mut i: usize = 0;
        while i < slots.len()
            invariant
                i <= slots@.len(),
                slots@.len() == active@.len(),
                pending@.map_values(|i: usize| i as int) == pending_from(
                    slots@,
                    active@,
                    self.links@,
                    i as int,
                ),
            decreases slots@.len() - i,
        {
            if active[i] && !self.has_slot_link(slots[i].index) {
                let ghost before = pending@;
                pending.push(i);
                assert(pending@.map_values(|i: usize| i as int) =~= before.map_values(
                    |i: usize| i as int,
                ).push(i as int));
            }
            i += 1;
        }
        pending
    }
}

/// What was probed once is not probed again: where the return probe of a symbol is among the links,
/// the symbol counts as probed, whatever links come later.
pub proof fn lemma_probed_once(
    links: Seq<RegisteredLink>,
    more: Seq<RegisteredLink>,
    context: LoaderContextId,
    abi: HookAbi,
    target: (PinnedObjectId, u64),
    cookie: u64,
)
    requires
        has_dynamic(links, context, export_names(abi).1, target.0, target.1, cookie),
    ensures
        has_dynamic(links + more, context, export_names(abi).1, target.0, target.1, cookie),
{
    let i = choose|i: int|
        0 <= i < links.len() && is_dynamic(
            #[trigger] links[i],
            context,
            export_names(abi).1,
            target.0,
            target.1,
            cookie,
        );
    assert((links + more)[i] == links[i]);
}

/// The positions among the first `n` slots of a plan of those that are active and that no link
/// serves.
pub open spec fn pending_from(
    slots: Seq<Slot>,
    active: Seq<bool>,
    links: Seq<RegisteredLink>,
    n: int,
) -> Seq<int>
    decreases n,
{
    if n <= 0 {
        Seq::empty()
    } else {
        let before = pending_from(slots, active, links, n - 1);
        if active[n - 1] && !has_slot(links, slots[n - 1].index) {
            before.push(n - 1)
        } else {
            before
        }
    }
}

} // verus!
