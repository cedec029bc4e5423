//! The order in which a session is started. Everything that decides what probes may record is
//! checked, published and frozen before the first probe is attached.

use crate::attach::lifecycle::{tracefs_failure, tracefs_lifecycle_failure, AttachFault};
use crate::attach::policy::{process_creation_capture_enabled, CapturePolicy, Scope};
use crate::text::{concat3, Text};
use vstd::prelude::*;
use vstd::string::*;

verus! {

/// What is appended where the environment cannot load or attach programs at all.
pub const UNSUPPORTED_ENV_HINT: &'static str = "hint: this usually means the environment cannot load or attach BPF programs at all — missing CAP_BPF and/or CAP_SYS_ADMIN (or root), a kernel lockdown mode, a kernel below the supported floor (>= 5.15), missing BTF (/sys/kernel/btf/vmlinux), or a restrictive kernel.perf_event_paranoid sysctl. See docs/notes/phase5-unsupported.md for what each looks like when observed.";

/// One step of starting a session.
#[derive(Clone, Copy, Debug, PartialEq, Eq, Structural)]
pub enum StartStep {
    LoadObject,
    ValidatePolicyMaps,
    ValidateRuntimeMaps,
    ValidatePrograms,
    PublishScope,
    PublishTaskOffsets,
    PublishDescriptors,
    PublishAsyncCatalog,
    LoadMechanisms,
    PublishShapes,
    PublishAttributes,
    FreezePublished,
    LoadPrograms,
    FreezeDescriptors,
    PublishTailCalls,
    AttachProcessCreation,
    AttachLifecycle,
    Started,
}

/// The place of a step in the order.
pub open spec fn place(step: StartStep) -> int {
    match step {
        StartStep::LoadObject => 0,
        StartStep::ValidatePolicyMaps => 1,
        StartStep::ValidateRuntimeMaps => 2,
        StartStep::ValidatePrograms => 3,
        StartStep::PublishScope => 4,
        StartStep::PublishTaskOffsets => 5,
        StartStep::PublishDescriptors => 6,
        StartStep::PublishAsyncCatalog => 7,
        StartStep::LoadMechanisms => 8,
        StartStep::PublishShapes => 9,
        StartStep::PublishAttributes => 10,
        StartStep::FreezePublished => 11,
        StartStep::LoadPrograms => 12,
        StartStep::FreezeDescriptors => 13,
        StartStep::PublishTailCalls => 14,
        StartStep::AttachProcessCreation => 15,
        StartStep::AttachLifecycle => 16,
        StartStep::Started => 17,
    }
}

/// What a failure of a step is put under, where it does not say that itself.
pub open spec fn step_text(step: StartStep) -> Option<Text> {
    match step {
        StartStep::LoadObject => Some("loading BPF object"@),
        StartStep::ValidatePolicyMaps => Some("validating exact policy-map metadata"@),
        StartStep::ValidateRuntimeMaps => Some("validating live-discovery runtime maps"@),
        StartStep::ValidatePrograms => Some("validating exact eBPF program inventory"@),
        StartStep::PublishScope => Some("publishing scope and capture policy"@),
        StartStep::PublishTaskOffsets => Some("publishing task_newtask offsets"@),
        StartStep::PublishDescriptors => Some("publishing DESCRIPTORS"@),
        StartStep::PublishAsyncCatalog => Some("publishing ASYNC_FUNCTIONS"@),
        StartStep::PublishShapes => Some("publishing MECH_SHAPE"@),
        StartStep::PublishAttributes => Some("publishing ATTR_BOOL_BITS"@),
        StartStep::FreezePublished => Some("freezing published policy maps"@),
        StartStep::FreezeDescriptors => Some("freezing DESCRIPTORS"@),
        StartStep::PublishTailCalls => Some("publishing and freezing TAIL_CALLS"@),
        StartStep::AttachProcessCreation => Some("attaching task_newtask"@),
        _ => None,
    }
}

/// The message about a step that failed. What is missing from the object itself is named without
/// the step.
pub open spec fn fault_text(step: StartStep, fault: StepFault) -> Text {
    match step_text(step) {
        Some(context) if !fault.missing => context + ": "@ + fault.fault.message@,
        _ => fault.fault.message@,
    }
}

/// What a failure of a step is put under.
fn step_context(step: StartStep) -> (r: Option<&'static str>)
    ensures
        match step_text(step) {
            Some(context) => r matches Some(given) && given@ == context,
            None => r is None,
        },
{
    match step {
        StartStep::LoadObject => Some("loading BPF object"),
        StartStep::ValidatePolicyMaps => Some("validating exact policy-map metadata"),
        StartStep::ValidateRuntimeMaps => Some("validating live-discovery runtime maps"),
        StartStep::ValidatePrograms => Some("validating exact eBPF program inventory"),
        StartStep::PublishScope => Some("publishing scope and capture policy"),
        StartStep::PublishTaskOffsets => Some("publishing task_newtask offsets"),
        StartStep::PublishDescriptors => Some("publishing DESCRIPTORS"),
        StartStep::PublishAsyncCatalog => Some("publishing ASYNC_FUNCTIONS"),
        StartStep::PublishShapes => Some("publishing MECH_SHAPE"),
        StartStep::PublishAttributes => Some("publishing ATTR_BOOL_BITS"),
        StartStep::FreezePublished => Some("freezing published policy maps"),
        StartStep::FreezeDescriptors => Some("freezing DESCRIPTORS"),
        StartStep::PublishTailCalls => Some("publishing and freezing TAIL_CALLS"),
        StartStep::AttachProcessCreation => Some("attaching task_newtask"),
        _ => None,
    }
}

/// The step after a step. The offsets of the task event are published only where the creation of
/// processes is captured, and that event is probed only where its offsets were published.
pub open spec fn step_after(step: StartStep, creation: bool, unavailable: bool) -> StartStep {
    match step {
        StartStep::LoadObject => StartStep::ValidatePolicyMaps,
        StartStep::ValidatePolicyMaps => StartStep::ValidateRuntimeMaps,
        StartStep::ValidateRuntimeMaps => StartStep::ValidatePrograms,
        StartStep::ValidatePrograms => StartStep::PublishScope,
        StartStep::PublishScope => if creation {
            StartStep::PublishTaskOffsets
        } else {
            StartStep::PublishDescriptors
        },
        StartStep::PublishTaskOffsets => StartStep::PublishDescriptors,
        StartStep::PublishDescriptors => StartStep::PublishAsyncCatalog,
        StartStep::PublishAsyncCatalog => StartStep::LoadMechanisms,
        StartStep::LoadMechanisms => StartStep::PublishShapes,
        StartStep::PublishShapes => StartStep::PublishAttributes,
        StartStep::PublishAttributes => StartStep::FreezePublished,
        StartStep::FreezePublished => StartStep::LoadPrograms,
        StartStep::LoadPrograms => StartStep::FreezeDescriptors,
        StartStep::FreezeDescriptors => StartStep::PublishTailCalls,
        StartStep::PublishTailCalls => if creation && !unavailable {
            StartStep::AttachProcessCreation
        } else {
            StartStep::AttachLifecycle
        },
        StartStep::AttachProcessCreation => StartStep::AttachLifecycle,
        StartStep::AttachLifecycle => StartStep::Started,
        StartStep::Started => StartStep::Started,
    }
}

/// Why a step failed: the whole chain of causes, the root cause where a file is absent or not
/// permitted, and what it says where a kernel event could not be probed.
#[derive(Clone, Debug)]
pub struct StepFault {
    pub fault: AttachFault,
    pub unavailable_file: Option<String>,
    /// Whether the step could not be tried, since the object lacks the program or the map that it
    /// is about.
    pub missing: bool,
}

/// What is reported where the creation of processes is not tracked.
pub open spec fn creation_text(why: Text) -> Text {
    "live process-creation tracking unavailable: "@ + why
}

/// Why the creation of processes is not tracked, where a failure of a step leaves it at that.
pub open spec fn creation_loss(step: StartStep, fault: StepFault) -> Option<Text> {
    match step {
        StartStep::PublishTaskOffsets => match fault.unavailable_file {
            Some(why) => Some(creation_text(why@)),
            None => None,
        },
        StartStep::AttachProcessCreation => match tracefs_failure(
            fault.fault,
            "task_newtask"@,
        ) {
            Some(why) if !fault.missing => Some(creation_text(why)),
            _ => None,
        },
        _ => None,
    }
}

/// A session that is being started.
#[derive(Debug)]
pub struct Startup {
    pub step: StartStep,
    /// Whether the creation of processes is captured.
    pub creation: bool,
    /// Whether unvalidated metadata is recorded.
    pub unsafe_enabled: bool,
    /// Why the creation of processes is not tracked.
    pub creation_unavailable: Option<String>,
}

impl Startup {
    /// Begins starting a session.
    pub fn new(scope: &Scope, policy: CapturePolicy, object_has_unsafe: bool) -> (r: Result<
        Self,
        String,
    >)
        ensures
            if policy == CapturePolicy::UnsafeUnvalidatedMetadata && !object_has_unsafe {
                r matches Err(message) && message@
                    == "unsafe-unvalidated-metadata policy is absent from this eBPF object"@
            } else {
                r matches Ok(start) && start.step == StartStep::LoadObject && start.creation == (
                scope is Cgroup && policy != CapturePolicy::AggregateOnly) && start.unsafe_enabled
                    == (policy == CapturePolicy::UnsafeUnvalidatedMetadata)
                    && start.creation_unavailable is None
            },
    {
        if policy.uses_unsafe_decoders() && !object_has_unsafe {
            return Err(
                "unsafe-unvalidated-metadata policy is absent from this eBPF object".to_owned(),
            );
        }
        Ok(
            Startup {
                step: StartStep::LoadObject,
                creation: process_creation_capture_enabled(scope, policy),
                unsafe_enabled: object_has_unsafe && policy.uses_unsafe_decoders(),
                creation_unavailable: None,
            },
        )
    }

    /// Goes to the step after this one.
    fn advance(&mut self)
        ensures
            final(self).step == step_after(
                old(self).step,
                old(self).creation,
                old(self).creation_unavailable is Some,
            ),
            final(self).creation == old(self).creation,
            final(self).unsafe_enabled == old(self).unsafe_enabled,
            final(self).creation_unavailable == old(self).creation_unavailable,
    {
        self.step = match self.step {
            StartStep::LoadObject => StartStep::ValidatePolicyMaps,
            StartStep::ValidatePolicyMaps => StartStep::ValidateRuntimeMaps,
            StartStep::ValidateRuntimeMaps => StartStep::ValidatePrograms,
            StartStep::ValidatePrograms => StartStep::PublishScope,
            StartStep::PublishScope => if self.creation {
                StartStep::PublishTaskOffsets
            } else {
                StartStep::PublishDescriptors
            },
            StartStep::PublishTaskOffsets => StartStep::PublishDescriptors,
            StartStep::PublishDescriptors => StartStep::PublishAsyncCatalog,
            StartStep::PublishAsyncCatalog => StartStep::LoadMechanisms,
            StartStep::LoadMechanisms => StartStep::PublishShapes,
            StartStep::PublishShapes => StartStep::PublishAttributes,
            StartStep::PublishAttributes => StartStep::FreezePublished,
            StartStep::FreezePublished => StartStep::LoadPrograms,
            StartStep::LoadPrograms => StartStep::FreezeDescriptors,
            StartStep::FreezeDescriptors => StartStep::PublishTailCalls,
            StartStep::PublishTailCalls => if self.creation && self.creation_unavailable.is_none() {
                StartStep::AttachProcessCreation
            } else {
                StartStep::AttachLifecycle
            },
            StartStep::AttachProcessCreation => StartStep::AttachLifecycle,
            StartStep::AttachLifecycle => StartStep::Started,
            StartStep::Started => StartStep::Started,
        };
    }

    /// Takes in what came of the step. A step that failed ends the start, but for the two that only
    /// serve to track the creation of processes, where the trace file system is what is missing.
    pub fn settle(&mut self, result: Result<(), StepFault>) -> (r: Result<(), String>)
        ensures
            final(self).creation == old(self).creation,
            final(self).unsafe_enabled == old(self).unsafe_enabled,
            match result {
                Ok(()) => r is Ok && final(self).creation_unavailable == old(
                    self,
                ).creation_unavailable && final(self).step == step_after(
                    old(self).step,
                    old(self).creation,
                    old(self).creation_unavailable is Some,
                ),
                Err(fault) => match creation_loss(old(self).step, fault) {
                    Some(why) => r is Ok && (final(self).creation_unavailable matches Some(given)
                        && given@ == why) && final(self).step == step_after(
                        old(self).step,
                        old(self).creation,
                        true,
                    ),
                    None => *final(self) == *old(self) && (r matches Err(message) && message@
                        == fault_text(old(self).step, fault)),
                },
            },
    {
        let fault = match result {
            Ok(()) => {
                self.advance();
                return Ok(());
            },
            Err(fault) => fault,
        };
        let why: Option<String> = match self.step {
            StartStep::PublishTaskOffsets => fault.unavailable_file,
            StartStep::AttachProcessCreation if !fault.missing => tracefs_lifecycle_failure(
                &fault.fault,
                "task_newtask",
            ),
            _ => None,
        };
        match why {
            Some(why) => {
                let mut fact = "live process-creation tracking unavailable: ".to_owned();
                fact.append(why.as_str());
                self.creation_unavailable = Some(fact);
                self.advance();
                Ok(())
            },
            None => match step_context(self.step) {
                Some(context) if !fault.missing => Err(
                    concat3(context, ": ", fault.fault.message.as_str()),
                ),
                _ => Err(fault.fault.message),
            },
        }
    }
}

/// Every step leads to a later one, and no step leads past the freezing of what was published, the
/// freezing of the descriptors or the freezing of the tail calls: a probe is attached only after
/// all three.
pub proof fn lemma_frozen_before_attached(step: StartStep, creation: bool, unavailable: bool)
    requires
        step != StartStep::Started,
    ensures
        ({
            let next = step_after(step, creation, unavailable);
            &&& place(step) < place(next)
            &&& place(step) < place(StartStep::FreezePublished) ==> place(next) <= place(
                StartStep::FreezePublished,
            )
            &&& place(step) < place(StartStep::FreezeDescriptors) ==> place(next) <= place(
                StartStep::FreezeDescriptors,
            )
            &&& place(step) < place(StartStep::PublishTailCalls) ==> place(next) <= place(
                StartStep::PublishTailCalls,
            )
            &&& (next == StartStep::AttachProcessCreation || next == StartStep::AttachLifecycle)
                ==> place(step) >= place(StartStep::PublishTailCalls)
        }),
{
}

/// Nothing is published before the maps and programs of the object were checked, and everything is
/// published before it is frozen.
pub proof fn lemma_checked_before_published(step: StartStep, creation: bool, unavailable: bool)
    ensures
        place(step) < place(StartStep::ValidatePrograms) ==> place(
            step_after(step, creation, unavailable),
        ) <= place(StartStep::ValidatePrograms),
        place(step) < place(StartStep::PublishAttributes) ==> place(
            step_after(step, creation, unavailable),
        ) <= place(StartStep::PublishAttributes),
{
}

/// The process that probes are limited to, where the capture covers one.
pub fn uprobe_process(scope: &Scope) -> (r: Result<Option<u32>, String>)
    ensures
        match *scope {
            Scope::Pid(pid) => if pid == 0 {
                r matches Err(message) && message@ == "pid must be non-zero"@
            } else {
                r == Ok::<Option<u32>, String>(Some(pid))
            },
            Scope::Cgroup(_, _) => r == Ok::<Option<u32>, String>(None),
        },
{
    match scope {
        Scope::Pid(pid) => {
            if *pid == 0 {
                return Err("pid must be non-zero".to_owned());
            }
            Ok(Some(*pid))
        },
        Scope::Cgroup(_, _) => Ok(None),
    }
}

/// Puts the hint about the environment before what failed.
pub fn unsupported_environment_context(message: &str) -> (r: String)
    ensures
        r@ == UNSUPPORTED_ENV_HINT@ + ": "@ + message@,
{
    concat3(UNSUPPORTED_ENV_HINT, ": ", message)
}

/// When pinned objects are looked at again.
#[derive(Clone, Copy, Debug, PartialEq, Eq, Structural)]
pub enum ChangeCheck {
    BeforeAttach,
    WhileAttaching,
    BeforeLiveAttachment,
    BeforeLoader,
    BeforeExport,
}

/// What is reported where a pinned object changed.
pub open spec fn changed_text(check: ChangeCheck) -> Text {
    match check {
        ChangeCheck::BeforeAttach =>
            "a pinned provider object changed before attach; refusing to observe changed bytes"@,
        ChangeCheck::WhileAttaching =>
            "a pinned provider object changed while attaching; refusing to observe changed bytes"@,
        ChangeCheck::BeforeLiveAttachment =>
            "a pinned provider object changed before live attachment"@,
        ChangeCheck::BeforeLoader => "a pinned loader object changed before dynamic attach"@,
        ChangeCheck::BeforeExport => "a pinned export object changed before dynamic attach"@,
    }
}

/// Refuses to go on where a pinned object changed, or cannot be looked at.
pub fn refuse_changed(check: ChangeCheck, unchanged: Result<bool, String>) -> (r: Result<
    (),
    String,
>)
    ensures
        match unchanged {
            Ok(true) => r is Ok,
            Ok(false) => r matches Err(message) && message@ == changed_text(check),
            Err(error) => r matches Err(message) && message@ == error@,
        },
{
    match unchanged {
        Err(error) => Err(error),
        Ok(unchanged) => {
            if unchanged {
                return Ok(());
            }
            let text = match check {
                ChangeCheck::BeforeAttach =>
                    "a pinned provider object changed before attach; refusing to observe changed bytes",
                ChangeCheck::WhileAttaching =>
                    "a pinned provider object changed while attaching; refusing to observe changed bytes",
                ChangeCheck::BeforeLiveAttachment =>
                    "a pinned provider object changed before live attachment",
                ChangeCheck::BeforeLoader => "a pinned loader object changed before dynamic attach",
                ChangeCheck::BeforeExport => "a pinned export object changed before dynamic attach",
            };
            Err(text.to_owned())
        },
    }
}

} // verus!
