//! The two probes that follow the lifecycle of every process of a session. They are attached as
//! one: where the second cannot be attached, the first is taken back.

use crate::text::{concat3, same, Text};
use vstd::prelude::*;
use vstd::string::*;

verus! {

/// Why a kernel event could not be probed, as far as that decides anything.
#[derive(Clone, Debug)]
pub enum FaultCause {
    /// The trace file system is not there.
    TracefsMissing,
    /// The file that names the event could not be read: its path, the error, and whether it is
    /// absent or not permitted.
    EventFile(String, String, bool),
    /// Anything else.
    Other,
}

/// A probe that could not be attached: the whole chain of causes, and the cause that decides.
#[derive(Clone, Debug)]
pub struct AttachFault {
    pub message: String,
    pub cause: FaultCause,
}

/// The path of the file that names an event, under a root of the trace file system.
pub open spec fn event_file(root: Text, program: Text) -> Text {
    root + "/events/"@ + (if program == "task_newtask"@ {
        "task"@
    } else {
        "sched"@
    }) + "/"@ + program + "/id"@
}

/// Whether a path is that of the file that names an event.
pub open spec fn is_event_file(program: Text, path: Text) -> bool {
    path == event_file("/sys/kernel/tracing"@, program) || path == event_file(
        "/sys/kernel/debug/tracing"@,
        program,
    )
}

/// What is missing where the trace file system does not let the observer probe an event.
pub open spec fn tracefs_failure(fault: AttachFault, program: Text) -> Option<Text> {
    match fault.cause {
        FaultCause::TracefsMissing => Some("tracefs not found"@),
        FaultCause::EventFile(path, error, unavailable) => if is_event_file(program, path@)
            && unavailable {
            Some("tracefs id file "@ + path@ + ": "@ + error@)
        } else {
            None
        },
        FaultCause::Other => None,
    }
}

/// Writes the path of the file that names an event.
fn write_event_file(root: &str, program: &str) -> (r: String)
    ensures
        r@ == event_file(root@, program@),
{
    let mut out = root.to_owned();
    out.append("/events/");
    if same(program, "task_newtask") {
        out.append("task");
    } else {
        out.append("sched");
    }
    out.append("/");
    out.append(program);
    out.append("/id");
    out
}

/// Tells whether a path is that of the file that names an event.
pub fn expected_tracefs_id_path(program: &str, path: &str) -> (r: bool)
    ensures
        r == is_event_file(program@, path@),
{
    same(path, write_event_file("/sys/kernel/tracing", program).as_str()) || same(
        path,
        write_event_file("/sys/kernel/debug/tracing", program).as_str(),
    )
}

/// Works out what is missing where the trace file system does not let the observer probe an event.
pub fn tracefs_lifecycle_failure(fault: &AttachFault, program: &str) -> (r: Option<String>)
    ensures
        match tracefs_failure(*fault, program@) {
            Some(why) => r matches Some(given) && given@ == why,
            None => r is None,
        },
{
    match &fault.cause {
        FaultCause::TracefsMissing => Some("tracefs not found".to_owned()),
        FaultCause::EventFile(path, error, unavailable) => {
            if expected_tracefs_id_path(program, path.as_str()) && *unavailable {
                let mut out = concat3("tracefs id file ", path.as_str(), ": ");
                out.append(error.as_str());
                Some(out)
            } else {
                None
            }
        },
        FaultCause::Other => None,
    }
}

/// The programs that follow the lifecycle, in the order in which they are attached.
pub open spec fn lifecycle_name(i: int) -> Text {
    if i == 0 {
        "sched_process_exec"@
    } else {
        "sched_process_exit"@
    }
}

/// The programs that follow the lifecycle, in the order in which they are attached.
pub fn lifecycle_program(i: usize) -> (r: &'static str)
    ensures
        r@ == lifecycle_name(i as int),
{
    if i == 0 {
        "sched_process_exec"
    } else {
        "sched_process_exit"
    }
}

/// What happened so far: the result of attaching each program, in order, and of taking the first
/// back.
#[derive(Debug)]
pub struct LifecycleSeen {
    pub attached: Vec<Result<(), AttachFault>>,
    pub rollback: Option<Result<(), String>>,
}

/// What to do next.
#[derive(Debug)]
pub enum LifecycleStep {
    /// Attach the program at this position.
    Attach(usize),
    /// Take back the program at this position.
    Detach(usize),
    /// Both programs are attached.
    Attached,
    /// Neither is, and the session goes on without them, for the reason given.
    Degraded(String),
    /// Neither is, and the session ends.
    Failed(String),
}

/// What is reported where the lifecycle is not tracked.
pub open spec fn degraded_text(why: Text) -> Text {
    "live lifecycle tracking unavailable: "@ + why
}

/// What is reported where attaching a program failed.
pub open spec fn attach_text(program: Text, message: Text) -> Text {
    "attaching "@ + program + ": "@ + message
}

/// What an owned run is told where the lifecycle cannot be tracked.
pub open spec fn owned_text(why: Text, program: Text, message: Text) -> Text {
    "owned run requires tracefs lifecycle tracking; run as root or remount tracefs with gid=<observer-group> and mode=0750: "@
        + degraded_text(why) + ": "@ + attach_text(program, message)
}

/// Whether a step is how attaching ends after a program failed and nothing is left to take back.
pub open spec fn ends_with(
    owned_run: bool,
    fault: AttachFault,
    program: Text,
    step: LifecycleStep,
) -> bool {
    match tracefs_failure(fault, program) {
        Some(why) => if owned_run {
            step matches LifecycleStep::Failed(message) && message@ == owned_text(
                why,
                program,
                fault.message@,
            )
        } else {
            step matches LifecycleStep::Degraded(message) && message@ == degraded_text(why)
        },
        None => step matches LifecycleStep::Failed(message) && message@ == attach_text(
            program,
            fault.message@,
        ),
    }
}

/// Whether what happened can have happened: nothing is attached after a failure, and only the first
/// program is taken back, after the second failed.
pub open spec fn plausible(seen: LifecycleSeen) -> bool {
    &&& seen.attached@.len() <= 2
    &&& seen.attached@.len() == 2 ==> seen.attached@[0] is Ok
    &&& seen.rollback is Some ==> seen.attached@.len() == 2 && seen.attached@[1] is Err
}

/// Whether a step is the right one after what happened so far.
pub open spec fn lifecycle_follows(
    owned_run: bool,
    seen: LifecycleSeen,
    step: LifecycleStep,
) -> bool {
    let n = seen.attached@.len() as int;
    if n == 0 || (n == 1 && seen.attached@[0] is Ok) {
        step == LifecycleStep::Attach(n as usize)
    } else if n == 1 {
        ends_with(owned_run, seen.attached@[0]->Err_0, lifecycle_name(0), step)
    } else if seen.attached@[1] is Ok {
        step == LifecycleStep::Attached
    } else {
        match seen.rollback {
            None => step == LifecycleStep::Detach(0),
            Some(Err(error)) => step matches LifecycleStep::Failed(message) && message@
                == attach_text(lifecycle_name(1), seen.attached@[1]->Err_0.message@)
                + "; rolling back "@ + lifecycle_name(0) + " after "@ + lifecycle_name(1)
                + " failed: "@ + error@,
            Some(Ok(())) => ends_with(
                owned_run,
                seen.attached@[1]->Err_0,
                lifecycle_name(1),
                step,
            ),
        }
    }
}

/// Ends attaching after a program failed and nothing is left to take back.
fn end_lifecycle(owned_run: bool, fault: &AttachFault, program: &str) -> (step: LifecycleStep)
    ensures
        ends_with(owned_run, *fault, program@, step),
{
    let mut failed = concat3("attaching ", program, ": ");
    failed.append(fault.message.as_str());
    match tracefs_lifecycle_failure(fault, program) {
        Some(why) => {
            let mut fact = "live lifecycle tracking unavailable: ".to_owned();
            fact.append(why.as_str());
            if !owned_run {
                return LifecycleStep::Degraded(fact);
            }
            let mut message =
                "owned run requires tracefs lifecycle tracking; run as root or remount tracefs with gid=<observer-group> and mode=0750: ".to_owned();
            message.append(fact.as_str());
            message.append(": ");
            message.append(failed.as_str());
            LifecycleStep::Failed(message)
        },
        None => LifecycleStep::Failed(failed),
    }
}

/// What to do next about the two programs. Either both stay attached or neither does, except where
/// taking the first back fails too, which ends the session.
pub fn attach_lifecycle_step(owned_run: bool, seen: &LifecycleSeen) -> (step: LifecycleStep)
    requires
        plausible(*seen),
    ensures
        lifecycle_follows(owned_run, *seen, step),
{
    if seen.attached.len() == 0 {
        return LifecycleStep::Attach(0);
    }
    if seen.attached.len() == 1 {
        match &seen.attached[0] {
            Ok(()) => {
                return LifecycleStep::Attach(1);
            },
            Err(fault) => {
                return end_lifecycle(owned_run, fault, lifecycle_program(0));
            },
        }
    }
    match &seen.attached[1] {
        Ok(()) => LifecycleStep::Attached,
        Err(fault) => match &seen.rollback {
            None => LifecycleStep::Detach(0),
            Some(Err(error)) => {
                let mut message = concat3("attaching ", lifecycle_program(1), ": ");
                message.append(fault.message.as_str());
                message.append("; rolling back ");
                message.append(lifecycle_program(0));
                message.append(" after ");
                message.append(lifecycle_program(1));
                message.append(" failed: ");
                message.append(error.as_str());
                LifecycleStep::Failed(message)
            },
            Some(Ok(())) => end_lifecycle(owned_run, fault, lifecycle_program(1)),
        },
    }
}

/// All or nothing: attaching ends well only with both programs attached, goes on without them only
/// where none is left attached, and never goes on without them in an owned run.
pub proof fn lemma_lifecycle_all_or_nothing(
    owned_run: bool,
    seen: LifecycleSeen,
    step: LifecycleStep,
)
    requires
        plausible(seen),
        lifecycle_follows(owned_run, seen, step),
    ensures
        step is Attached ==> seen.attached@.len() == 2 && seen.attached@[0] is Ok
            && seen.attached@[1] is Ok,
        step is Degraded ==> !owned_run && (seen.attached@.len() == 1 || (
        seen.rollback matches Some(taken) && taken is Ok)),
        step is Detach ==> seen.rollback is None,
{
}

} // verus!
