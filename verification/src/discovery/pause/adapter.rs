//! What a session's replies come to for the pause: the application of a batch with the clocks round
//! it, a revalidation, a dequeue, and the states of a child's tasks.

use crate::discovery::pause::diagnostic::{apply_diagnostic, classify_apply_diagnostic};
use crate::discovery::pause::io::{
    batch_reply, task_reply, BatchFault, PauseBatchError, PauseBatchOutcome,
    PauseRevalidationOutcome, TimedItem,
};
use crate::discovery::pause::tasks::{parse_task_state, task_state};
use crate::record::{DiscoveryItem, DiscoveryRecord};
use crate::text::{concat3, decimal, digits, heard, parse_unsigned, unsigned_value, Text};
use std::collections::BTreeMap;
use vstd::prelude::*;
use vstd::string::*;

verus! {

/// The records that a batch carries: none where it dispatches a terminal batch, which then carries
/// them itself.
pub fn batch_records(terminal_dispatch: bool, records: Vec<DiscoveryRecord>) -> (r: Vec<
    DiscoveryRecord,
>)
    ensures
        r@ == if terminal_dispatch {
            Seq::<DiscoveryRecord>::empty()
        } else {
            records@
        },
{
    if terminal_dispatch {
        Vec::new()
    } else {
        records
    }
}

/// Puts a terminal batch back that could not be installed; one that was installed is gone.
pub fn put_back<B>(terminal_batch: &mut Option<B>, batch: B, installed: Result<(), String>) -> (r:
    Result<(), String>)
    ensures
        r == installed,
        *final(terminal_batch) == if installed is Err {
            Some(batch)
        } else {
            *old(terminal_batch)
        },
{
    if installed.is_err() {
        *terminal_batch = Some(batch);
    }
    installed
}

/// What was heard while a batch of records was applied.
#[derive(Debug)]
pub enum BatchSeen {
    /// The terminal authority could not be reconciled before.
    Unreconciled(String),
    /// The terminal batch could not be put back.
    NotRestored(String),
    /// The records were handed over: the clocks before and after, whether the plan changed and
    /// whether all that is required stands, or why not, whether a nested dequeue crossed the
    /// deadline, and whether the terminal authority could be reconciled after.
    Applied {
        before_ns: Option<u64>,
        after_ns: Option<u64>,
        applied: Result<(bool, bool), String>,
        nested_deadline: bool,
        reconciled: Result<(), String>,
    },
}

/// The message of a terminal authority that could not be reconciled.
pub open spec fn reconcile_message(error: Text) -> Text {
    "terminal discovery authority reconciliation failed: "@ + error
}

/// What an application of records comes to.
pub open spec fn settled(seen: BatchSeen, deadline: Option<u64>) -> Result<
    PauseBatchOutcome,
    BatchFault,
> {
    match seen {
        BatchSeen::Unreconciled(error) => Err(
            BatchFault { message: reconcile_message(error@), diagnostic: None },
        ),
        BatchSeen::NotRestored(error) => Err(
            BatchFault {
                message: "terminal discovery batch restore failed: "@ + error@,
                diagnostic: None,
            },
        ),
        BatchSeen::Applied { before_ns, after_ns, applied, nested_deadline, reconciled } => {
            let complete = applied matches Ok((changed, complete)) ==> complete;
            let diagnostic = apply_diagnostic(
                before_ns,
                after_ns,
                deadline,
                complete,
                nested_deadline,
            );
            match (applied, reconciled) {
                (Ok(_), Ok(_)) => Ok(PauseBatchOutcome { required_complete: complete, diagnostic }),
                (Ok(_), Err(error)) => Err(
                    BatchFault {
                        message: reconcile_message(reconcile_message(error@)),
                        diagnostic,
                    },
                ),
                (Err(fault), Ok(_)) => Err(
                    BatchFault {
                        message: "discovery batch application failed: "@ + fault@,
                        diagnostic,
                    },
                ),
                (Err(fault), Err(error)) => Err(
                    BatchFault {
                        message: "discovery batch application failed: "@ + fault@ + "; "@
                            + reconcile_message(reconcile_message(error@)),
                        diagnostic,
                    },
                ),
            }
        },
    }
}

/// Whether an application of records changed the plan.
pub open spec fn changes_plan(seen: BatchSeen) -> bool {
    seen matches BatchSeen::Applied { applied, .. } && applied matches Ok((changed, _)) && changed
}

/// Renders the message of a terminal authority that could not be reconciled.
pub fn reconcile_failure(error: &str) -> (r: String)
    ensures
        r@ == reconcile_message(error@),
{
    let mut r = "terminal discovery authority reconciliation failed: ".to_owned();
    r.append(error);
    r
}

/// Settles what an application of records comes to. That the plan changed is kept, even where the
/// authority could not be reconciled afterwards.
pub fn settle_batch(plan_changed: &mut bool, seen: BatchSeen, deadline: Option<u64>) -> (r: Result<
    PauseBatchOutcome,
    PauseBatchError,
>)
    ensures
        batch_reply(r) == settled(seen, deadline),
        *final(plan_changed) == (*old(plan_changed) || changes_plan(seen)),
{
    let (before_ns, after_ns, applied, nested_deadline, reconciled) = match seen {
        BatchSeen::Unreconciled(error) => {
            return Err(PauseBatchError::new(reconcile_failure(error.as_str()), None));
        },
        BatchSeen::NotRestored(error) => {
            let mut message = "terminal discovery batch restore failed: ".to_owned();
            message.append(error.as_str());
            return Err(PauseBatchError::new(message, None));
        },
        BatchSeen::Applied { before_ns, after_ns, applied, nested_deadline, reconciled } => (
            before_ns,
            after_ns,
            applied,
            nested_deadline,
            reconciled,
        ),
    };
    match applied {
        Ok((changed, complete)) => {
            if changed {
                *plan_changed = true;
            }
            let diagnostic = classify_apply_diagnostic(
                before_ns,
                after_ns,
                deadline,
                complete,
                nested_deadline,
            );
            match reconciled {
                Ok(()) => Ok(PauseBatchOutcome { required_complete: complete, diagnostic }),
                Err(error) => {
                    let inner = reconcile_failure(error.as_str());
                    Err(PauseBatchError::new(reconcile_failure(inner.as_str()), diagnostic))
                },
            }
        },
        Err(fault) => {
            let diagnostic = classify_apply_diagnostic(
                before_ns,
                after_ns,
                deadline,
                true,
                nested_deadline,
            );
            let mut message = "discovery batch application failed: ".to_owned();
            message.append(fault.as_str());
            if let Err(error) = reconciled {
                let inner = reconcile_failure(error.as_str());
                message.append("; ");
                message.append(reconcile_failure(inner.as_str()).as_str());
            }
            Err(PauseBatchError::new(message, diagnostic))
        },
    }
}

/// What was heard from a revalidation of the owned child.
pub enum RevalidationSeen<B> {
    /// It ran to its end: whether the plan changed, and whether all that is required stands.
    Complete(bool, bool),
    /// It met an item that belongs to the pause owner.
    Deferred(TimedItem<B>),
    /// It failed.
    Failed(String),
}

/// What a revalidation comes to.
pub open spec fn settled_revalidation<B>(seen: RevalidationSeen<B>) -> Result<
    PauseRevalidationOutcome<B>,
    Text,
> {
    match seen {
        RevalidationSeen::Complete(_, complete) => Ok(
            PauseRevalidationOutcome::Complete(
                PauseBatchOutcome { required_complete: complete, diagnostic: None },
            ),
        ),
        RevalidationSeen::Deferred(item) => Ok(PauseRevalidationOutcome::Deferred(item)),
        RevalidationSeen::Failed(error) => Err("owned-child revalidation failed: "@ + error@),
    }
}

/// Settles what a revalidation comes to.
pub fn settle_revalidation<B>(plan_changed: &mut bool, seen: RevalidationSeen<B>) -> (r: Result<
    PauseRevalidationOutcome<B>,
    String,
>)
    ensures
        heard(r) == settled_revalidation(seen),
        *final(plan_changed) == (*old(plan_changed) || (seen matches RevalidationSeen::Complete(
            changed,
            _,
        ) && changed)),
{
    match seen {
        RevalidationSeen::Complete(changed, required_complete) => {
            if changed {
                *plan_changed = true;
            }
            Ok(
                PauseRevalidationOutcome::Complete(
                    PauseBatchOutcome { required_complete, diagnostic: None },
                ),
            )
        },
        RevalidationSeen::Deferred(item) => Ok(PauseRevalidationOutcome::Deferred(item)),
        RevalidationSeen::Failed(error) => {
            let mut message = "owned-child revalidation failed: ".to_owned();
            message.append(error.as_str());
            Err(message)
        },
    }
}

/// Takes in what was dequeued, and counts it where it is malformed.
pub fn take_dequeued(
    malformed: &mut u64,
    reply: Result<Option<DiscoveryItem>, String>,
) -> (r: Result<Option<DiscoveryItem>, String>)
    ensures
        match reply {
            Ok(item) => r matches Ok(given) && given == item,
            Err(error) => r matches Err(message) && message@ == "discovery dequeue failed: "@
                + error@,
        },
        *final(malformed) == if reply matches Ok(Some(item)) && item is Malformed && *old(malformed)
            < u64::MAX {
            (*old(malformed) + 1) as u64
        } else {
            *old(malformed)
        },
{
    match reply {
        Ok(item) => {
            if let Some(DiscoveryItem::Malformed) = item {
                if *malformed < u64::MAX {
                    *malformed = *malformed + 1;
                }
            }
            Ok(item)
        },
        Err(error) => {
            let mut message = "discovery dequeue failed: ".to_owned();
            message.append(error.as_str());
            Err(message)
        },
    }
}

/// One entry of a child's task directory.
#[derive(Debug)]
pub enum TaskSeen {
    /// It could not be listed.
    Unlisted(String),
    /// Its name, and its status line or why that could not be read.
    Listed(String, Result<Vec<u8>, String>),
}

/// What one entry of the task directory says: a task with its state.
pub open spec fn task_of(pid: u32, seen: TaskSeen) -> Result<(u32, u8), Text> {
    match seen {
        TaskSeen::Unlisted(error) => Err(
            "cannot enumerate task for pid "@ + digits(pid as nat) + ": "@ + error@,
        ),
        TaskSeen::Listed(name, stat) => match unsigned_value(name@, u32::MAX as nat) {
            None => Err("invalid task directory for pid "@ + digits(pid as nat)),
            Some(tid) => match stat {
                Err(error) => Err(
                    "cannot read task "@ + digits(tid) + " state: "@ + error@,
                ),
                Ok(bytes) => match task_state(bytes@) {
                    None => Err("cannot parse task "@ + digits(tid) + " state"@),
                    Some(state) => Ok((tid as u32, state)),
                },
            },
        },
    }
}

/// What the first `n` entries of the task directory say: every task with its state, or the first
/// fault.
pub open spec fn tasks_of(pid: u32, seen: Seq<TaskSeen>, n: int) -> Result<Map<u32, u8>, Text>
    decreases n,
{
    if n <= 0 {
        Ok(Map::empty())
    } else {
        match tasks_of(pid, seen, n - 1) {
            Err(message) => Err(message),
            Ok(states) => match task_of(pid, seen[n - 1]) {
                Err(message) => Err(message),
                Ok((tid, state)) => Ok(states.insert(tid, state)),
            },
        }
    }
}

/// The states of a child's tasks. A child without tasks is a fault.
pub open spec fn states_of(pid: u32, seen: Result<Vec<TaskSeen>, String>) -> Result<
    Map<u32, u8>,
    Text,
> {
    match seen {
        Err(error) => Err(
            "cannot enumerate task set for pid "@ + digits(pid as nat) + ": "@ + error@,
        ),
        Ok(list) => match tasks_of(pid, list@, list@.len() as int) {
            Err(message) => Err(message),
            Ok(states) => if list@.len() == 0 {
                Err("pid "@ + digits(pid as nat) + " has an empty task set"@)
            } else {
                Ok(states)
            },
        },
    }
}

/// The first fault stays the first.
proof fn lemma_tasks_stay(pid: u32, seen: Seq<TaskSeen>, n: int, m: int)
    requires
        n <= m,
        tasks_of(pid, seen, n) is Err,
    ensures
        tasks_of(pid, seen, m) == tasks_of(pid, seen, n),
    decreases m - n,
{
    if n < m {
        lemma_tasks_stay(pid, seen, n, m - 1);
    }
}

/// Reads one entry of the task directory.
fn read_task(pid: u32, seen: &TaskSeen) -> (r: Result<(u32, u8), String>)
    ensures
        heard(r) == task_of(pid, *seen),
{
    let (name, stat) = match seen {
        TaskSeen::Unlisted(error) => {
            let mut message = concat3(
                "cannot enumerate task for pid ",
                decimal(pid as u64).as_str(),
                ": ",
            );
            message.append(error.as_str());
            return Err(message);
        },
        TaskSeen::Listed(name, stat) => (name, stat),
    };
    let tid: u64 = match parse_unsigned(name.as_str(), u32::MAX as u64) {
        Some(tid) => tid,
        None => {
            let mut message = "invalid task directory for pid ".to_owned();
            message.append(decimal(pid as u64).as_str());
            return Err(message);
        },
    };
    match stat {
        Err(error) => {
            let mut message = concat3("cannot read task ", decimal(tid).as_str(), " state: ");
            message.append(error.as_str());
            Err(message)
        },
        Ok(bytes) => match parse_task_state(bytes.as_slice()) {
            None => Err(concat3("cannot parse task ", decimal(tid).as_str(), " state")),
            Some(state) => Ok((tid as u32, state)),
        },
    }
}

/// Reads the states of a child's tasks from its task directory.
pub fn read_task_states(pid: u32, seen: Result<Vec<TaskSeen>, String>) -> (r: Result<
    BTreeMap<u32, u8>,
    String,
>)
    ensures
        task_reply(r) == states_of(pid, seen),
{
    let list = match seen {
        Ok(list) => list,
        Err(error) => {
            let mut message = concat3(
                "cannot enumerate task set for pid ",
                decimal(pid as u64).as_str(),
                ": ",
            );
            message.append(error.as_str());
            return Err(message);
        },
    };
    let mut states: BTreeMap<u32, u8> = BTreeMap::new();
    let mut n: usize = 0;
    while n < list.len()
        invariant
            n <= list@.len(),
            seen == Ok::<Vec<TaskSeen>, String>(list),
            tasks_of(pid, list@, n as int) == Ok::<Map<u32, u8>, Text>(states@),
        decreases list@.len() - n,
    {
        match read_task(pid, &list[n]) {
            Ok((tid, state)) => {
                states.insert(tid, state);
            },
            Err(message) => {
                proof {
                    lemma_tasks_stay(pid, list@, n + 1, list@.len() as int);
                }
                return Err(message);
            },
        }
        n += 1;
    }
    if list.len() == 0 {
        return Err(concat3("pid ", decimal(pid as u64).as_str(), " has an empty task set"));
    }
    Ok(states)
}

} // verus!
