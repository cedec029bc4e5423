//! What the pause takes its readings to mean: clocks, counters, authorization words, the states of
//! tasks, and the replies to an application of records.

use crate::cli::PausePolicy;
use crate::discovery::pause::adapter::{
    changes_plan, reconcile_message, settled, settled_revalidation, states_of, task_of, tasks_of,
    BatchSeen, RevalidationSeen, TaskSeen,
};
use crate::discovery::pause::diagnostic::{
    apply_diagnostic, diagnostic_line, token_text, PauseDiagnostic,
};
use crate::discovery::pause::io::PauseRevalidationOutcome;
use crate::discovery::pause::rules::{
    annotated, bounded_cycle, causal, deadline_after, policy_fail, saturated, tighter,
    AuthorizationSource, RemovalDisposition,
};
use crate::discovery::pause::state::{PauseCounters, PauseEpoch, State};
use crate::discovery::pause::tasks::{all_stopped, last_close, task_state};
use crate::record::DiscoveryRecord;
use crate::text::{unsigned_value, Text};
use crate::words::lemma_numbers_are_digits;
use vstd::prelude::*;

verus! {

/// The counters of a coordinator that made no attempt are absent. Otherwise the status is partial
/// exactly where an attempt was. Short of the largest count, counters are balanced exactly where
/// every attempt was confirmed or partial.
pub proof fn lemma_counters(counters: PauseCounters)
    ensures
        counters.attempts == 0 <==> counters.status_of() is Absent,
        counters.attempts > 0 && counters.partial > 0 <==> counters.status_of() is Partial,
        counters.attempts > 0 && counters.partial == 0 <==> counters.status_of() is Sigstop,
        counters.confirmed + counters.partial <= u64::MAX ==> (counters.balanced() <==> (
        counters.attempts == counters.confirmed + counters.partial)),
        counters.confirmed + counters.partial > u64::MAX ==> (counters.balanced() <==> (
        counters.attempts == u64::MAX)),
{
}

/// A deadline only tightens: the new one is no later than the old one and the candidate, and is one
/// of the two. The order of two candidates does not matter.
pub proof fn lemma_deadlines_tighten(slot: Option<u64>, a: u64, b: u64)
    ensures
        tighter(slot, a) <= a,
        slot matches Some(existing) ==> tighter(slot, a) <= existing,
        tighter(slot, a) == a || slot == Some(tighter(slot, a)),
        tighter(Some(tighter(slot, a)), b) == tighter(Some(tighter(slot, b)), a),
{
}

/// A cycle takes half a second: the deadline is that long after the hook, and where the clock
/// cannot hold it there is none. A bounded cycle ends with the clock at the latest.
pub proof fn lemma_cycle_takes_half_a_second(hook_ns: u64)
    ensures
        deadline_after(hook_ns) is Ok <==> hook_ns <= u64::MAX - 500_000_000,
        deadline_after(hook_ns) matches Ok(deadline) ==> deadline - hook_ns == 500_000_000
            && bounded_cycle(hook_ns) == deadline,
        deadline_after(hook_ns) is Err ==> bounded_cycle(hook_ns) == u64::MAX,
{
}

/// An item belongs to a cycle exactly where the clock did not run back round its dequeue, it is no
/// younger than the dequeue, and the dequeue was over by the deadline.
pub proof fn lemma_causal(before_ns: u64, after_ns: u64, record_ns: u64, deadline: u64)
    ensures
        causal(before_ns, after_ns, record_ns, deadline) is Ok <==> {
            &&& before_ns <= after_ns
            &&& record_ns <= after_ns
            &&& after_ns <= deadline
        },
{
}

/// What belongs to a cycle belongs to every cycle that ends later.
pub proof fn lemma_causal_is_monotone(
    before_ns: u64,
    after_ns: u64,
    record_ns: u64,
    deadline: u64,
    later: u64,
)
    requires
        deadline <= later,
        causal(before_ns, after_ns, record_ns, deadline) is Ok,
    ensures
        causal(before_ns, after_ns, record_ns, later) is Ok,
{
}

/// A count goes up by one, and stays at the largest.
pub proof fn lemma_counts_go_up(count: u64)
    ensures
        count < u64::MAX ==> saturated(count) == count + 1,
        count == u64::MAX ==> saturated(count) == count,
{
}

/// A failure is required exactly where the policy is to pause always, and carries its message and
/// nothing else.
pub proof fn lemma_policy_failures(policy: PausePolicy, message: Text, lifecycle: bool)
    ensures
        policy_fail(policy, message, lifecycle).required <==> policy is Always,
        policy_fail(policy, message, lifecycle).lifecycle == lifecycle,
        policy_fail(policy, message, lifecycle).messages.len() == 1,
        policy_fail(policy, message, lifecycle).messages[0] == message,
{
}

/// A reason stands at the end of the message, in brackets, and in the line of a partial pause.
pub proof fn lemma_reason_stands_last(message: Text, diagnostic: PauseDiagnostic)
    ensures
        ({
            let reason = "[pause_diag="@ + token_text(diagnostic) + "]"@;
            let line = annotated(message, diagnostic);
            let told = diagnostic_line(diagnostic);
            &&& line.len() >= reason.len()
            &&& line.skip(line.len() - reason.len()) == reason
            &&& told.len() >= reason.len()
            &&& told.skip(told.len() - reason.len()) == reason
        }),
{
    reveal_strlit("pause_diag=");
    reveal_strlit("[pause_diag=");
    reveal_strlit(" [pause_diag=");
    reveal_strlit("p11scope: pause: partial [pause_diag=");
    reveal_strlit("]");
    let reason = "[pause_diag="@ + token_text(diagnostic) + "]"@;
    let line = annotated(message, diagnostic);
    let told = diagnostic_line(diagnostic);
    assert(line.skip(line.len() - reason.len()) =~= reason);
    assert(told.skip(told.len() - reason.len()) =~= reason);
}

/// Different reasons have different tokens.
pub proof fn lemma_tokens_differ(a: PauseDiagnostic, b: PauseDiagnostic)
    requires
        a != b,
    ensures
        token_text(a) != token_text(b),
{
    reveal_strlit("arm_failed_before_epoch");
    reveal_strlit("post_release_revalidation_incomplete");
    reveal_strlit("pause_helper_rejected");
    reveal_strlit("deadline_before_engine_apply");
    reveal_strlit("deadline_during_engine_apply");
    reveal_strlit("engine_incomplete_within_deadline");
    reveal_strlit("nested_collector_deadline");
    reveal_strlit("later_pause_boundary");
    reveal_strlit("other_auto_nonconfirmed");
    let s = token_text(a);
    let t = token_text(b);
    if s == t {
        assert(s.len() == t.len());
        assert(s[0] == t[0]);
        assert(s[9] == t[9]);
    }
}

/// When an application gives a reason. A nested deadline is always told. Otherwise there is one
/// only against a deadline: that it was over before, that it passed meanwhile, or that required
/// parts were left although there was time. An application that ends in time and complete has none.
pub proof fn lemma_reasons(
    before_ns: Option<u64>,
    after_ns: Option<u64>,
    deadline: Option<u64>,
    complete: bool,
)
    ensures
        apply_diagnostic(before_ns, after_ns, deadline, complete, true) == Some(
            PauseDiagnostic::NestedCollectorDeadline,
        ),
        deadline is None ==> apply_diagnostic(before_ns, after_ns, deadline, complete, false)
            is None,
        forall|before: u64, after: u64, limit: u64|
            #![trigger apply_diagnostic(Some(before), Some(after), Some(limit), complete, false)]
            ({
                let reason = apply_diagnostic(
                    Some(before),
                    Some(after),
                    Some(limit),
                    complete,
                    false,
                );
                &&& limit < before ==> reason == Some(PauseDiagnostic::DeadlineBeforeEngineApply)
                &&& before <= limit < after ==> reason == Some(
                    PauseDiagnostic::DeadlineDuringEngineApply,
                )
                &&& before <= limit && after <= limit && !complete ==> reason == Some(
                    PauseDiagnostic::EngineIncompleteWithinDeadline,
                )
                &&& before <= limit && after <= limit && complete ==> reason is None
            }),
{
}

/// An attempt is opened once: opening it again changes nothing. It counts one attempt, drops the
/// reason of the one before, and leaves what is known of the child.
pub proof fn lemma_attempt_opens_once<B>(s: State<B>)
    ensures
        s.attempting().attempt_open,
        s.attempting().attempting() == s.attempting(),
        s.attempt_open ==> s.attempting() == s,
        !s.attempt_open && s.counters.attempts < u64::MAX ==> s.attempting().counters.attempts
            == s.counters.attempts + 1,
        !s.attempt_open ==> s.attempting().pending_diagnostic is None
            && !s.attempting().diagnostic_annotated,
        s.attempting().counters.confirmed == s.counters.confirmed,
        s.attempting().counters.partial == s.counters.partial,
        s.attempting().epoch == s.epoch,
        s.attempting().may_be_stopped == s.may_be_stopped,
        s.attempting().armed == s.armed,
{
}

/// The first reason on record stays, whatever comes after it, and is the one that is told. Telling
/// it takes it off the record.
pub proof fn lemma_first_reason_stays<B>(s: State<B>, a: PauseDiagnostic, b: PauseDiagnostic)
    ensures
        s.reasoned(a).reasoned(b) == s.reasoned(a),
        s.pending_diagnostic is None ==> s.reasoned(a).reason() == a,
        s.pending_diagnostic matches Some(first) ==> s.reasoned(a).reason() == first,
        s.reasoned_by(None) == s,
        s.reasoned_by(Some(a)) == s.reasoned(a),
        s.noticed().notices == s.notices.push(diagnostic_line(s.reason())),
        s.noticed().pending_diagnostic is None,
        s.noticed().counters == s.counters,
{
}

/// A reason is put on the first of the required messages, once; the others stay.
pub proof fn lemma_reason_is_put_once<B>(s: State<B>, errors: Seq<Text>, required: bool)
    ensures
        ({
            let (next, told) = s.annotating(errors, required);
            let put = required && errors.len() > 0 && !s.diagnostic_annotated;
            &&& told.len() == errors.len()
            &&& forall|i: int| 1 <= i < errors.len() ==> #[trigger] told[i] == errors[i]
            &&& put ==> told[0] == annotated(errors[0], s.reason())
            &&& !put ==> told == errors && next == s
            &&& put ==> next.annotating(told, required).1 == told
        }),
{
    reveal(State::annotating);
}

/// The settled debt of a resumed child leaves nothing to resume: neither a consumed authorization,
/// nor an accepted stop, nor a successor of unknown fate.
pub proof fn lemma_settled_debt<B>(s: State<B>)
    ensures
        !s.debt_settled().may_be_stopped,
        !s.debt_settled().resume_debt(),
        !s.debt_settled().owes_resume(),
        !s.debt_settled().owes_protective_resume(),
        s.debt_settled().counters == s.counters,
        s.debt_settled().armed == s.armed,
{
}

/// When a resume is owed: to a child that may be stopped, once, and never both for an accepted stop
/// and for protection.
pub proof fn lemma_owed_resumes<B>(s: State<B>)
    ensures
        s.owes_resume() ==> s.may_be_stopped && s.epoch.accepted && !s.epoch.resume_attempted,
        s.owes_protective_resume() ==> s.may_be_stopped && !s.epoch.accepted && !s.epoch.rejected
            && !s.epoch.protective_resume_attempted,
        !(s.owes_resume() && s.owes_protective_resume()),
        s.may_be_stopped && s.epoch.accepted ==> s.owes_resume() || s.epoch.resume_attempted,
        s.may_be_stopped && s.epoch.authorization_consumed && !s.epoch.accepted
            && !s.epoch.rejected ==> s.owes_protective_resume()
            || s.epoch.protective_resume_attempted,
        s.may_be_stopped && s.epoch.zero_candidate && !s.epoch.accepted && !s.epoch.rejected
            ==> s.owes_protective_resume() || s.epoch.protective_resume_attempted,
{
}

/// A record is too old for the live authorization exactly where it was made before it.
pub proof fn lemma_old_records<B>(s: State<B>, record: DiscoveryRecord, armed_at: u64)
    requires
        s.armed,
        s.armed_at_ns == Some(armed_at),
    ensures
        s.predates(record) <==> record.hook_ts_ns < armed_at,
{
}

/// A coordinator that never pauses owns nothing; one that is armed owns the queue; and one that is
/// not owns it while a resume may be owed.
pub proof fn lemma_ownership<B>(s: State<B>)
    ensures
        s.policy is Never ==> !s.active(),
        s.armed && !(s.policy is Never) ==> s.active(),
        !s.armed && !(s.policy is Never) ==> (s.active() <==> s.epoch.authorization_consumed
            || s.epoch.accepted || s.epoch.zero_candidate || (s.epoch.successor_installed
            && s.epoch.successor_unresolved && s.epoch.resume_succeeded)),
{
}

/// A word that says that a pause was requested is a debt: the child may be stopped and an attempt
/// is open. Where the request was refused it is none, and no attempt is opened.
pub proof fn lemma_requested<B>(s: State<B>, source: AuthorizationSource)
    ensures
        ({
            let (next, r) = s.classified(Some(2), RemovalDisposition::Normal, source);
            &&& r is Ok
            &&& next.may_be_stopped
            &&& next.epoch.authorization_consumed
            &&& next.attempt_open
            &&& s.epoch.successor_installed ==> next.epoch.successor_unresolved
            &&& next.epoch.accepted == s.epoch.accepted
        }),
        ({
            let (next, r) = s.classified(Some(2), RemovalDisposition::Rejected, source);
            &&& r is Ok
            &&& next.may_be_stopped <==> s.epoch.successor_installed
                && s.epoch.successor_unresolved
            &&& !next.epoch.authorization_consumed
            &&& next.attempt_open == s.attempt_open
            &&& next.counters == s.counters
        }),
{
    reveal(State::classified_requested);
    reveal(PauseEpoch::consumed);
}

/// A word that is not there contradicts every debt and every live authorization. Where there is
/// neither, the child is known to run.
pub proof fn lemma_absent<B>(
    s: State<B>,
    disposition: RemovalDisposition,
    source: AuthorizationSource,
)
    ensures
        ({
            let (next, r) = s.classified(None, disposition, source);
            &&& r is Ok <==> !s.resume_debt() && (s.policy is Never || !s.armed)
            &&& s.resume_debt() ==> next.may_be_stopped
            &&& r is Ok ==> !next.may_be_stopped && !next.epoch.authorization_consumed
                && !next.epoch.successor_unresolved
            &&& next.counters == s.counters
        }),
{
    reveal(State::classified_absent);
    reveal(PauseEpoch::released);
}

/// A word that is still armed contradicts a consumed authorization and an accepted stop, unless a
/// successor of unknown fate was installed. A bare candidate it refutes. Where nothing was consumed
/// and no successor stands, the child is known to run.
pub proof fn lemma_still_armed<B>(
    s: State<B>,
    disposition: RemovalDisposition,
    source: AuthorizationSource,
)
    ensures
        ({
            let (next, r) = s.classified(Some(1), disposition, source);
            let consumed = s.epoch.authorization_consumed || s.epoch.accepted;
            let successor = s.epoch.successor_installed && s.epoch.successor_unresolved;
            &&& r is Ok <==> !consumed || successor
            &&& r is Err ==> next.may_be_stopped == s.may_be_stopped
            &&& !consumed ==> !next.epoch.zero_candidate
            &&& !consumed && !successor ==> !next.may_be_stopped
            &&& consumed && successor ==> next.may_be_stopped
            &&& source is Removal && r is Ok ==> (next.may_be_stopped <==> consumed)
            &&& source is Removal && r is Ok ==> !(next.epoch.successor_installed
                && next.epoch.successor_unresolved)
            &&& next.counters == s.counters
            &&& next.attempt_open == s.attempt_open
        }),
{
    reveal(State::classified_armed);
    reveal(PauseEpoch::refuted);
    reveal(PauseEpoch::released);
}

/// A word that is neither armed nor requested says nothing: the state stays, and it is a fault.
pub proof fn lemma_unknown_word<B>(
    s: State<B>,
    word: u64,
    disposition: RemovalDisposition,
    source: AuthorizationSource,
)
    requires
        word != 1,
        word != 2,
    ensures
        s.classified(Some(word), disposition, source).0 == s,
        s.classified(Some(word), disposition, source).1 is Err,
{
}

/// A child counts as stopped exactly where its tasks are the expected ones and the state of each is
/// `T`.
pub proof fn lemma_all_stopped(states: Map<u32, u8>, expected: Map<u32, u8>)
    ensures
        all_stopped(states, expected) <==> {
            &&& forall|task: u32|
                #![trigger states.contains_key(task)]
                #![trigger expected.contains_key(task)]
                states.contains_key(task) <==> expected.contains_key(task)
            &&& forall|task: u32| #[trigger]
                states.contains_key(task) ==> states[task] as char == 'T'
        },
{
    reveal(all_stopped);
    if forall|task: u32|
        #![trigger states.contains_key(task)]
        #![trigger expected.contains_key(task)]
        states.contains_key(task) <==> expected.contains_key(task) {
        assert(states.dom() =~= expected.dom()) by {
            assert forall|task: u32| states.dom().contains(task) == expected.dom().contains(
                task,
            ) by {
                assert(states.contains_key(task) <==> expected.contains_key(task));
            }
        }
    }
    if all_stopped(states, expected) {
        assert forall|task: u32|
            #![trigger states.contains_key(task)]
            #![trigger expected.contains_key(task)]
            states.contains_key(task) <==> expected.contains_key(task) by {
            assert(states.dom().contains(task) == expected.dom().contains(task));
        }
    }
}

/// The state of a task is the letter after the name, whatever the name holds. A line without an end
/// of the name has no state.
pub proof fn lemma_task_states(name: Seq<u8>, letter: u8, rest: Seq<u8>)
    requires
        letter != 41,
        forall|j: int| 0 <= j < rest.len() ==> rest[j] != 41,
    ensures
        task_state(name + seq![41u8, 32u8, letter] + rest) == Some(letter),
        task_state(rest) is None,
{
    let line = name + seq![41u8, 32u8, letter] + rest;
    let at = name.len() as int;
    assert(line[at] == 41);
    assert(line[at + 1] == 32);
    assert(line[at + 2] == letter);
    assert forall|j: int| at < j < line.len() implies line[j] != 41 by {
        if j >= at + 3 {
            assert(line[j] == rest[j - at - 3]);
        }
    }
    assert(last_close(line, at));
    assert forall|i: int| last_close(line, i) implies i == at by {}
    assert forall|i: int| !last_close(rest, i) by {}
}

/// What an entry of the task directory shows: a task by its number, with the state of its line.
pub open spec fn shows_task(seen: TaskSeen, tid: u32, state: u8) -> bool {
    seen matches TaskSeen::Listed(name, Ok(line)) && unsigned_value(name@, u32::MAX as nat) == Some(
        tid as nat,
    ) && task_state(line@) == Some(state)
}

/// Whether an entry of the task directory shows a task.
pub open spec fn is_sound(seen: TaskSeen) -> bool {
    exists|tid: u32, state: u8| #[trigger] shows_task(seen, tid, state)
}

proof fn lemma_task_of(pid: u32, seen: TaskSeen)
    ensures
        task_of(pid, seen) is Ok <==> is_sound(seen),
        task_of(pid, seen) matches Ok((tid, state)) ==> shows_task(seen, tid, state),
        forall|tid: u32, state: u8| #[trigger]
            shows_task(seen, tid, state) ==> task_of(pid, seen) == Ok::<(u32, u8), Text>(
                (tid, state),
            ),
{
    if let Ok((tid, state)) = task_of(pid, seen) {
        if let TaskSeen::Listed(name, _) = seen {
            lemma_numbers_are_digits(name@, u32::MAX as nat);
        }
        assert(shows_task(seen, tid, state));
    }
}

proof fn lemma_tasks_of(pid: u32, seen: Seq<TaskSeen>, n: int)
    requires
        0 <= n <= seen.len(),
    ensures
        tasks_of(pid, seen, n) is Ok <==> forall|i: int|
            0 <= i < n ==> is_sound(#[trigger] seen[i]),
        tasks_of(pid, seen, n) matches Ok(states) ==> {
            &&& forall|i: int, tid: u32, state: u8|
                0 <= i < n && #[trigger] shows_task(seen[i], tid, state) ==> states.contains_key(
                    tid,
                )
            &&& forall|tid: u32| #[trigger]
                states.contains_key(tid) ==> is_shown(seen, n, tid, states[tid])
        },
    decreases n,
{
    if n > 0 {
        lemma_tasks_of(pid, seen, n - 1);
        lemma_task_of(pid, seen[n - 1]);
        if let Ok(states) = tasks_of(pid, seen, n) {
            let before = tasks_of(pid, seen, n - 1)->Ok_0;
            assert forall|tid: u32| #[trigger] states.contains_key(tid) implies is_shown(
                seen,
                n,
                tid,
                states[tid],
            ) by {
                if !shows_task(seen[n - 1], tid, states[tid]) {
                    assert(before.contains_key(tid));
                    let i = choose|i: int|
                        0 <= i < n - 1 && shows_task(#[trigger] seen[i], tid, before[tid]);
                    assert(shows_task(seen[i], tid, states[tid]));
                }
            }
        }
    }
}

/// Whether one of the first `n` entries of the task directory shows a task with a state.
pub open spec fn is_shown(seen: Seq<TaskSeen>, n: int, tid: u32, state: u8) -> bool {
    exists|i: int| 0 <= i < n && shows_task(#[trigger] seen[i], tid, state)
}

/// The states of a child's tasks: every entry of the directory shows a task, every task is listed,
/// and no state is listed that no entry shows. One entry that shows none, and a directory without
/// entries, is a fault.
pub proof fn lemma_every_task_is_read(pid: u32, seen: Result<Vec<TaskSeen>, String>)
    ensures
        states_of(pid, seen) is Ok <==> {
            &&& seen is Ok
            &&& seen->Ok_0@.len() > 0
            &&& forall|i: int| 0 <= i < seen->Ok_0@.len() ==> is_sound(#[trigger] seen->Ok_0@[i])
        },
        states_of(pid, seen) matches Ok(states) ==> {
            &&& forall|i: int, tid: u32, state: u8|
                0 <= i < seen->Ok_0@.len() && #[trigger] shows_task(seen->Ok_0@[i], tid, state)
                    ==> states.contains_key(tid)
            &&& forall|tid: u32| #[trigger]
                states.contains_key(tid) ==> is_shown(
                    seen->Ok_0@,
                    seen->Ok_0@.len() as int,
                    tid,
                    states[tid],
                )
        },
{
    if let Ok(list) = seen {
        lemma_tasks_of(pid, list@, list@.len() as int);
    }
}

/// An application of records succeeds exactly where the records were applied and the terminal
/// authority was reconciled before and after. It is then as complete as the engine said, and the
/// clocks give its reason.
pub proof fn lemma_applied(seen: BatchSeen, deadline: Option<u64>)
    ensures
        settled(seen, deadline) is Ok <==> (seen matches BatchSeen::Applied {
            applied,
            reconciled,
            ..
        } && applied is Ok && reconciled is Ok),
        settled(seen, deadline) matches Ok(outcome) ==> (seen matches BatchSeen::Applied {
            before_ns,
            after_ns,
            applied: Ok((changed, complete)),
            nested_deadline,
            ..
        } && outcome.required_complete == complete && outcome.diagnostic == apply_diagnostic(
            before_ns,
            after_ns,
            deadline,
            complete,
            nested_deadline,
        )),
        seen is Unreconciled ==> !changes_plan(seen),
        seen is NotRestored ==> !changes_plan(seen),
        forall|before_ns: Option<u64>, after_ns: Option<u64>, changed: bool, complete: bool,
            nested_deadline: bool, reconciled: Result<(), String>|
            #![trigger changes_plan(BatchSeen::Applied {
                before_ns,
                after_ns,
                applied: Ok((changed, complete)),
                nested_deadline,
                reconciled,
            })]
            changes_plan(BatchSeen::Applied {
                before_ns,
                after_ns,
                applied: Ok((changed, complete)),
                nested_deadline,
                reconciled,
            }) == changed,
{
}

/// The message of an application that failed ends with what the engine said, and with why the
/// authority could not be reconciled where that failed too.
pub proof fn lemma_both_failures_are_told(
    before_ns: Option<u64>,
    after_ns: Option<u64>,
    nested_deadline: bool,
    deadline: Option<u64>,
    fault: String,
    error: String,
)
    ensures
        ({
            let one = settled(
                BatchSeen::Applied {
                    before_ns,
                    after_ns,
                    applied: Err(fault),
                    nested_deadline,
                    reconciled: Ok(()),
                },
                deadline,
            )->Err_0;
            let both = settled(
                BatchSeen::Applied {
                    before_ns,
                    after_ns,
                    applied: Err(fault),
                    nested_deadline,
                    reconciled: Err(error),
                },
                deadline,
            )->Err_0;
            let late = settled(
                BatchSeen::Applied {
                    before_ns,
                    after_ns,
                    applied: Ok((true, true)),
                    nested_deadline,
                    reconciled: Err(error),
                },
                deadline,
            )->Err_0;
            &&& one.message.skip(one.message.len() - fault@.len()) == fault@
            &&& both.message == one.message + "; "@ + late.message
            &&& late.message.skip(late.message.len() - error@.len()) == error@
            &&& one.diagnostic == both.diagnostic
            &&& one.diagnostic == late.diagnostic
        }),
{
    let one = "discovery batch application failed: "@ + fault@;
    let late = reconcile_message(
        reconcile_message(error@),
    );
    assert(one.skip(one.len() - fault@.len()) =~= fault@);
    assert(late.skip(late.len() - error@.len()) =~= error@);
}

/// A revalidation gives back what it met: that it ran to its end and how complete, the item of the
/// pause owner, or its failure.
pub proof fn lemma_revalidated<B>(seen: RevalidationSeen<B>)
    ensures
        settled_revalidation(seen) is Err <==> seen is Failed,
        seen matches RevalidationSeen::Complete(changed, complete) ==> (settled_revalidation(
            seen,
        ) matches Ok(PauseRevalidationOutcome::Complete(outcome)) && outcome.required_complete
            == complete && outcome.diagnostic is None),
        seen matches RevalidationSeen::Deferred(item) ==> (settled_revalidation(
            seen,
        ) matches Ok(PauseRevalidationOutcome::Deferred(given)) && given == item),
{
}

} // verus!
