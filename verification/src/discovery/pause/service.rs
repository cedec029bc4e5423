//! The service of a pause coordinator: arming, taking in what the queue holds, and revalidation
//! after the release of the child.

use crate::cli::PausePolicy;
use crate::discovery::pause::calls::{
    call_arm, call_authorization, call_now, call_revalidate, call_ring_loss, call_same_generation,
};
use crate::discovery::pause::cleanup::terminal_cleanup;
use crate::discovery::pause::cycle::{
    accepted_cycle, await_record, check_cancelled, check_ring, fault_from, fault_of, find_winner,
    judge_winner, Verdict,
};
use crate::discovery::pause::diagnostic::{
    PauseDiagnostic, MSG_ARM_FAILED, MSG_POST_RELEASE_REVALIDATION_INCOMPLETE,
};
use crate::discovery::pause::evidence::{
    confirms, lemma_log_confirms, lemma_received_on_evidence, lemma_service_on_evidence,
};
use crate::discovery::pause::failure::{fail_cycle, reject_cycle};
use crate::discovery::pause::io::{
    comes_to, extends, group_history, task_reply, tied, Event, PauseIo, PauseRevalidationOutcome,
    TimedItem,
};
use crate::discovery::pause::refusal::{
    lemma_log_is_unresumed, lemma_refused_is_never_resumed, refused, unresumed,
};
use crate::discovery::pause::rules::{
    bounded_cycle, clamp_deadline, cycle_after, policy_error, policy_fail, settled, tighter,
    PauseError, PauseFail,
};
use crate::discovery::pause::state::{
    blank_epoch, ArmResult, PauseCoordinator, PauseCounters, PauseEpoch, PauseStatus, State,
};
use crate::discovery::pause::steps::{
    apply_unowned, doubt, doubted, miss, missed, seen, take_stop_candidate, timed_dequeue, Fault,
    FaultText, TURNS,
};
use crate::record::{exact_pid, DiscoveryItem, DiscoveryRecord, PAUSE_ARMED, PAUSE_REQUESTED};
use crate::text::{heard, one_text, texts, Text};
use std::collections::BTreeMap;
use vstd::prelude::*;

verus! {

broadcast use group_history;

impl<B> State<B> {
    /// The state once a terminal batch is at hand.
    pub open spec fn holding(self, batch: Option<B>) -> State<B> {
        State { terminal_batch: batch, ..self }
    }

    /// The state once the deadline of a failure is as tight as a candidate.
    pub open spec fn due_by(self, candidate: u64) -> State<B> {
        State { failure_deadline: Some(tighter(self.failure_deadline, candidate)), ..self }
    }

    /// The state once the deadline of a failure is dropped.
    pub open spec fn not_due(self) -> State<B> {
        State { failure_deadline: None, ..self }
    }

    /// The state once a zero candidate is explained by an authorization that no hook has won.
    pub open spec fn explained(self) -> State<B> {
        State {
            may_be_stopped: false,
            epoch: PauseEpoch { zero_candidate: false, ..self.epoch },
            ..self
        }
    }

    /// The state at the start of a cycle.
    pub open spec fn cycle_begun(self) -> State<B> {
        State {
            epoch: PauseEpoch {
                authorization_consumed: true,
                zero_candidate: self.epoch.zero_candidate,
                ..blank_epoch()
            },
            ..self
        }
    }

    /// The state once a request is known to have consumed the authorization.
    pub open spec fn requested(self) -> State<B> {
        State {
            may_be_stopped: true,
            epoch: PauseEpoch { authorization_consumed: true, ..self.epoch },
            ..self
        }
    }

    /// The state once an authorization stands that was installed at `armed_at_ns` or later.
    pub open spec fn armed_since(self, armed_at_ns: Option<u64>) -> State<B> {
        State { armed: true, armed_at_ns, ..self }
    }

    /// The state once the ring loss to compare with is known.
    pub open spec fn from_loss(self, loss: u64) -> State<B> {
        State { ring_loss_baseline: loss, ..self }
    }

    /// The deadline of a failure, or the end of the clock.
    pub open spec fn limit(self) -> u64 {
        match self.failure_deadline {
            Some(deadline) => deadline,
            None => u64::MAX,
        }
    }
}

/// What a received item is to this coordinator.
pub enum Admission {
    /// It is dealt with.
    Settled(Result<(), PauseFail>),
    /// It ends the cycle.
    Faulty(FaultText),
    /// It is a record from before the live authorization.
    Stale,
    /// It may belong to the live authorization.
    Candidate(DiscoveryRecord),
}

/// A record that came in while no authorization stands.
#[verifier::opaque]
pub open spec fn unarmed<B>(s: State<B>, first: DiscoveryRecord, t: Seq<Event<B>>) -> (
    State<B>,
    Admission,
) {
    if first.send_signal_rc == 0 {
        let (s, word) = call_authorization(s, t);
        match word {
            Err(message) => (s, Admission::Faulty(doubt(message))),
            Ok(word) => if word == Some(PAUSE_REQUESTED) {
                (
                    s.stopped(),
                    Admission::Faulty(
                        doubt("REQUESTED authorization existed without an active epoch"@),
                    ),
                )
            } else {
                let (s, r) = apply_unowned(s.running(), None, t);
                (s, Admission::Settled(r))
            },
        }
    } else {
        let (s, r) = apply_unowned(s, None, t);
        (s, Admission::Settled(r))
    }
}

/// What a received item is to this coordinator, once it is taken in.
#[verifier::opaque]
pub open spec fn look_at<B>(s: State<B>, item: DiscoveryItem, t: Seq<Event<B>>) -> (
    State<B>,
    Admission,
) {
    let (s, cancelled) = check_cancelled(s, t);
    match cancelled {
        Err(fault) => (s, Admission::Faulty(fault)),
        Ok(()) => match item {
            DiscoveryItem::Malformed => (
                s.attempting(),
                Admission::Faulty(miss("malformed discovery record in pause epoch"@)),
            ),
            DiscoveryItem::Record(first) => if first.pid() != s.pid {
                (s, Admission::Faulty(miss("unaccounted discovery record in pause epoch"@)))
            } else if !s.armed {
                unarmed(s, first, t)
            } else if s.predates(first) {
                (s, Admission::Stale)
            } else {
                (s, Admission::Candidate(first))
            },
        },
    }
}

/// The taking in of a received item, with the terminal batch that it came out of.
#[verifier::opaque]
pub open spec fn take_in<B>(
    s: State<B>,
    batch: Option<B>,
    after_ns: u64,
    item: DiscoveryItem,
    t: Seq<Event<B>>,
) -> (State<B>, Admission) {
    if batch is Some && s.terminal_batch is Some {
        (
            s,
            Admission::Settled(
                Err(
                    policy_fail(
                        s.policy,
                        "more than one terminal discovery batch reached the coordinator"@,
                        true,
                    ),
                ),
            ),
        )
    } else {
        let s = if batch is Some {
            s.holding(batch)
        } else {
            s
        };
        let s = take_stop_candidate(s, t).due_by(bounded_cycle(after_ns));
        look_at(s, item, t)
    }
}

/// What the record of a live authorization means.
pub enum Epoch {
    /// It is dealt with.
    Settled(Result<(), PauseFail>),
    /// It ends the cycle.
    Faulty(FaultText),
    /// It starts a cycle.
    Begun,
}

/// The word behind a record that may belong to the live authorization. Only a requested word
/// starts a cycle. An armed word refutes a zero candidate: the kernel is the only writer of the
/// request and never clears it.
#[verifier::opaque]
pub open spec fn open_epoch<B>(s: State<B>, t: Seq<Event<B>>) -> (State<B>, Epoch) {
    let (s, word) = call_authorization(s, t);
    match word {
        Err(message) => (s, Epoch::Faulty(doubt(message))),
        Ok(word) => if word == Some(PAUSE_REQUESTED) {
            let s = s.stopped().attempting();
            if s.epoch.successor() && !s.epoch.resume_succeeded {
                (s, Epoch::Faulty(doubt("successor was consumed before prior resume"@)))
            } else {
                (s.cycle_begun(), Epoch::Begun)
            }
        } else if s.epoch.authorization_consumed {
            (s, Epoch::Faulty(doubt("pause request authorization did not remain REQUESTED"@)))
        } else if s.epoch.zero_candidate && word != Some(PAUSE_ARMED) {
            (
                s.attempting(),
                Epoch::Faulty(
                    miss("zero stop candidate did not retain REQUESTED authorization"@),
                ),
            )
        } else {
            let (s, r) = apply_unowned(s.explained(), None, t);
            (s, Epoch::Settled(r))
        },
    }
}

/// What a whole cycle came to, before a fault or a refusal is dealt with.
pub enum CycleEnd {
    Settled(Result<(), PauseFail>),
    Faulty(FaultText),
    Refused(u64),
}

/// The cycle of a received record.
#[verifier::opaque]
pub open spec fn cycle<B>(
    s: State<B>,
    received: TimedItem<B>,
    first: DiscoveryRecord,
    t: Seq<Event<B>>,
) -> (State<B>, CycleEnd) {
    let (s, epoch) = open_epoch(s, t);
    match epoch {
        Epoch::Settled(r) => (s, CycleEnd::Settled(r)),
        Epoch::Faulty(fault) => (s, CycleEnd::Faulty(fault)),
        Epoch::Begun => {
            let (s, found) = find_winner(s, received, first, t);
            match found {
                Err(fault) => (s, CycleEnd::Faulty(fault)),
                Ok(winner) => {
                    let (s, verdict) = judge_winner(s, winner);
                    match verdict {
                        Err(fault) => (s, CycleEnd::Faulty(fault)),
                        Ok(Verdict::Refused(deadline)) => (s, CycleEnd::Refused(deadline)),
                        Ok(Verdict::Accepted(deadline)) => {
                            let (s, r) = accepted_cycle(s, deadline, t);
                            match r {
                                Err(fault) => (s, CycleEnd::Faulty(fault)),
                                Ok(()) => (s, CycleEnd::Settled(Ok(()))),
                            }
                        },
                    }
                },
            }
        },
    }
}

/// The cycle of a received record, with its end.
#[verifier::opaque]
pub open spec fn serve_candidate<B>(
    s: State<B>,
    received: TimedItem<B>,
    first: DiscoveryRecord,
    t: Seq<Event<B>>,
) -> (State<B>, Result<(), PauseFail>) {
    let (s, end) = cycle(s, received, first, t);
    match end {
        CycleEnd::Settled(r) => (s, r),
        CycleEnd::Faulty(fault) => fail_cycle(s, fault.message, fault.lifecycle, t),
        CycleEnd::Refused(deadline) => reject_cycle(s, deadline, t),
    }
}

/// A received item without its terminal batch.
pub open spec fn bare<B>(received: TimedItem<B>) -> TimedItem<B> {
    TimedItem { terminal_batch: None, ..received }
}

/// What the word behind a record from before the live authorization means.
pub enum StaleWord {
    Settled(Result<(), PauseFail>),
    Faulty(FaultText),
    Requested(u64),
}

/// The fault of a word that is neither armed nor requested.
pub open spec fn stale_unknown() -> FaultText {
    doubt("stale record authorization was absent or unknown"@)
}

/// The word after records from before the live authorization were applied.
#[verifier::opaque]
pub open spec fn stale_applied<B>(s: State<B>, deadline: u64, t: Seq<Event<B>>) -> (
    State<B>,
    StaleWord,
) {
    let (s, word) = call_authorization(s, t);
    match word {
        Err(message) => (s, StaleWord::Faulty(doubt(message))),
        Ok(word) => if word == Some(PAUSE_ARMED) {
            (s.not_due(), StaleWord::Settled(Ok(())))
        } else if word == Some(PAUSE_REQUESTED) {
            (s, StaleWord::Requested(deadline))
        } else {
            (s, StaleWord::Faulty(stale_unknown()))
        },
    }
}

/// The word behind a record from before the live authorization.
#[verifier::opaque]
pub open spec fn stale_word<B>(s: State<B>, t: Seq<Event<B>>) -> (State<B>, StaleWord) {
    let (s, word) = call_authorization(s, t);
    match word {
        Err(message) => (s, StaleWord::Faulty(doubt(message))),
        Ok(word) => {
            let deadline = s.limit();
            if word == Some(PAUSE_REQUESTED) {
                (s, StaleWord::Requested(deadline))
            } else if word == Some(PAUSE_ARMED) {
                let (s, applied) = apply_unowned(s, Some(deadline), t);
                match applied {
                    Err(fail) => (s, StaleWord::Faulty(fault_of(fail))),
                    Ok(()) => stale_applied(s, deadline, t),
                }
            } else {
                (s, StaleWord::Faulty(stale_unknown()))
            }
        },
    }
}

/// Whether an item is a record of the child from before the live authorization.
pub open spec fn stale_item<B>(s: State<B>, item: DiscoveryItem) -> bool {
    item matches DiscoveryItem::Record(record) && record.pid() == s.pid && s.predates(record)
}

/// One turn of the wait for the record of a request: the item, where one came in.
#[verifier::opaque]
pub open spec fn requested_turn<B>(s: State<B>, deadline: u64, t: Seq<Event<B>>) -> (
    State<B>,
    Result<Option<TimedItem<B>>, FaultText>,
) {
    let (s, cancelled) = check_cancelled(s, t);
    match cancelled {
        Err(fault) => (s, Err(fault)),
        Ok(()) => {
            let (s, ring) = check_ring(s, t);
            match ring {
                Err(fault) => (s, Err(fault)),
                Ok(()) => requested_item(s, deadline, t),
            }
        },
    }
}

/// The dequeue of such a turn. Records from before the live authorization are applied.
#[verifier::opaque]
pub open spec fn requested_item<B>(s: State<B>, deadline: u64, t: Seq<Event<B>>) -> (
    State<B>,
    Result<Option<TimedItem<B>>, FaultText>,
) {
    let (s, item) = timed_dequeue(s, Some(deadline), t);
    match item {
        Err(fault) => (s, Err(fault)),
        Ok(None) => {
            let (s, waited) = await_record(
                s,
                deadline,
                "pause request had no discovery record"@,
                t,
            );
            match waited {
                Err(fault) => (s, Err(fault)),
                Ok(()) => (s, Ok(None)),
            }
        },
        Ok(Some(received)) => if stale_item(s, received.item) {
            let (s, applied) = apply_unowned(s, Some(deadline), t);
            match applied {
                Err(fail) => (s, Err(fault_of(fail))),
                Ok(()) => (s, Ok(None)),
            }
        } else {
            (s, Ok(Some(received)))
        },
    }
}

/// The wait for the record of a request, of at most `turns` turns.
#[verifier::opaque]
pub open spec fn await_request<B>(s: State<B>, deadline: u64, turns: nat, t: Seq<Event<B>>) -> (
    State<B>,
    Result<TimedItem<B>, FaultText>,
)
    decreases turns,
{
    if turns == 0 {
        (s, Err(miss("pause request had no discovery record"@)))
    } else {
        let (s, r) = requested_turn(s, deadline, t);
        match r {
            Err(fault) => (s, Err(fault)),
            Ok(Some(received)) => (s, Ok(received)),
            Ok(None) => await_request(s, deadline, (turns - 1) as nat, t),
        }
    }
}

/// The record of a request that the authorization word has shown.
#[verifier::opaque]
pub open spec fn seek_request<B>(s: State<B>, fixed: u64, t: Seq<Event<B>>) -> (
    State<B>,
    Result<TimedItem<B>, FaultText>,
) {
    let s = s.attempting().requested();
    let deadline = tighter(s.failure_deadline, fixed);
    let s = s.due_by(fixed);
    if s.pending_records.len() > 0 {
        let (s, applied) = apply_unowned(s, Some(deadline), t);
        match applied {
            Err(fail) => (s, Err(fault_of(fail))),
            Ok(()) => await_request(s, deadline, TURNS as nat, t),
        }
    } else {
        await_request(s, deadline, TURNS as nat, t)
    }
}

/// A received item that is not from before the live authorization.
#[verifier::opaque]
pub open spec fn serve_fresh<B>(s: State<B>, received: TimedItem<B>, t: Seq<Event<B>>) -> (
    State<B>,
    Result<(), PauseFail>,
) {
    let (s, admission) = take_in(
        s,
        received.terminal_batch,
        received.after_ns,
        received.item,
        t,
    );
    match admission {
        Admission::Settled(r) => (s, r),
        Admission::Faulty(fault) => fail_cycle(s, fault.message, fault.lifecycle, t),
        Admission::Stale => fail_cycle(s, stale_unknown().message, true, t),
        Admission::Candidate(first) => serve_candidate(s, bare(received), first, t),
    }
}

/// The service of a request that the authorization word has shown.
#[verifier::opaque]
pub open spec fn service_requested<B>(s: State<B>, fixed: u64, t: Seq<Event<B>>) -> (
    State<B>,
    Result<(), PauseFail>,
) {
    let (s, found) = seek_request(s, fixed, t);
    match found {
        Err(fault) => fail_cycle(s, fault.message, fault.lifecycle, t),
        Ok(received) => serve_fresh(s, received, t),
    }
}

/// The service of a record from before the live authorization.
#[verifier::opaque]
pub open spec fn serve_stale<B>(s: State<B>, t: Seq<Event<B>>) -> (
    State<B>,
    Result<(), PauseFail>,
) {
    let (s, word) = stale_word(s, t);
    match word {
        StaleWord::Settled(r) => (s, r),
        StaleWord::Faulty(fault) => fail_cycle(s, fault.message, fault.lifecycle, t),
        StaleWord::Requested(deadline) => service_requested(s, deadline, t),
    }
}

/// The service of a received item.
#[verifier::opaque]
pub open spec fn service_received<B>(s: State<B>, received: TimedItem<B>, t: Seq<Event<B>>) -> (
    State<B>,
    Result<(), PauseFail>,
) {
    let (s, admission) = take_in(
        s,
        received.terminal_batch,
        received.after_ns,
        received.item,
        t,
    );
    match admission {
        Admission::Settled(r) => (s, r),
        Admission::Faulty(fault) => fail_cycle(s, fault.message, fault.lifecycle, t),
        Admission::Stale => serve_stale(s, t),
        Admission::Candidate(first) => serve_candidate(s, bare(received), first, t),
    }
}

/// The service of an armed coordinator whose queue is empty.
#[verifier::opaque]
pub open spec fn serve_word<B>(s: State<B>, t: Seq<Event<B>>) -> (
    State<B>,
    Result<(), PauseFail>,
) {
    let (s, word) = call_authorization(s, t);
    match word {
        Err(message) => fail_cycle(s, message, true, t),
        Ok(word) => if word == Some(PAUSE_ARMED) {
            (s, Ok(()))
        } else if word == Some(PAUSE_REQUESTED) {
            let (s, now) = call_now(s, t);
            match now {
                Err(message) => fail_cycle(s, message, true, t),
                Ok(now) => service_requested(s, bounded_cycle(now), t),
            }
        } else {
            fail_cycle(s, "armed pause authorization was absent or unknown"@, true, t)
        },
    }
}

/// The service of an empty queue.
#[verifier::opaque]
pub open spec fn serve_empty<B>(s: State<B>, t: Seq<Event<B>>) -> (
    State<B>,
    Result<(), PauseFail>,
) {
    let (s, loss) = call_ring_loss(s, t);
    match loss {
        Err(message) => fail_cycle(s, message, true, t),
        Ok(loss) => if !s.armed {
            (s, Ok(()))
        } else if loss > s.ring_loss_baseline {
            fail_cycle(s.attempting(), "discovery record reservation loss"@, false, t)
        } else {
            serve_word(s, t)
        },
    }
}

/// One service: at most one item is taken from the queue.
#[verifier::opaque]
pub open spec fn service<B>(s: State<B>, t: Seq<Event<B>>) -> (State<B>, Result<(), PauseFail>) {
    if s.policy == PausePolicy::Never {
        (s, Ok(()))
    } else {
        let (s, item) = timed_dequeue(s, None, t);
        match item {
            Err(fault) => fail_cycle(s, fault.message, true, t),
            Ok(None) => serve_empty(s, t),
            Ok(Some(received)) => service_received(s, received, t),
        }
    }
}

/// The service of an item that a revalidation met. It has not passed the queue of this
/// coordinator, so a record of it is kept here.
#[verifier::opaque]
pub open spec fn service_deferred<B>(s: State<B>, received: TimedItem<B>, t: Seq<Event<B>>) -> (
    State<B>,
    Result<(), PauseFail>,
) {
    match received.item {
        DiscoveryItem::Record(record) => service_received(s.kept(record), received, t),
        DiscoveryItem::Malformed => service_received(s, received, t),
    }
}

/// A result that leaves the coordinator disabled.
pub open spec fn disabled(r: Result<(), PauseFail>) -> Result<ArmResult, PauseFail> {
    match r {
        Ok(()) => Ok(ArmResult::Disabled),
        Err(fail) => Err(fail),
    }
}

/// An arm that failed before any authorization was installed.
#[verifier::opaque]
pub open spec fn arm_failed<B>(s: State<B>, message: Text, t: Seq<Event<B>>) -> (
    State<B>,
    Result<ArmResult, PauseFail>,
) {
    let s = s.attempting().reasoned(PauseDiagnostic::ArmFailedBeforeEpoch).unarmable();
    match s.policy {
        PausePolicy::Auto => (s.partial().noticed(), Ok(ArmResult::Disabled)),
        PausePolicy::Always => {
            let (s, r) = terminal_cleanup(s, seq![message], true, false, t);
            (s, disabled(r))
        },
        PausePolicy::Never => (s, Ok(ArmResult::Disabled)),
    }
}

/// An arm that failed with an authorization that may stand.
#[verifier::opaque]
pub open spec fn arm_cleanup_failed<B>(
    s: State<B>,
    message: Text,
    lifecycle: bool,
    t: Seq<Event<B>>,
) -> (State<B>, Result<ArmResult, PauseFail>) {
    let s = s.attempting().reasoned(PauseDiagnostic::ArmFailedBeforeEpoch);
    let (s, r) = fail_cycle(s, message, lifecycle, t);
    (s, disabled(r))
}

/// An arm that failed because something could not be read.
#[verifier::opaque]
pub open spec fn arm_unread<B>(s: State<B>, message: Text, t: Seq<Event<B>>) -> (
    State<B>,
    Result<ArmResult, PauseFail>,
) {
    let (s, r) = fail_cycle(s.attempting(), message, true, t);
    (s, disabled(r))
}

/// The exchange that installs an authorization, and its read back.
#[verifier::opaque]
pub open spec fn arm_exchange<B>(s: State<B>, t: Seq<Event<B>>) -> (
    State<B>,
    Result<ArmResult, PauseFail>,
) {
    let (s, now) = call_now(s, t);
    let (s, armed) = call_arm(s, t);
    match armed {
        Err(message) => arm_cleanup_failed(s, message, false, t),
        Ok(()) => {
            let (s, word) = call_authorization(s, t);
            match word {
                Err(message) => arm_cleanup_failed(s, message, true, t),
                Ok(word) => if word == Some(PAUSE_ARMED) {
                    match now {
                        Ok(now) => (s.armed_since(Some(now)), Ok(ArmResult::Armed)),
                        Err(_) => (s.armed_since(None), Ok(ArmResult::Armed)),
                    }
                } else {
                    arm_cleanup_failed(
                        s,
                        "pause authorization did not read back ARMED"@,
                        true,
                        t,
                    )
                },
            }
        },
    }
}

/// The installation of an authorization, where the policy asks for one, none stands and a further
/// one is not forbidden.
#[verifier::opaque]
pub open spec fn arm<B>(s: State<B>, t: Seq<Event<B>>) -> (
    State<B>,
    Result<ArmResult, PauseFail>,
) {
    if s.policy == PausePolicy::Never || !s.rearming_enabled {
        (s, Ok(ArmResult::Disabled))
    } else if s.armed {
        (s, Ok(ArmResult::Armed))
    } else {
        let (s, same) = call_same_generation(s, s.pid, s.generation, t);
        match same {
            Err(message) => arm_unread(s, message, t),
            Ok(false) => arm_failed(s, MSG_ARM_FAILED@, t),
            Ok(true) => {
                let (s, loss) = call_ring_loss(s, t);
                match loss {
                    Err(message) => arm_unread(s, message, t),
                    Ok(loss) => arm_exchange(s.from_loss(loss), t),
                }
            },
        }
    }
}

/// One revalidation after the release of the child: `None` where it has to be run again.
#[verifier::opaque]
pub open spec fn revalidate_turn<B>(s: State<B>, t: Seq<Event<B>>) -> (
    State<B>,
    Option<Result<(), PauseFail>>,
) {
    let owned = s.active();
    let (s, outcome) = call_revalidate(s, owned, t);
    match outcome {
        Err(message) => if owned {
            let (s, r) = fail_cycle(s.attempting(), message, false, t);
            (s, Some(r))
        } else {
            (s, Some(Err(policy_fail(s.policy, message, true))))
        },
        Ok(PauseRevalidationOutcome::Deferred(received)) => if owned {
            let (s, r) = service_deferred(s, received, t);
            match r {
                Ok(()) => (s, None),
                Err(fail) => (s, Some(Err(fail))),
            }
        } else {
            (
                s,
                Some(
                    Err(
                        policy_fail(
                            s.policy,
                            "ordinary revalidation returned a pause-owned discovery item"@,
                            true,
                        ),
                    ),
                ),
            )
        },
        Ok(PauseRevalidationOutcome::Complete(outcome)) => if outcome.required_complete || !owned {
            (s, Some(Ok(())))
        } else {
            revalidate_incomplete(s, t)
        },
    }
}

/// A revalidation that did not close what is required.
#[verifier::opaque]
pub open spec fn revalidate_incomplete<B>(s: State<B>, t: Seq<Event<B>>) -> (
    State<B>,
    Option<Result<(), PauseFail>>,
) {
    let s = s.attempting().reasoned(PauseDiagnostic::PostReleaseRevalidationIncomplete);
    let (s, r) = fail_cycle(s, MSG_POST_RELEASE_REVALIDATION_INCOMPLETE@, false, t);
    (s, Some(r))
}

/// The revalidations after the release of the child, of which there are at most `turns`.
#[verifier::opaque]
pub open spec fn revalidate<B>(s: State<B>, turns: nat, t: Seq<Event<B>>) -> (
    State<B>,
    Result<(), PauseFail>,
)
    decreases turns,
{
    if turns == 0 {
        (s, Err(policy_fail(s.policy, MSG_POST_RELEASE_REVALIDATION_INCOMPLETE@, true)))
    } else {
        let (s, r) = revalidate_turn(s, t);
        match r {
            Some(r) => (s, r),
            None => revalidate(s, (turns - 1) as nat, t),
        }
    }
}

/// The state of a coordinator that has done nothing yet.
pub open spec fn fresh_state<B>(
    policy: PausePolicy,
    pid: u32,
    generation: u64,
    expected_tasks: Map<u32, u8>,
) -> State<B> {
    State {
        policy,
        pid,
        generation,
        expected_tasks,
        counters: PauseCounters { attempts: 0, confirmed: 0, partial: 0 },
        epoch: blank_epoch(),
        armed: false,
        armed_at_ns: None,
        rearming_enabled: policy != PausePolicy::Never,
        may_be_stopped: false,
        attempt_open: false,
        ring_loss_baseline: 0,
        active_deadline: None,
        failure_deadline: None,
        failure_items: 0,
        pending_records: Seq::empty(),
        unvalidated_records: 0,
        terminal_batch: None,
        pending_diagnostic: None,
        diagnostic_annotated: false,
        cycles: 0,
        cleaning: false,
        cleaned: false,
        notices: Seq::empty(),
        trace: Seq::empty(),
    }
}

/// What a received item is to this coordinator.
pub enum Admitted {
    Settled(Result<(), PauseError>),
    Faulty(Fault),
    Stale,
    Candidate(DiscoveryRecord),
}

impl View for Admitted {
    type V = Admission;

    open spec fn view(&self) -> Admission {
        match *self {
            Admitted::Settled(r) => Admission::Settled(settled(r)),
            Admitted::Faulty(fault) => Admission::Faulty(fault@),
            Admitted::Stale => Admission::Stale,
            Admitted::Candidate(first) => Admission::Candidate(first),
        }
    }
}

/// What a cycle came to, before a fault or a refusal is dealt with.
pub enum Ended {
    Settled(Result<(), PauseError>),
    Faulty(Fault),
    Refused(u64),
}

impl View for Ended {
    type V = CycleEnd;

    open spec fn view(&self) -> CycleEnd {
        match *self {
            Ended::Settled(r) => CycleEnd::Settled(settled(r)),
            Ended::Faulty(fault) => CycleEnd::Faulty(fault@),
            Ended::Refused(deadline) => CycleEnd::Refused(deadline),
        }
    }
}

/// What the record of a live authorization means.
pub enum Opened {
    Settled(Result<(), PauseError>),
    Faulty(Fault),
    Begun,
}

impl View for Opened {
    type V = Epoch;

    open spec fn view(&self) -> Epoch {
        match *self {
            Opened::Settled(r) => Epoch::Settled(settled(r)),
            Opened::Faulty(fault) => Epoch::Faulty(fault@),
            Opened::Begun => Epoch::Begun,
        }
    }
}

/// What the word behind a record from before the live authorization means.
pub enum StaleRead {
    Settled(Result<(), PauseError>),
    Faulty(Fault),
    Requested(u64),
}

impl View for StaleRead {
    type V = StaleWord;

    open spec fn view(&self) -> StaleWord {
        match *self {
            StaleRead::Settled(r) => StaleWord::Settled(settled(r)),
            StaleRead::Faulty(fault) => StaleWord::Faulty(fault@),
            StaleRead::Requested(deadline) => StaleWord::Requested(deadline),
        }
    }
}

/// What one revalidation came to, seen by the characters of its messages.
pub open spec fn revalidated(r: Option<Result<(), PauseError>>) -> Option<Result<(), PauseFail>> {
    match r {
        Some(r) => Some(settled(r)),
        None => None,
    }
}

impl<B> PauseCoordinator<B> {
    /// Takes a terminal batch in hand.
    fn hold(&mut self, batch: Option<B>)
        ensures
            comes_to(old(self)@.holding(batch), final(self)@),
    {
        self.terminal_batch = batch;
    }

    /// Tightens the deadline of a failure.
    fn be_due(&mut self, candidate: u64) -> (deadline: u64)
        ensures
            deadline == tighter(old(self)@.failure_deadline, candidate),
            comes_to(old(self)@.due_by(candidate), final(self)@),
    {
        clamp_deadline(&mut self.failure_deadline, candidate)
    }

    /// Drops the deadline of a failure.
    fn be_not_due(&mut self)
        ensures
            comes_to(old(self)@.not_due(), final(self)@),
    {
        self.failure_deadline = None;
    }

    /// Drops a zero candidate that is explained.
    fn explain(&mut self)
        ensures
            comes_to(old(self)@.explained(), final(self)@),
    {
        self.epoch.zero_candidate = false;
        self.may_be_stopped = false;
    }

    /// Starts a cycle.
    fn begin_cycle(&mut self)
        ensures
            comes_to(old(self)@.cycle_begun(), final(self)@),
    {
        self.epoch = PauseEpoch {
            authorization_consumed: true,
            zero_candidate: self.epoch.zero_candidate,
            ..PauseEpoch::default()
        };
    }

    /// Notes that a request has consumed the authorization.
    fn note_requested(&mut self)
        ensures
            comes_to(old(self)@.requested(), final(self)@),
    {
        self.may_be_stopped = true;
        self.epoch.authorization_consumed = true;
    }

    /// Notes that an authorization stands.
    fn note_armed(&mut self, armed_at_ns: Option<u64>)
        ensures
            comes_to(old(self)@.armed_since(armed_at_ns), final(self)@),
    {
        self.armed = true;
        self.armed_at_ns = armed_at_ns;
    }

    /// Notes the ring loss to compare with.
    fn note_loss(&mut self, loss: u64)
        ensures
            comes_to(old(self)@.from_loss(loss), final(self)@),
    {
        self.ring_loss_baseline = loss;
    }

    /// Takes in a record while no authorization stands.
    fn unarmed<I: PauseIo<B>>(
        &mut self,
        io: &mut I,
        first: DiscoveryRecord,
    ) -> (r: Admitted)
        ensures
            extends(final(self).trace@, old(self).trace@),
            tied(old(self).trace@, final(self).trace@, old(io).log(), final(io).log()),
            forall|t: Seq<Event<B>>|
                extends(t, final(self).trace@) ==> comes_to(
                    #[trigger] unarmed(old(self)@, first, t),
                    (final(self)@, r@),
                ),
    {
        proof {
            reveal(unarmed);
        }
        if first.send_signal_rc == 0 {
            match self.ask_authorization(io) {
                Err(message) => return Admitted::Faulty(doubted(message)),
                Ok(word) => {
                    if word == Some(PAUSE_REQUESTED) {
                        self.note_stopped();
                        return Admitted::Faulty(
                            doubted(
                                "REQUESTED authorization existed without an active epoch".to_owned(),
                            ),
                        );
                    }
                    self.note_running();
                    return Admitted::Settled(self.apply_unowned(io, None));
                },
            }
        }
        Admitted::Settled(self.apply_unowned(io, None))
    }

    /// Looks at an item that was taken in.
    fn look_at<I: PauseIo<B>>(
        &mut self,
        io: &mut I,
        item: DiscoveryItem,
    ) -> (r: Admitted)
        ensures
            extends(final(self).trace@, old(self).trace@),
            tied(old(self).trace@, final(self).trace@, old(io).log(), final(io).log()),
            forall|t: Seq<Event<B>>|
                extends(t, final(self).trace@) ==> comes_to(
                    #[trigger] look_at(old(self)@, item, t),
                    (final(self)@, r@),
                ),
    {
        proof {
            reveal(look_at);
        }
        if let Err(fault) = self.check_cancelled(io) {
            return Admitted::Faulty(fault);
        }
        match item {
            DiscoveryItem::Malformed => {
                self.begin_attempt();
                Admitted::Faulty(missed("malformed discovery record in pause epoch".to_owned()))
            },
            DiscoveryItem::Record(first) => {
                if exact_pid(&first) != self.pid {
                    return Admitted::Faulty(
                        missed("unaccounted discovery record in pause epoch".to_owned()),
                    );
                }
                if !self.armed {
                    return self.unarmed(io, first);
                }
                if self.predates_arm(&first) {
                    return Admitted::Stale;
                }
                Admitted::Candidate(first)
            },
        }
    }

    /// Takes in a received item.
    fn take_in<I: PauseIo<B>>(
        &mut self,
        io: &mut I,
        batch: Option<B>,
        after_ns: u64,
        item: DiscoveryItem,
    ) -> (r: Admitted)
        ensures
            extends(final(self).trace@, old(self).trace@),
            tied(old(self).trace@, final(self).trace@, old(io).log(), final(io).log()),
            forall|t: Seq<Event<B>>|
                extends(t, final(self).trace@) ==> comes_to(
                    #[trigger] take_in(old(self)@, batch, after_ns, item, t),
                    (final(self)@, r@),
                ),
    {
        proof {
            reveal(take_in);
        }
        if batch.is_some() {
            if self.terminal_batch.is_some() {
                return Admitted::Settled(
                    Err(
                        policy_error(
                            self.policy,
                            "more than one terminal discovery batch reached the coordinator".to_owned(),
                            true,
                        ),
                    ),
                );
            }
            self.hold(batch);
        }
        self.take_stop_candidate(io);
        self.be_due(cycle_after(after_ns));
        self.look_at(io, item)
    }

    /// Reads the word behind a record that may belong to the live authorization.
    fn open_epoch<I: PauseIo<B>>(
        &mut self,
        io: &mut I,
    ) -> (r: Opened)
        ensures
            extends(final(self).trace@, old(self).trace@),
            tied(old(self).trace@, final(self).trace@, old(io).log(), final(io).log()),
            forall|t: Seq<Event<B>>|
                extends(t, final(self).trace@) ==> comes_to(
                    #[trigger] open_epoch(old(self)@, t),
                    (final(self)@, r@),
                ),
    {
        proof {
            reveal(open_epoch);
        }
        let word = match self.ask_authorization(io) {
            Err(message) => return Opened::Faulty(doubted(message)),
            Ok(word) => word,
        };
        if word == Some(PAUSE_REQUESTED) {
            self.note_stopped();
            self.begin_attempt();
            if self.epoch.successor_installed && self.epoch.successor_unresolved
                && !self.epoch.resume_succeeded {
                return Opened::Faulty(
                    doubted("successor was consumed before prior resume".to_owned()),
                );
            }
            self.begin_cycle();
            return Opened::Begun;
        }
        if self.epoch.authorization_consumed {
            return Opened::Faulty(
                doubted("pause request authorization did not remain REQUESTED".to_owned()),
            );
        }
        if self.epoch.zero_candidate && word != Some(PAUSE_ARMED) {
            self.begin_attempt();
            return Opened::Faulty(
                missed("zero stop candidate did not retain REQUESTED authorization".to_owned()),
            );
        }
        self.explain();
        Opened::Settled(self.apply_unowned(io, None))
    }

    /// Runs the cycle of a received record.
    fn cycle<I: PauseIo<B>>(
        &mut self,
        io: &mut I,
        received: TimedItem<B>,
        first: DiscoveryRecord,
    ) -> (r: Ended)
        ensures
            extends(final(self).trace@, old(self).trace@),
            tied(old(self).trace@, final(self).trace@, old(io).log(), final(io).log()),
            forall|t: Seq<Event<B>>|
                extends(t, final(self).trace@) ==> comes_to(
                    #[trigger] cycle(old(self)@, received, first, t),
                    (final(self)@, r@),
                ),
    {
        proof {
            reveal(cycle);
        }
        match self.open_epoch(io) {
            Opened::Settled(r) => return Ended::Settled(r),
            Opened::Faulty(fault) => return Ended::Faulty(fault),
            Opened::Begun => {},
        }
        let winner = match self.find_winner(io, received, first) {
            Err(fault) => return Ended::Faulty(fault),
            Ok(winner) => winner,
        };
        match self.judge_winner(winner) {
            Err(fault) => Ended::Faulty(fault),
            Ok(Verdict::Refused(deadline)) => Ended::Refused(deadline),
            Ok(Verdict::Accepted(deadline)) => match self.accepted_cycle(io, deadline) {
                Err(fault) => Ended::Faulty(fault),
                Ok(()) => Ended::Settled(Ok(())),
            },
        }
    }

    /// Runs the cycle of a received record to its end.
    fn serve_candidate<I: PauseIo<B>>(
        &mut self,
        io: &mut I,
        received: TimedItem<B>,
        first: DiscoveryRecord,
    ) -> (r: Result<(), PauseError>)
        ensures
            extends(final(self).trace@, old(self).trace@),
            tied(old(self).trace@, final(self).trace@, old(io).log(), final(io).log()),
            forall|t: Seq<Event<B>>|
                extends(t, final(self).trace@) ==> comes_to(
                    #[trigger] serve_candidate(old(self)@, received, first, t),
                    (final(self)@, settled(r)),
                ),
    {
        proof {
            reveal(serve_candidate);
        }
        match self.cycle(io, received, first) {
            Ended::Settled(r) => r,
            Ended::Faulty(fault) => self.fail_cycle(io, fault.message, fault.lifecycle),
            Ended::Refused(deadline) => self.reject_cycle(io, deadline),
        }
    }

    /// Reads the word after records from before the live authorization were applied.
    fn stale_applied<I: PauseIo<B>>(
        &mut self,
        io: &mut I,
        deadline: u64,
    ) -> (r: StaleRead)
        ensures
            extends(final(self).trace@, old(self).trace@),
            tied(old(self).trace@, final(self).trace@, old(io).log(), final(io).log()),
            forall|t: Seq<Event<B>>|
                extends(t, final(self).trace@) ==> comes_to(
                    #[trigger] stale_applied(old(self)@, deadline, t),
                    (final(self)@, r@),
                ),
    {
        proof {
            reveal(stale_applied);
        }
        let word = match self.ask_authorization(io) {
            Err(message) => return StaleRead::Faulty(doubted(message)),
            Ok(word) => word,
        };
        if word == Some(PAUSE_ARMED) {
            self.be_not_due();
            return StaleRead::Settled(Ok(()));
        }
        if word == Some(PAUSE_REQUESTED) {
            return StaleRead::Requested(deadline);
        }
        StaleRead::Faulty(doubted("stale record authorization was absent or unknown".to_owned()))
    }

    /// Reads the word behind a record from before the live authorization.
    fn stale_word<I: PauseIo<B>>(
        &mut self,
        io: &mut I,
    ) -> (r: StaleRead)
        ensures
            extends(final(self).trace@, old(self).trace@),
            tied(old(self).trace@, final(self).trace@, old(io).log(), final(io).log()),
            forall|t: Seq<Event<B>>|
                extends(t, final(self).trace@) ==> comes_to(
                    #[trigger] stale_word(old(self)@, t),
                    (final(self)@, r@),
                ),
    {
        proof {
            reveal(stale_word);
        }
        let word = match self.ask_authorization(io) {
            Err(message) => return StaleRead::Faulty(doubted(message)),
            Ok(word) => word,
        };
        let deadline: u64 = match self.failure_deadline {
            Some(deadline) => deadline,
            None => u64::MAX,
        };
        if word == Some(PAUSE_REQUESTED) {
            return StaleRead::Requested(deadline);
        }
        if word == Some(PAUSE_ARMED) {
            return match self.apply_unowned(io, Some(deadline)) {
                Err(error) => StaleRead::Faulty(fault_from(error)),
                Ok(()) => self.stale_applied(io, deadline),
            };
        }
        StaleRead::Faulty(doubted("stale record authorization was absent or unknown".to_owned()))
    }

    /// Recognizes a record of the child from before the live authorization.
    fn is_stale_item(&self, item: &DiscoveryItem) -> (r: bool)
        ensures
            r == stale_item(self@, *item),
    {
        match item {
            DiscoveryItem::Record(record) => exact_pid(record) == self.pid
                && self.predates_arm(record),
            DiscoveryItem::Malformed => false,
        }
    }

    /// Takes an item from the queue while the record of a request is awaited.
    fn requested_item<I: PauseIo<B>>(
        &mut self,
        io: &mut I,
        deadline: u64,
    ) -> (r: Result<Option<TimedItem<B>>, Fault>)
        ensures
            extends(final(self).trace@, old(self).trace@),
            tied(old(self).trace@, final(self).trace@, old(io).log(), final(io).log()),
            forall|t: Seq<Event<B>>|
                extends(t, final(self).trace@) ==> comes_to(
                    #[trigger] requested_item(old(self)@, deadline, t),
                    (final(self)@, seen(r)),
                ),
    {
        proof {
            reveal(requested_item);
        }
        match self.timed_dequeue(io, Some(deadline)) {
            Err(fault) => Err(fault),
            Ok(None) => match self.await_record(
                io,
                deadline,
                "pause request had no discovery record",
            ) {
                Err(fault) => Err(fault),
                Ok(()) => Ok(None),
            },
            Ok(Some(received)) => {
                if self.is_stale_item(&received.item) {
                    match self.apply_unowned(io, Some(deadline)) {
                        Err(error) => Err(fault_from(error)),
                        Ok(()) => Ok(None),
                    }
                } else {
                    Ok(Some(received))
                }
            },
        }
    }

    /// Takes one turn of the wait for the record of a request.
    fn requested_turn<I: PauseIo<B>>(
        &mut self,
        io: &mut I,
        deadline: u64,
    ) -> (r: Result<Option<TimedItem<B>>, Fault>)
        ensures
            extends(final(self).trace@, old(self).trace@),
            tied(old(self).trace@, final(self).trace@, old(io).log(), final(io).log()),
            forall|t: Seq<Event<B>>|
                extends(t, final(self).trace@) ==> comes_to(
                    #[trigger] requested_turn(old(self)@, deadline, t),
                    (final(self)@, seen(r)),
                ),
    {
        proof {
            reveal(requested_turn);
        }
        if let Err(fault) = self.check_cancelled(io) {
            return Err(fault);
        }
        if let Err(fault) = self.check_ring(io) {
            return Err(fault);
        }
        self.requested_item(io, deadline)
    }

    /// Waits for the record of a request.
    fn await_request<I: PauseIo<B>>(&mut self, io: &mut I, deadline: u64) -> (r: Result<
        TimedItem<B>,
        Fault,
    >)
        ensures
            extends(final(self).trace@, old(self).trace@),
            tied(old(self).trace@, final(self).trace@, old(io).log(), final(io).log()),
            forall|t: Seq<Event<B>>|
                extends(t, final(self).trace@) ==> comes_to(
                    #[trigger] await_request(old(self)@, deadline, TURNS as nat, t),
                    (final(self)@, seen(r)),
                ),
    {
        let mut turns: u64 = TURNS;
        while turns > 0
            invariant
                extends(self.trace@, old(self).trace@),
                tied(old(self).trace@, self.trace@, old(io).log(), io.log()),
                forall|t: Seq<Event<B>>|
                    extends(t, self.trace@) ==> comes_to(
                        #[trigger] await_request(old(self)@, deadline, TURNS as nat, t),
                        await_request(self@, deadline, turns as nat, t),
                    ),
            decreases turns,
        {
            reveal(await_request);
            match self.requested_turn(io, deadline) {
                Err(fault) => return Err(fault),
                Ok(Some(received)) => return Ok(received),
                Ok(None) => {},
            }
            turns -= 1;
        }
        proof {
            reveal(await_request);
        }
        Err(missed("pause request had no discovery record".to_owned()))
    }

    /// Seeks the record of a request that the authorization word has shown.
    fn seek_request<I: PauseIo<B>>(
        &mut self,
        io: &mut I,
        fixed: u64,
    ) -> (r: Result<TimedItem<B>, Fault>)
        ensures
            extends(final(self).trace@, old(self).trace@),
            tied(old(self).trace@, final(self).trace@, old(io).log(), final(io).log()),
            forall|t: Seq<Event<B>>|
                extends(t, final(self).trace@) ==> comes_to(
                    #[trigger] seek_request(old(self)@, fixed, t),
                    (final(self)@, seen(r)),
                ),
    {
        proof {
            reveal(seek_request);
        }
        self.begin_attempt();
        self.note_requested();
        let deadline: u64 = self.be_due(fixed);
        if self.pending_records.len() > 0 {
            if let Err(error) = self.apply_unowned(io, Some(deadline)) {
                return Err(fault_from(error));
            }
        }
        self.await_request(io, deadline)
    }

    /// Serves a received item that is not from before the live authorization.
    fn serve_fresh<I: PauseIo<B>>(
        &mut self,
        io: &mut I,
        received: TimedItem<B>,
    ) -> (r: Result<(), PauseError>)
        ensures
            extends(final(self).trace@, old(self).trace@),
            tied(old(self).trace@, final(self).trace@, old(io).log(), final(io).log()),
            forall|t: Seq<Event<B>>|
                extends(t, final(self).trace@) ==> comes_to(
                    #[trigger] serve_fresh(old(self)@, received, t),
                    (final(self)@, settled(r)),
                ),
    {
        proof {
            reveal(serve_fresh);
        }
        let TimedItem { before_ns, after_ns, item, terminal_batch } = received;
        match self.take_in(io, terminal_batch, after_ns, item) {
            Admitted::Settled(r) => r,
            Admitted::Faulty(fault) => self.fail_cycle(io, fault.message, fault.lifecycle),
            Admitted::Stale => self.fail_cycle(
                io,
                "stale record authorization was absent or unknown".to_owned(),
                true,
            ),
            Admitted::Candidate(first) => {
                let kept = TimedItem { before_ns, after_ns, item, terminal_batch: None };
                self.serve_candidate(io, kept, first)
            },
        }
    }

    /// Serves a request that the authorization word has shown.
    fn service_requested<I: PauseIo<B>>(
        &mut self,
        io: &mut I,
        fixed: u64,
    ) -> (r: Result<(), PauseError>)
        ensures
            extends(final(self).trace@, old(self).trace@),
            tied(old(self).trace@, final(self).trace@, old(io).log(), final(io).log()),
            forall|t: Seq<Event<B>>|
                extends(t, final(self).trace@) ==> comes_to(
                    #[trigger] service_requested(old(self)@, fixed, t),
                    (final(self)@, settled(r)),
                ),
    {
        proof {
            reveal(service_requested);
        }
        match self.seek_request(io, fixed) {
            Err(fault) => self.fail_cycle(io, fault.message, fault.lifecycle),
            Ok(received) => self.serve_fresh(io, received),
        }
    }

    /// Serves a record from before the live authorization.
    fn serve_stale<I: PauseIo<B>>(
        &mut self,
        io: &mut I,
    ) -> (r: Result<(), PauseError>)
        ensures
            extends(final(self).trace@, old(self).trace@),
            tied(old(self).trace@, final(self).trace@, old(io).log(), final(io).log()),
            forall|t: Seq<Event<B>>|
                extends(t, final(self).trace@) ==> comes_to(
                    #[trigger] serve_stale(old(self)@, t),
                    (final(self)@, settled(r)),
                ),
    {
        proof {
            reveal(serve_stale);
        }
        match self.stale_word(io) {
            StaleRead::Settled(r) => r,
            StaleRead::Faulty(fault) => self.fail_cycle(io, fault.message, fault.lifecycle),
            StaleRead::Requested(deadline) => self.service_requested(io, deadline),
        }
    }

    /// Serves a received item.
    pub fn service_received<I: PauseIo<B>>(
        &mut self,
        io: &mut I,
        received: TimedItem<B>,
    ) -> (r: Result<(), PauseError>)
        ensures
            extends(final(self).trace@, old(self).trace@),
            tied(old(self).trace@, final(self).trace@, old(io).log(), final(io).log()),
            forall|t: Seq<Event<B>>|
                extends(t, final(self).trace@) ==> comes_to(
                    #[trigger] service_received(old(self)@, received, t),
                    (final(self)@, settled(r)),
                ),
            old(self)@.counters.confirmed < final(self)@.counters.confirmed ==> confirms(
                old(self)@,
                old(io).log(),
                final(io).log(),
            ),
            refused(old(self)@, received, final(self).trace@) ==> unresumed(
                old(io).log(),
                final(io).log(),
            ),
    {
        let ghost s = self@;
        let ghost log = io.log();
        let r = self.receive(io, received);
        proof {
            let t = self.trace@;
            assert(comes_to(service_received(s, received, t), (self@, settled(r))));
            if s.counters.confirmed < self@.counters.confirmed {
                lemma_received_on_evidence(s, received, t);
                lemma_log_confirms(s, self@, log, io.log());
            }
            if refused(s, received, t) {
                lemma_refused_is_never_resumed(s, received, t);
                lemma_log_is_unresumed(s.trace, t, log, io.log());
            }
        }
        r
    }

    /// Serves a received item, by its history.
    fn receive<I: PauseIo<B>>(
        &mut self,
        io: &mut I,
        received: TimedItem<B>,
    ) -> (r: Result<(), PauseError>)
        ensures
            extends(final(self).trace@, old(self).trace@),
            tied(old(self).trace@, final(self).trace@, old(io).log(), final(io).log()),
            forall|t: Seq<Event<B>>|
                extends(t, final(self).trace@) ==> comes_to(
                    #[trigger] service_received(old(self)@, received, t),
                    (final(self)@, settled(r)),
                ),
    {
        proof {
            reveal(service_received);
        }
        let TimedItem { before_ns, after_ns, item, terminal_batch } = received;
        match self.take_in(io, terminal_batch, after_ns, item) {
            Admitted::Settled(r) => r,
            Admitted::Faulty(fault) => self.fail_cycle(io, fault.message, fault.lifecycle),
            Admitted::Stale => self.serve_stale(io),
            Admitted::Candidate(first) => {
                let kept = TimedItem { before_ns, after_ns, item, terminal_batch: None };
                self.serve_candidate(io, kept, first)
            },
        }
    }

    /// Serves the authorization word while the queue is empty.
    fn serve_word<I: PauseIo<B>>(
        &mut self,
        io: &mut I,
    ) -> (r: Result<(), PauseError>)
        ensures
            extends(final(self).trace@, old(self).trace@),
            tied(old(self).trace@, final(self).trace@, old(io).log(), final(io).log()),
            forall|t: Seq<Event<B>>|
                extends(t, final(self).trace@) ==> comes_to(
                    #[trigger] serve_word(old(self)@, t),
                    (final(self)@, settled(r)),
                ),
    {
        proof {
            reveal(serve_word);
        }
        let word = match self.ask_authorization(io) {
            Err(message) => return self.fail_cycle(io, message, true),
            Ok(word) => word,
        };
        if word == Some(PAUSE_ARMED) {
            return Ok(());
        }
        if word == Some(PAUSE_REQUESTED) {
            return match self.ask_now(io) {
                Err(message) => self.fail_cycle(io, message, true),
                Ok(now) => self.service_requested(io, cycle_after(now)),
            };
        }
        self.fail_cycle(io, "armed pause authorization was absent or unknown".to_owned(), true)
    }

    /// Serves an empty queue.
    fn serve_empty<I: PauseIo<B>>(
        &mut self,
        io: &mut I,
    ) -> (r: Result<(), PauseError>)
        ensures
            extends(final(self).trace@, old(self).trace@),
            tied(old(self).trace@, final(self).trace@, old(io).log(), final(io).log()),
            forall|t: Seq<Event<B>>|
                extends(t, final(self).trace@) ==> comes_to(
                    #[trigger] serve_empty(old(self)@, t),
                    (final(self)@, settled(r)),
                ),
    {
        proof {
            reveal(serve_empty);
        }
        let loss: u64 = match self.ask_ring_loss(io) {
            Err(message) => return self.fail_cycle(io, message, true),
            Ok(loss) => loss,
        };
        if !self.armed {
            return Ok(());
        }
        if loss > self.ring_loss_baseline {
            self.begin_attempt();
            return self.fail_cycle(io, "discovery record reservation loss".to_owned(), false);
        }
        self.serve_word(io)
    }

    /// Takes at most one item from the queue, and deals with it.
    pub fn service<I: PauseIo<B>>(
        &mut self,
        io: &mut I,
    ) -> (r: Result<(), PauseError>)
        ensures
            extends(final(self).trace@, old(self).trace@),
            tied(old(self).trace@, final(self).trace@, old(io).log(), final(io).log()),
            forall|t: Seq<Event<B>>|
                extends(t, final(self).trace@) ==> comes_to(
                    #[trigger] service(old(self)@, t),
                    (final(self)@, settled(r)),
                ),
            old(self)@.counters.confirmed < final(self)@.counters.confirmed ==> confirms(
                old(self)@,
                old(io).log(),
                final(io).log(),
            ),
    {
        let ghost s = self@;
        let ghost log = io.log();
        let r = self.serve(io);
        proof {
            let t = self.trace@;
            assert(comes_to(service(s, t), (self@, settled(r))));
            if s.counters.confirmed < self@.counters.confirmed {
                lemma_service_on_evidence(s, t);
                lemma_log_confirms(s, self@, log, io.log());
            }
        }
        r
    }

    /// Serves the queue, by the history.
    fn serve<I: PauseIo<B>>(
        &mut self,
        io: &mut I,
    ) -> (r: Result<(), PauseError>)
        ensures
            extends(final(self).trace@, old(self).trace@),
            tied(old(self).trace@, final(self).trace@, old(io).log(), final(io).log()),
            forall|t: Seq<Event<B>>|
                extends(t, final(self).trace@) ==> comes_to(
                    #[trigger] service(old(self)@, t),
                    (final(self)@, settled(r)),
                ),
    {
        proof {
            reveal(service);
        }
        if self.policy == PausePolicy::Never {
            return Ok(());
        }
        match self.timed_dequeue(io, None) {
            Err(fault) => self.fail_cycle(io, fault.message, true),
            Ok(None) => self.serve_empty(io),
            Ok(Some(received)) => self.service_received(io, received),
        }
    }

    /// Serves an item that a revalidation met.
    pub fn service_deferred<I: PauseIo<B>>(
        &mut self,
        io: &mut I,
        received: TimedItem<B>,
    ) -> (r: Result<(), PauseError>)
        ensures
            extends(final(self).trace@, old(self).trace@),
            tied(old(self).trace@, final(self).trace@, old(io).log(), final(io).log()),
            forall|t: Seq<Event<B>>|
                extends(t, final(self).trace@) ==> comes_to(
                    #[trigger] service_deferred(old(self)@, received, t),
                    (final(self)@, settled(r)),
                ),
    {
        proof {
            reveal(service_deferred);
        }
        if let DiscoveryItem::Record(record) = received.item {
            self.keep_record(record);
            return self.service_received(io, received);
        }
        self.service_received(io, received)
    }

    /// A result that leaves the coordinator disabled.
    fn disabled(r: Result<(), PauseError>) -> (d: Result<ArmResult, PauseError>)
        ensures
            settled(d) == disabled(settled(r)),
    {
        match r {
            Ok(()) => Ok(ArmResult::Disabled),
            Err(error) => Err(error),
        }
    }

    /// Ends an arm that failed before any authorization was installed.
    fn arm_failed<I: PauseIo<B>>(
        &mut self,
        io: &mut I,
        message: String,
    ) -> (r: Result<ArmResult, PauseError>)
        ensures
            extends(final(self).trace@, old(self).trace@),
            tied(old(self).trace@, final(self).trace@, old(io).log(), final(io).log()),
            forall|t: Seq<Event<B>>|
                extends(t, final(self).trace@) ==> comes_to(
                    #[trigger] arm_failed(old(self)@, message@, t),
                    (final(self)@, settled(r)),
                ),
    {
        proof {
            reveal(arm_failed);
        }
        self.begin_attempt();
        self.set_diagnostic(PauseDiagnostic::ArmFailedBeforeEpoch);
        self.forbid_rearming();
        match self.policy {
            PausePolicy::Auto => {
                self.count_partial();
                self.emit_partial_diagnostic();
                Ok(ArmResult::Disabled)
            },
            PausePolicy::Always => {
                let r = self.terminal_cleanup_with_cause(io, one_text(message), true, false);
                Self::disabled(r)
            },
            PausePolicy::Never => Ok(ArmResult::Disabled),
        }
    }

    /// Ends an arm that failed with an authorization that may stand.
    fn arm_cleanup_failed<I: PauseIo<B>>(
        &mut self,
        io: &mut I,
        message: String,
        lifecycle: bool,
    ) -> (r: Result<ArmResult, PauseError>)
        ensures
            extends(final(self).trace@, old(self).trace@),
            tied(old(self).trace@, final(self).trace@, old(io).log(), final(io).log()),
            forall|t: Seq<Event<B>>|
                extends(t, final(self).trace@) ==> comes_to(
                    #[trigger] arm_cleanup_failed(old(self)@, message@, lifecycle, t),
                    (final(self)@, settled(r)),
                ),
    {
        proof {
            reveal(arm_cleanup_failed);
        }
        self.begin_attempt();
        self.set_diagnostic(PauseDiagnostic::ArmFailedBeforeEpoch);
        let r = self.fail_cycle(io, message, lifecycle);
        Self::disabled(r)
    }

    /// Ends an arm that failed because something could not be read.
    fn arm_unread<I: PauseIo<B>>(
        &mut self,
        io: &mut I,
        message: String,
    ) -> (r: Result<ArmResult, PauseError>)
        ensures
            extends(final(self).trace@, old(self).trace@),
            tied(old(self).trace@, final(self).trace@, old(io).log(), final(io).log()),
            forall|t: Seq<Event<B>>|
                extends(t, final(self).trace@) ==> comes_to(
                    #[trigger] arm_unread(old(self)@, message@, t),
                    (final(self)@, settled(r)),
                ),
    {
        proof {
            reveal(arm_unread);
        }
        self.begin_attempt();
        let r = self.fail_cycle(io, message, true);
        Self::disabled(r)
    }

    /// Installs an authorization and reads it back.
    fn arm_exchange<I: PauseIo<B>>(
        &mut self,
        io: &mut I,
    ) -> (r: Result<ArmResult, PauseError>)
        ensures
            extends(final(self).trace@, old(self).trace@),
            tied(old(self).trace@, final(self).trace@, old(io).log(), final(io).log()),
            forall|t: Seq<Event<B>>|
                extends(t, final(self).trace@) ==> comes_to(
                    #[trigger] arm_exchange(old(self)@, t),
                    (final(self)@, settled(r)),
                ),
    {
        proof {
            reveal(arm_exchange);
        }
        let now = self.ask_now(io);
        if let Err(message) = self.ask_arm(io) {
            return self.arm_cleanup_failed(io, message, false);
        }
        match self.ask_authorization(io) {
            Err(message) => self.arm_cleanup_failed(io, message, true),
            Ok(word) => {
                if word == Some(PAUSE_ARMED) {
                    match now {
                        Ok(now) => self.note_armed(Some(now)),
                        Err(_) => self.note_armed(None),
                    }
                    Ok(ArmResult::Armed)
                } else {
                    self.arm_cleanup_failed(
                        io,
                        "pause authorization did not read back ARMED".to_owned(),
                        true,
                    )
                }
            },
        }
    }

    /// Installs an authorization, where the policy asks for one.
    pub fn arm<I: PauseIo<B>>(
        &mut self,
        io: &mut I,
    ) -> (r: Result<ArmResult, PauseError>)
        ensures
            extends(final(self).trace@, old(self).trace@),
            tied(old(self).trace@, final(self).trace@, old(io).log(), final(io).log()),
            forall|t: Seq<Event<B>>|
                extends(t, final(self).trace@) ==> comes_to(
                    #[trigger] arm(old(self)@, t),
                    (final(self)@, settled(r)),
                ),
    {
        proof {
            reveal(arm);
        }
        if self.policy == PausePolicy::Never || !self.rearming_enabled {
            return Ok(ArmResult::Disabled);
        }
        if self.armed {
            return Ok(ArmResult::Armed);
        }
        match self.ask_same_generation(io, self.pid, self.generation) {
            Err(message) => return self.arm_unread(io, message),
            Ok(false) => return self.arm_failed(io, MSG_ARM_FAILED.to_owned()),
            Ok(true) => {},
        }
        match self.ask_ring_loss(io) {
            Err(message) => self.arm_unread(io, message),
            Ok(loss) => {
                self.note_loss(loss);
                self.arm_exchange(io)
            },
        }
    }

    /// Ends a revalidation that did not close what is required.
    fn revalidate_incomplete<I: PauseIo<B>>(
        &mut self,
        io: &mut I,
    ) -> (r: Option<Result<(), PauseError>>)
        ensures
            extends(final(self).trace@, old(self).trace@),
            tied(old(self).trace@, final(self).trace@, old(io).log(), final(io).log()),
            forall|t: Seq<Event<B>>|
                extends(t, final(self).trace@) ==> comes_to(
                    #[trigger] revalidate_incomplete(old(self)@, t),
                    (final(self)@, revalidated(r)),
                ),
    {
        proof {
            reveal(revalidate_incomplete);
        }
        self.begin_attempt();
        self.set_diagnostic(PauseDiagnostic::PostReleaseRevalidationIncomplete);
        let message = MSG_POST_RELEASE_REVALIDATION_INCOMPLETE.to_owned();
        Some(self.fail_cycle(io, message, false))
    }

    /// Runs one revalidation after the release of the child.
    fn revalidate_turn<I: PauseIo<B>>(
        &mut self,
        io: &mut I,
    ) -> (r: Option<Result<(), PauseError>>)
        ensures
            extends(final(self).trace@, old(self).trace@),
            tied(old(self).trace@, final(self).trace@, old(io).log(), final(io).log()),
            forall|t: Seq<Event<B>>|
                extends(t, final(self).trace@) ==> comes_to(
                    #[trigger] revalidate_turn(old(self)@, t),
                    (final(self)@, revalidated(r)),
                ),
    {
        proof {
            reveal(revalidate_turn);
        }
        let owned = self.active_epoch();
        match self.ask_revalidate(io, owned) {
            Err(message) => {
                if owned {
                    self.begin_attempt();
                    Some(self.fail_cycle(io, message, false))
                } else {
                    Some(Err(policy_error(self.policy, message, true)))
                }
            },
            Ok(PauseRevalidationOutcome::Deferred(received)) => {
                if owned {
                    match self.service_deferred(io, received) {
                        Ok(()) => None,
                        Err(error) => Some(Err(error)),
                    }
                } else {
                    Some(
                        Err(
                            policy_error(
                                self.policy,
                                "ordinary revalidation returned a pause-owned discovery item".to_owned(),
                                true,
                            ),
                        ),
                    )
                }
            },
            Ok(PauseRevalidationOutcome::Complete(outcome)) => {
                if outcome.required_complete || !owned {
                    Some(Ok(()))
                } else {
                    self.revalidate_incomplete(io)
                }
            },
        }
    }

    /// Revalidates after the release of the child, until nothing is left to take in.
    pub fn revalidate_after_release<I: PauseIo<B>>(&mut self, io: &mut I) -> (r: Result<
        (),
        PauseError,
    >)
        ensures
            extends(final(self).trace@, old(self).trace@),
            tied(old(self).trace@, final(self).trace@, old(io).log(), final(io).log()),
            forall|t: Seq<Event<B>>|
                extends(t, final(self).trace@) ==> comes_to(
                    #[trigger] revalidate(old(self)@, TURNS as nat, t),
                    (final(self)@, settled(r)),
                ),
    {
        let mut turns: u64 = TURNS;
        while turns > 0
            invariant
                extends(self.trace@, old(self).trace@),
                tied(old(self).trace@, self.trace@, old(io).log(), io.log()),
                forall|t: Seq<Event<B>>|
                    extends(t, self.trace@) ==> comes_to(
                        #[trigger] revalidate(old(self)@, TURNS as nat, t),
                        revalidate(self@, turns as nat, t),
                    ),
            decreases turns,
        {
            reveal(revalidate);
            if let Some(r) = self.revalidate_turn(io) {
                return r;
            }
            turns -= 1;
        }
        proof {
            reveal(revalidate);
        }
        let message = MSG_POST_RELEASE_REVALIDATION_INCOMPLETE.to_owned();
        Err(policy_error(self.policy, message, true))
    }

    /// Cleans up at the end of the run.
    pub fn cleanup<I: PauseIo<B>>(&mut self, io: &mut I) -> (r: Result<(), PauseError>)
        ensures
            extends(final(self).trace@, old(self).trace@),
            tied(old(self).trace@, final(self).trace@, old(io).log(), final(io).log()),
            forall|t: Seq<Event<B>>|
                extends(t, final(self).trace@) ==> comes_to(
                    #[trigger] terminal_cleanup(old(self)@, Seq::empty(), false, false, t),
                    (final(self)@, settled(r)),
                ),
    {
        let none: Vec<String> = Vec::new();
        assert(texts(none@) =~= Seq::<Text>::empty());
        self.terminal_cleanup_with_cause(io, none, false, false)
    }

    /// A coordinator that has done nothing yet.
    pub fn new(
        policy: PausePolicy,
        pid: u32,
        generation: u64,
        expected_tasks: BTreeMap<u32, u8>,
    ) -> (coordinator: Self)
        ensures
            coordinator@ == fresh_state::<B>(policy, pid, generation, expected_tasks@),
    {
        let notices: Vec<String> = Vec::new();
        assert(texts(notices@) =~= Seq::<Text>::empty());
        PauseCoordinator {
            policy,
            pid,
            generation,
            expected_tasks,
            counters: PauseCounters::zero(),
            epoch: PauseEpoch::default(),
            armed: false,
            armed_at_ns: None,
            rearming_enabled: policy != PausePolicy::Never,
            may_be_stopped: false,
            attempt_open: false,
            ring_loss_baseline: 0,
            active_deadline: None,
            failure_deadline: None,
            failure_items: 0,
            pending_records: Vec::new(),
            unvalidated_records: 0,
            terminal_batch: None,
            pending_diagnostic: None,
            diagnostic_annotated: false,
            cycles: 0,
            cleaning: false,
            cleaned: false,
            notices,
            trace: Ghost(Seq::empty()),
        }
    }

    /// Takes the report lines that have not been printed yet.
    pub fn take_notices(&mut self) -> (lines: Vec<String>)
        ensures
            texts(lines@) == old(self)@.notices,
            final(self)@ == (State { notices: Seq::empty(), ..old(self)@ }),
    {
        let mut lines: Vec<String> = Vec::new();
        assert(texts(lines@) =~= Seq::<Text>::empty());
        std::mem::swap(&mut lines, &mut self.notices);
        lines
    }

    /// How the attempts ended so far.
    pub fn counters(&self) -> (counters: PauseCounters)
        ensures
            counters == self@.counters,
    {
        self.counters
    }

    /// What the attempts say of the pause as a whole.
    pub fn status(&self) -> (status: PauseStatus)
        ensures
            status == self@.counters.status_of(),
    {
        self.counters.status()
    }

    /// Whether an authorization stands.
    pub fn is_armed(&self) -> (r: bool)
        ensures
            r == self@.armed,
    {
        self.armed
    }

    /// Whether a further authorization may be installed.
    pub fn rearming_enabled(&self) -> (r: bool)
        ensures
            r == self@.rearming_enabled,
    {
        self.rearming_enabled
    }

    /// The generation of the child.
    pub fn generation(&self) -> (generation: u64)
        ensures
            generation == self@.generation,
    {
        self.generation
    }
}

/// What the checks before a pause come to: a coordinator where the child can be signalled, has
/// tasks and is still the pinned one, and otherwise why not.
pub open spec fn preflighted<B>(
    policy: PausePolicy,
    pid: u32,
    generation: u64,
    authority: Result<(), Text>,
    tasks: Result<Map<u32, u8>, Text>,
    still_the_same: bool,
) -> Result<State<B>, PauseFail> {
    if policy == PausePolicy::Never {
        Ok(fresh_state(policy, pid, generation, Map::empty()))
    } else {
        match authority {
            Err(message) => Err(policy_fail(policy, message, true)),
            Ok(()) => match tasks {
                Err(message) => Err(policy_fail(policy, message, true)),
                Ok(tasks) => if tasks.dom().len() == 0 || !still_the_same {
                    Err(
                        policy_fail(
                            policy,
                            "owned child generation changed during pause preflight"@,
                            true,
                        ),
                    )
                } else {
                    Ok(fresh_state(policy, pid, generation, tasks))
                },
            },
        }
    }
}

impl<B> PauseCoordinator<B> {
    /// Starts the coordination of a pause of process `pid`, of which it was asked whether it may
    /// be signalled, which tasks it has and, last, whether it is still the pinned child.
    pub fn preflight(
        policy: PausePolicy,
        pid: u32,
        generation: u64,
        authority: Result<(), String>,
        tasks: Result<BTreeMap<u32, u8>, String>,
        still_the_same: bool,
    ) -> (r: Result<Self, PauseError>)
        ensures
            match r {
                Ok(coordinator) => preflighted::<B>(
                    policy,
                    pid,
                    generation,
                    heard(authority),
                    task_reply(tasks),
                    still_the_same,
                ) == Ok::<State<B>, PauseFail>(coordinator@),
                Err(error) => preflighted::<B>(
                    policy,
                    pid,
                    generation,
                    heard(authority),
                    task_reply(tasks),
                    still_the_same,
                ) == Err::<State<B>, PauseFail>(error@),
            },
    {
        if policy == PausePolicy::Never {
            return Ok(Self::new(policy, pid, generation, BTreeMap::new()));
        }
        if let Err(message) = authority {
            return Err(policy_error(policy, message, true));
        }
        let expected = match tasks {
            Err(message) => return Err(policy_error(policy, message, true)),
            Ok(tasks) => tasks,
        };
        if expected.is_empty() || !still_the_same {
            return Err(
                policy_error(
                    policy,
                    "owned child generation changed during pause preflight".to_owned(),
                    true,
                ),
            );
        }
        Ok(Self::new(policy, pid, generation, expected))
    }
}

/// Whether the pinned generation is still the one behind its process id: while the child lives
/// the pin proves it, and after its end the process id is held until the child is reaped.
pub open spec fn generation_retained(
    still_the_same: bool,
    reaped: bool,
    original_exited: Result<bool, Text>,
) -> Result<bool, Text> {
    if still_the_same {
        Ok(true)
    } else if reaped {
        Ok(false)
    } else {
        original_exited
    }
}

/// Tells whether the pinned generation is still the one behind its process id. A pin that cannot
/// answer stays an error.
pub fn owned_generation_retained(
    still_the_same: bool,
    reaped: bool,
    original_exited: Result<bool, String>,
) -> (r: Result<bool, String>)
    ensures
        heard(r) == generation_retained(still_the_same, reaped, heard(original_exited)),
{
    if still_the_same {
        Ok(true)
    } else if reaped {
        Ok(false)
    } else {
        original_exited
    }
}

} // verus!
