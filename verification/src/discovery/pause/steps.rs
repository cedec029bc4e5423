//! The short exchanges that a pause coordinator is made of. Each has a function on states that
//! reads the replies from a history, and a method that makes the calls.

use crate::discovery::pause::calls::{
    call_apply, call_authorization, call_dequeue, call_now, call_original_exited, call_remove,
    call_ring_loss, call_same_generation, call_stop_candidate, call_tasks, call_wait,
};
use crate::discovery::pause::diagnostic::{
    MSG_DEADLINE_AFTER_DEQUEUE, MSG_DEADLINE_BEFORE_DEQUEUE, MSG_PAUSE_CONFIRMATION_DEADLINE,
    MSG_PAUSE_RESUME_DEADLINE,
};
use crate::discovery::pause::io::{
    comes_to, extends, group_history, tied, Event, PauseIo, TimedItem,
};
use crate::discovery::pause::rules::{
    bounded_cycle, clamp_deadline, cycle_after, policy_error, policy_fail, saturated, settled,
    tighter, AuthorizationSource, PauseError, PauseFail,
};
use crate::discovery::pause::state::{PauseCoordinator, PauseEpoch, State};
use crate::discovery::pause::tasks::{all_stopped, stopped_as_expected};
use crate::record::{exact_pid, DiscoveryItem, DiscoveryRecord, PAUSE_ARMED, PAUSE_REQUESTED};
use crate::text::{heard, push_text, texts, Text};
use vstd::prelude::*;

verus! {

broadcast use group_history;

/// Why a step of a cycle failed, and whether the life of the child or of its authorization is in
/// doubt.
#[derive(Debug)]
pub struct Fault {
    pub message: String,
    pub lifecycle: bool,
}

/// A fault, seen by the characters of its message.
pub struct FaultText {
    pub message: Text,
    pub lifecycle: bool,
}

impl View for Fault {
    type V = FaultText;

    open spec fn view(&self) -> FaultText {
        FaultText { message: self.message@, lifecycle: self.lifecycle }
    }
}

/// A result, seen by the characters of its fault.
pub open spec fn seen<T>(result: Result<T, Fault>) -> Result<T, FaultText> {
    match result {
        Ok(value) => Ok(value),
        Err(fault) => Err(fault@),
    }
}

/// A fault of the pause itself.
pub open spec fn miss(message: Text) -> FaultText {
    FaultText { message, lifecycle: false }
}

/// A fault that puts the life of the child or of its authorization in doubt.
pub open spec fn doubt(message: Text) -> FaultText {
    FaultText { message, lifecycle: true }
}

/// Makes a fault of the pause itself.
pub(crate) fn missed(message: String) -> (fault: Fault)
    ensures
        fault@ == miss(message@),
{
    Fault { message, lifecycle: false }
}

/// Makes a fault that puts the life of the child or of its authorization in doubt.
pub(crate) fn doubted(message: String) -> (fault: Fault)
    ensures
        fault@ == doubt(message@),
{
    Fault { message, lifecycle: true }
}

/// Whether a moment lies past a deadline.
pub open spec fn past(moment: u64, deadline: Option<u64>) -> bool {
    deadline matches Some(limit) && moment > limit
}

pub(crate) fn is_past(moment: u64, deadline: Option<u64>) -> (r: bool)
    ensures
        r == past(moment, deadline),
{
    match deadline {
        Some(limit) => moment > limit,
        None => false,
    }
}

impl<B> State<B> {
    /// Whether a dequeued item may be the record of the stop request that this epoch waits for.
    pub open spec fn stop_candidate(self, item: Option<DiscoveryItem>) -> bool {
        self.active() && (item matches Some(DiscoveryItem::Record(record)) && record.pid()
            == self.pid && record.send_signal_rc == 0 && !self.predates(record))
    }

    /// The state once a record is kept for application.
    pub open spec fn kept(self, record: DiscoveryRecord) -> State<B> {
        State { pending_records: self.pending_records.push(record), ..self }
    }

    /// The state once every kept record is handed on.
    pub open spec fn pending_taken(self) -> State<B> {
        State { pending_records: Seq::empty(), ..self }
    }

    /// The state once an application without a deadline, outside of any attempt, has dropped the
    /// deadline of an earlier failure.
    pub open spec fn loosened(self, deadline: Option<u64>) -> State<B> {
        if deadline is None && !self.attempt_open {
            State { failure_deadline: None, ..self }
        } else {
            self
        }
    }

    /// The state once a record is lost to a change of the child.
    pub open spec fn lost(self) -> State<B> {
        State { unvalidated_records: saturated(self.unvalidated_records), ..self }
    }

    /// The state once the child may be stopped by a request that no authorization word supports.
    pub open spec fn candidate_seen(self) -> State<B> {
        State {
            may_be_stopped: true,
            epoch: PauseEpoch { zero_candidate: true, ..self.epoch },
            ..self
        }
    }
}

/// The end of a dequeue: the clock after it.
#[verifier::opaque]
pub open spec fn close_dequeue<B>(
    s: State<B>,
    before_ns: u64,
    item: Option<DiscoveryItem>,
    deadline: Option<u64>,
    t: Seq<Event<B>>,
) -> (State<B>, Result<Option<TimedItem<B>>, FaultText>) {
    let (s, after) = call_now(s, t);
    match after {
        Err(message) => (s, Err(doubt(message))),
        Ok(after_ns) => if past(after_ns, deadline) {
            (s, Err(miss(MSG_DEADLINE_AFTER_DEQUEUE@)))
        } else {
            match item {
                None => (s, Ok(None)),
                Some(item) => (
                    s,
                    Ok(Some(TimedItem { before_ns, after_ns, item, terminal_batch: None })),
                ),
            }
        },
    }
}

/// The middle of a dequeue: a record that decoded is kept where the child is still the pinned one.
#[verifier::opaque]
pub open spec fn keep_dequeued<B>(
    s: State<B>,
    before_ns: u64,
    item: Option<DiscoveryItem>,
    deadline: Option<u64>,
    t: Seq<Event<B>>,
) -> (State<B>, Result<Option<TimedItem<B>>, FaultText>) {
    match item {
        Some(DiscoveryItem::Record(record)) => {
            let (s, same) = call_same_generation(s, s.pid, s.generation, t);
            match same {
                Ok(true) => close_dequeue(s.kept(record), before_ns, item, deadline, t),
                Ok(false) => (
                    s.lost(),
                    Err(doubt("owned child generation changed after discovery decode"@)),
                ),
                Err(message) => (s.lost(), Err(doubt(message))),
            }
        },
        _ => close_dequeue(s, before_ns, item, deadline, t),
    }
}

/// One dequeue between two reads of the clock. A record that decoded is kept; a record that may
/// be the awaited stop request is noted before anything else can fail.
#[verifier::opaque]
pub open spec fn timed_dequeue<B>(s: State<B>, deadline: Option<u64>, t: Seq<Event<B>>) -> (
    State<B>,
    Result<Option<TimedItem<B>>, FaultText>,
) {
    let (s, before) = call_now(s, t);
    match before {
        Err(message) => (s, Err(doubt(message))),
        Ok(before_ns) => if past(before_ns, deadline) {
            (s, Err(miss(MSG_DEADLINE_BEFORE_DEQUEUE@)))
        } else {
            let (s, item) = call_dequeue(s, t);
            match item {
                Err(message) => (s, Err(doubt(message))),
                Ok(item) => if s.stop_candidate(item) {
                    keep_dequeued(s.candidate_seen(), before_ns, item, deadline, t)
                } else {
                    keep_dequeued(s, before_ns, item, deadline, t)
                },
            }
        },
    }
}

/// A check that the ring has lost nothing since the authorization was installed.
#[verifier::opaque]
pub open spec fn check_ring_loss<B>(s: State<B>, t: Seq<Event<B>>) -> (
    State<B>,
    Result<(), Text>,
) {
    let (s, loss) = call_ring_loss(s, t);
    match loss {
        Err(message) => (s, Err(message)),
        Ok(loss) => if loss > s.ring_loss_baseline {
            (s, Err("discovery ring loss in pause epoch"@))
        } else {
            (s, Ok(()))
        },
    }
}

/// A removal of the authorization, and what the removed word says.
#[verifier::opaque]
pub open spec fn remove_and_account<B>(s: State<B>, t: Seq<Event<B>>) -> (
    State<B>,
    Result<(), PauseFail>,
) {
    let disposition = s.disposition();
    let (s, removed) = call_remove(s, t);
    match removed {
        Err(message) => (s, Err(policy_fail(s.policy, message, true))),
        Ok(word) => {
            let (s, verdict) = s.classified(word, disposition, AuthorizationSource::Removal);
            match verdict {
                Ok(()) => (s, Ok(())),
                Err(message) => (s, Err(policy_fail(s.policy, message, true))),
            }
        },
    }
}

/// A snapshot of the tasks, by which the child must be stopped, and the clock after it.
#[verifier::opaque]
pub open spec fn sample_stopped<B>(s: State<B>, deadline: u64, t: Seq<Event<B>>) -> (
    State<B>,
    Result<u64, Text>,
) {
    let (s, states) = call_tasks(s, s.pid, t);
    match states {
        Err(message) => (s, Err(message)),
        Ok(states) => {
            let (s, now) = call_now(s, t);
            match now {
                Err(message) => (s, Err(message)),
                Ok(now) => if now > deadline {
                    (s, Err(MSG_PAUSE_CONFIRMATION_DEADLINE@))
                } else if !all_stopped(states, s.expected_tasks) {
                    (s, Err("task set changed or was not entirely stopped"@))
                } else {
                    (s, Ok(now))
                },
            }
        },
    }
}

/// A question whether a stop candidate was seen outside of the dequeues, which counts only while
/// this coordinator owns what the queue holds.
#[verifier::opaque]
pub open spec fn take_stop_candidate<B>(s: State<B>, t: Seq<Event<B>>) -> State<B> {
    let (s, seen) = call_stop_candidate(s, t);
    if seen && s.active() {
        s.candidate_seen()
    } else {
        s
    }
}

/// An application of every kept record.
pub open spec fn apply_pending<B>(
    s: State<B>,
    deadline: Option<u64>,
    additions_allowed: bool,
    pause_owned: bool,
    t: Seq<Event<B>>,
) -> (
    State<B>,
    Result<
        crate::discovery::pause::io::PauseBatchOutcome,
        crate::discovery::pause::io::BatchFault,
    >,
) {
    call_apply(
        s.pending_taken(),
        s.pending_records,
        deadline,
        additions_allowed,
        pause_owned,
        t,
    )
}

/// An application of records that this coordinator does not own.
#[verifier::opaque]
pub open spec fn apply_unowned<B>(s: State<B>, deadline: Option<u64>, t: Seq<Event<B>>) -> (
    State<B>,
    Result<(), PauseFail>,
) {
    let (s, reply) = apply_pending(s.loosened(deadline), deadline, true, false, t);
    match reply {
        Ok(outcome) => (s.reasoned_by(outcome.diagnostic), Ok(())),
        Err(fault) => {
            let s = s.reasoned_by(fault.diagnostic);
            (s, Err(policy_fail(s.policy, fault.message, false)))
        },
    }
}

/// The deadline of a failing pause: the tightest that stands, or one cycle from now.
#[verifier::opaque]
pub open spec fn failure_bound<B>(s: State<B>, errors: Seq<Text>, t: Seq<Event<B>>) -> (
    State<B>,
    Seq<Text>,
    u64,
) {
    match (s.active_deadline, s.failure_deadline) {
        (None, None) => {
            let (s, now) = call_now(s, t);
            let errors = match now {
                Ok(_) => errors,
                Err(message) => errors.push(message),
            };
            let deadline = match now {
                Ok(now) => bounded_cycle(now),
                Err(_) => u64::MAX,
            };
            (State { failure_deadline: Some(deadline), ..s }, errors, deadline)
        },
        (Some(active), failure) => {
            let deadline = tighter(failure, active);
            (
                State {
                    active_deadline: Some(deadline),
                    failure_deadline: Some(deadline),
                    ..s
                },
                errors,
                deadline,
            )
        },
        (None, Some(failure)) => (
            State { active_deadline: Some(failure), ..s },
            errors,
            failure,
        ),
    }
}

impl<B> PauseCoordinator<B> {
    fn close_dequeue<I: PauseIo<B>>(
        &mut self,
        io: &mut I,
        before_ns: u64,
        item: Option<DiscoveryItem>,
        deadline: Option<u64>,
    ) -> (r: Result<Option<TimedItem<B>>, Fault>)
        ensures
            extends(final(self).trace@, old(self).trace@),
            tied(old(self).trace@, final(self).trace@, old(io).log(), final(io).log()),
            forall|t: Seq<Event<B>>|
                extends(t, final(self).trace@) ==> comes_to(
                    #[trigger] close_dequeue(old(self)@, before_ns, item, deadline, t),
                    (final(self)@, seen(r)),
                ),
    {
        proof {
            reveal(close_dequeue);
        }
        let after_ns: u64 = match self.ask_now(io) {
            Ok(now) => now,
            Err(message) => return Err(doubted(message)),
        };
        if is_past(after_ns, deadline) {
            return Err(missed(MSG_DEADLINE_AFTER_DEQUEUE.to_owned()));
        }
        match item {
            None => Ok(None),
            Some(item) => Ok(
                Some(TimedItem { before_ns, after_ns, item, terminal_batch: None }),
            ),
        }
    }

    pub(crate) fn keep_record(&mut self, record: DiscoveryRecord)
        ensures
            comes_to(old(self)@.kept(record), final(self)@),
    {
        self.pending_records.push(record);
    }

    fn lose_record(&mut self)
        ensures
            comes_to(old(self)@.lost(), final(self)@),
    {
        self.unvalidated_records = self.unvalidated_records.saturating_add(1);
    }

    fn keep_dequeued<I: PauseIo<B>>(
        &mut self,
        io: &mut I,
        before_ns: u64,
        item: Option<DiscoveryItem>,
        deadline: Option<u64>,
    ) -> (r: Result<Option<TimedItem<B>>, Fault>)
        ensures
            extends(final(self).trace@, old(self).trace@),
            tied(old(self).trace@, final(self).trace@, old(io).log(), final(io).log()),
            forall|t: Seq<Event<B>>|
                extends(t, final(self).trace@) ==> comes_to(
                    #[trigger] keep_dequeued(old(self)@, before_ns, item, deadline, t),
                    (final(self)@, seen(r)),
                ),
    {
        proof {
            reveal(keep_dequeued);
        }
        match item {
            Some(DiscoveryItem::Record(record)) => match self.ask_same_generation(
                io,
                self.pid,
                self.generation,
            ) {
                Ok(true) => {
                    self.keep_record(record);
                    self.close_dequeue(io, before_ns, item, deadline)
                },
                Ok(false) => {
                    self.lose_record();
                    Err(
                        doubted(
                            "owned child generation changed after discovery decode".to_owned(),
                        ),
                    )
                },
                Err(message) => {
                    self.lose_record();
                    Err(doubted(message))
                },
            },
            _ => self.close_dequeue(io, before_ns, item, deadline),
        }
    }

    /// Notes that a request may have stopped the child.
    fn note_candidate(&mut self)
        ensures
            final(self)@ == old(self)@.candidate_seen(),
    {
        self.may_be_stopped = true;
        self.epoch.zero_candidate = true;
    }

    /// Recognizes an item that may be the record of the awaited stop request.
    fn is_stop_candidate(&self, item: &Option<DiscoveryItem>) -> (r: bool)
        ensures
            r == self@.stop_candidate(*item),
    {
        if let Some(DiscoveryItem::Record(record)) = item {
            self.active_epoch() && exact_pid(record) == self.pid && record.send_signal_rc == 0
                && !self.predates_arm(record)
        } else {
            false
        }
    }

    /// One dequeue between two reads of the clock.
    pub fn timed_dequeue<I: PauseIo<B>>(&mut self, io: &mut I, deadline: Option<u64>) -> (r:
        Result<Option<TimedItem<B>>, Fault>)
        ensures
            extends(final(self).trace@, old(self).trace@),
            tied(old(self).trace@, final(self).trace@, old(io).log(), final(io).log()),
            forall|t: Seq<Event<B>>|
                extends(t, final(self).trace@) ==> comes_to(
                    #[trigger] timed_dequeue(old(self)@, deadline, t),
                    (final(self)@, seen(r)),
                ),
    {
        proof {
            reveal(timed_dequeue);
        }
        let before_ns: u64 = match self.ask_now(io) {
            Ok(now) => now,
            Err(message) => return Err(doubted(message)),
        };
        if is_past(before_ns, deadline) {
            return Err(missed(MSG_DEADLINE_BEFORE_DEQUEUE.to_owned()));
        }
        let item = match self.ask_dequeue(io) {
            Ok(item) => item,
            Err(message) => return Err(doubted(message)),
        };
        if self.is_stop_candidate(&item) {
            self.note_candidate();
        }
        self.keep_dequeued(io, before_ns, item, deadline)
    }

    /// Checks that the ring has lost nothing since the authorization was installed.
    pub(crate) fn check_ring_loss<I: PauseIo<B>>(&mut self, io: &mut I) -> (r: Result<(), String>)
        ensures
            extends(final(self).trace@, old(self).trace@),
            tied(old(self).trace@, final(self).trace@, old(io).log(), final(io).log()),
            forall|t: Seq<Event<B>>|
                extends(t, final(self).trace@) ==> comes_to(
                    #[trigger] check_ring_loss(old(self)@, t),
                    (final(self)@, heard(r)),
                ),
    {
        proof {
            reveal(check_ring_loss);
        }
        match self.ask_ring_loss(io) {
            Err(message) => Err(message),
            Ok(loss) => if loss > self.ring_loss_baseline {
                Err("discovery ring loss in pause epoch".to_owned())
            } else {
                Ok(())
            },
        }
    }

    /// Removes the authorization and accounts for the removed word.
    pub(crate) fn remove_and_account<I: PauseIo<B>>(&mut self, io: &mut I) -> (r: Result<
        (),
        PauseError,
    >)
        ensures
            extends(final(self).trace@, old(self).trace@),
            tied(old(self).trace@, final(self).trace@, old(io).log(), final(io).log()),
            forall|t: Seq<Event<B>>|
                extends(t, final(self).trace@) ==> comes_to(
                    #[trigger] remove_and_account(old(self)@, t),
                    (final(self)@, settled(r)),
                ),
    {
        proof {
            reveal(remove_and_account);
        }
        let disposition = self.removal_disposition();
        match self.ask_remove(io) {
            Err(message) => Err(policy_error(self.policy, message, true)),
            Ok(word) => match self.classify_authorization(
                word,
                disposition,
                AuthorizationSource::Removal,
            ) {
                Ok(()) => Ok(()),
                Err(message) => Err(policy_error(self.policy, message, true)),
            },
        }
    }

    /// Asks whether a stop candidate was seen outside of the dequeues.
    pub(crate) fn take_stop_candidate<I: PauseIo<B>>(&mut self, io: &mut I)
        ensures
            extends(final(self).trace@, old(self).trace@),
            tied(old(self).trace@, final(self).trace@, old(io).log(), final(io).log()),
            forall|t: Seq<Event<B>>|
                extends(t, final(self).trace@) ==> comes_to(
                    #[trigger] take_stop_candidate(old(self)@, t),
                    final(self)@,
                ),
    {
        proof {
            reveal(take_stop_candidate);
        }
        if self.ask_stop_candidate(io) && self.active_epoch() {
            self.note_candidate();
        }
    }

    /// Takes every kept record.
    pub(crate) fn take_pending(&mut self) -> (records: Vec<DiscoveryRecord>)
        ensures
            records@ == old(self)@.pending_records,
            comes_to(old(self)@.pending_taken(), final(self)@),
    {
        let mut records: Vec<DiscoveryRecord> = Vec::new();
        std::mem::swap(&mut records, &mut self.pending_records);
        records
    }

    fn loosen(&mut self, deadline: Option<u64>)
        ensures
            comes_to(old(self)@.loosened(deadline), final(self)@),
    {
        if deadline.is_none() && !self.attempt_open {
            self.failure_deadline = None;
        }
    }

    /// Applies records that this coordinator does not own.
    pub(crate) fn apply_unowned<I: PauseIo<B>>(&mut self, io: &mut I, deadline: Option<u64>) -> (r:
        Result<(), PauseError>)
        ensures
            extends(final(self).trace@, old(self).trace@),
            tied(old(self).trace@, final(self).trace@, old(io).log(), final(io).log()),
            forall|t: Seq<Event<B>>|
                extends(t, final(self).trace@) ==> comes_to(
                    #[trigger] apply_unowned(old(self)@, deadline, t),
                    (final(self)@, settled(r)),
                ),
    {
        proof {
            reveal(apply_unowned);
        }
        self.loosen(deadline);
        let records = self.take_pending();
        match self.ask_apply(io, records, deadline, true, false) {
            Ok(outcome) => {
                self.set_diagnostic_of(outcome.diagnostic);
                Ok(())
            },
            Err(error) => {
                self.set_diagnostic_of(error.diagnostic);
                Err(policy_error(self.policy, error.message, false))
            },
        }
    }

    /// Finds the deadline of a failing pause.
    pub(crate) fn failure_bound<I: PauseIo<B>>(
        &mut self,
        io: &mut I,
        errors: &mut Vec<String>,
    ) -> (deadline: u64)
        ensures
            extends(final(self).trace@, old(self).trace@),
            tied(old(self).trace@, final(self).trace@, old(io).log(), final(io).log()),
            forall|t: Seq<Event<B>>|
                extends(t, final(self).trace@) ==> comes_to(
                    #[trigger] failure_bound(old(self)@, texts(old(errors)@), t),
                    (final(self)@, texts(final(errors)@), deadline),
                ),
    {
        proof {
            reveal(failure_bound);
        }
        if let Some(active) = self.active_deadline {
            let deadline = clamp_deadline(&mut self.failure_deadline, active);
            self.active_deadline = Some(deadline);
            return deadline;
        }
        if let Some(failure) = self.failure_deadline {
            self.active_deadline = Some(failure);
            return failure;
        }
        let deadline: u64 = match self.ask_now(io) {
            Ok(now) => cycle_after(now),
            Err(message) => {
                push_text(errors, message);
                u64::MAX
            },
        };
        self.failure_deadline = Some(deadline);
        deadline
    }
}

/// How many turns a wait for the world may take before it counts as past its deadline. A turn
/// takes a millisecond, so that no wait ever reaches it.
pub const TURNS: u64 = 0xffff_ffff_ffff_ffff;

/// A read of the clock that must not lie past a deadline.
#[verifier::opaque]
pub open spec fn within<B>(s: State<B>, deadline: u64, t: Seq<Event<B>>) -> (
    State<B>,
    Result<(), Text>,
) {
    let (s, now) = call_now(s, t);
    match now {
        Err(message) => (s, Err(message)),
        Ok(now) => if now > deadline {
            (s, Err(MSG_PAUSE_RESUME_DEADLINE@))
        } else {
            (s, Ok(()))
        },
    }
}

/// One look at the tasks of a resumed child: `None` where all of them are still stopped.
#[verifier::opaque]
pub open spec fn observe_tasks<B>(s: State<B>, deadline: u64, t: Seq<Event<B>>) -> (
    State<B>,
    Option<Result<(), Text>>,
) {
    let (s, states) = call_tasks(s, s.pid, t);
    match states {
        Err(message) => (s, Some(Err(message))),
        Ok(states) => {
            let (s, now) = call_now(s, t);
            match now {
                Err(message) => (s, Some(Err(message))),
                Ok(now) => if now > deadline {
                    (s, Some(Err(MSG_PAUSE_RESUME_DEADLINE@)))
                } else if !all_stopped(states, s.expected_tasks) {
                    (s, Some(Ok(())))
                } else if now == deadline {
                    (s, Some(Err(MSG_PAUSE_RESUME_DEADLINE@)))
                } else {
                    let (s, waited) = call_wait(s, t);
                    match waited {
                        Err(message) => (s, Some(Err(message))),
                        Ok(()) => (s, None),
                    }
                },
            }
        },
    }
}

/// The authorization word that a resumed child rests at.
pub open spec fn resting(successor: bool) -> Option<u64> {
    if successor {
        Some(PAUSE_ARMED)
    } else {
        None
    }
}

/// One look at a resumed child whose authorization rests: an exit within the deadline shows that
/// it runs, and so does a task that is not stopped.
#[verifier::opaque]
pub open spec fn observe_resting<B>(s: State<B>, deadline: u64, t: Seq<Event<B>>) -> (
    State<B>,
    Option<Result<(), Text>>,
) {
    let (s, exited) = call_original_exited(s, t);
    match exited {
        Err(message) => (s, Some(Err(message))),
        Ok(true) => {
            let (s, r) = within(s, deadline, t);
            (s, Some(r))
        },
        Ok(false) => observe_tasks(s, deadline, t),
    }
}

/// One look at a resumed child: `None` where it has to be looked at again.
#[verifier::opaque]
pub open spec fn observe_turn<B>(
    s: State<B>,
    deadline: u64,
    successor: bool,
    t: Seq<Event<B>>,
) -> (State<B>, Option<Result<(), Text>>) {
    let (s, same) = call_same_generation(s, s.pid, s.generation, t);
    match same {
        Err(message) => (s, Some(Err(message))),
        Ok(false) => (s, Some(Err("owned child generation changed after resume"@))),
        Ok(true) => {
            let (s, word) = call_authorization(s, t);
            match word {
                Err(message) => (s, Some(Err(message))),
                Ok(word) => if successor && word == Some(PAUSE_REQUESTED) {
                    let (s, r) = within(s, deadline, t);
                    (s, Some(r))
                } else if word != resting(successor) {
                    (
                        s,
                        Some(
                            Err("pause authorization did not reach the expected resting state"@),
                        ),
                    )
                } else {
                    observe_resting(s, deadline, t)
                },
            }
        },
    }
}

/// A wait, of at most `turns` looks, until a resumed child is seen to run.
#[verifier::opaque]
pub open spec fn observe_resumed<B>(
    s: State<B>,
    deadline: u64,
    successor: bool,
    turns: nat,
    t: Seq<Event<B>>,
) -> (State<B>, Result<(), Text>)
    decreases turns,
{
    if turns == 0 {
        (s, Err(MSG_PAUSE_RESUME_DEADLINE@))
    } else {
        let (s, r) = observe_turn(s, deadline, successor, t);
        match r {
            Some(r) => (s, r),
            None => observe_resumed(s, deadline, successor, (turns - 1) as nat, t),
        }
    }
}

/// What one look came to, seen by the characters of its message.
pub open spec fn looked(r: Option<Result<(), String>>) -> Option<Result<(), Text>> {
    match r {
        Some(r) => Some(heard(r)),
        None => None,
    }
}

impl<B> PauseCoordinator<B> {
    /// Takes a snapshot of the tasks, by which the child must be stopped.
    pub(crate) fn sample_stopped<I: PauseIo<B>>(&mut self, io: &mut I, deadline: u64) -> (r: Result<
        u64,
        String,
    >)
        ensures
            extends(final(self).trace@, old(self).trace@),
            tied(old(self).trace@, final(self).trace@, old(io).log(), final(io).log()),
            forall|t: Seq<Event<B>>|
                extends(t, final(self).trace@) ==> comes_to(
                    #[trigger] sample_stopped(old(self)@, deadline, t),
                    (final(self)@, heard(r)),
                ),
    {
        proof {
            reveal(sample_stopped);
        }
        let states = match self.ask_tasks(io, self.pid) {
            Ok(states) => states,
            Err(message) => return Err(message),
        };
        let now: u64 = match self.ask_now(io) {
            Ok(now) => now,
            Err(message) => return Err(message),
        };
        if now > deadline {
            return Err(MSG_PAUSE_CONFIRMATION_DEADLINE.to_owned());
        }
        if !stopped_as_expected(&states, &self.expected_tasks) {
            return Err("task set changed or was not entirely stopped".to_owned());
        }
        Ok(now)
    }

    fn within<I: PauseIo<B>>(&mut self, io: &mut I, deadline: u64) -> (r: Result<(), String>)
        ensures
            extends(final(self).trace@, old(self).trace@),
            tied(old(self).trace@, final(self).trace@, old(io).log(), final(io).log()),
            forall|t: Seq<Event<B>>|
                extends(t, final(self).trace@) ==> comes_to(
                    #[trigger] within(old(self)@, deadline, t),
                    (final(self)@, heard(r)),
                ),
    {
        proof {
            reveal(within);
        }
        match self.ask_now(io) {
            Err(message) => Err(message),
            Ok(now) => if now > deadline {
                Err(MSG_PAUSE_RESUME_DEADLINE.to_owned())
            } else {
                Ok(())
            },
        }
    }

    fn observe_tasks<I: PauseIo<B>>(&mut self, io: &mut I, deadline: u64) -> (r: Option<
        Result<(), String>,
    >)
        ensures
            extends(final(self).trace@, old(self).trace@),
            tied(old(self).trace@, final(self).trace@, old(io).log(), final(io).log()),
            forall|t: Seq<Event<B>>|
                extends(t, final(self).trace@) ==> comes_to(
                    #[trigger] observe_tasks(old(self)@, deadline, t),
                    (final(self)@, looked(r)),
                ),
    {
        proof {
            reveal(observe_tasks);
        }
        let states = match self.ask_tasks(io, self.pid) {
            Ok(states) => states,
            Err(message) => return Some(Err(message)),
        };
        let now: u64 = match self.ask_now(io) {
            Ok(now) => now,
            Err(message) => return Some(Err(message)),
        };
        if now > deadline {
            return Some(Err(MSG_PAUSE_RESUME_DEADLINE.to_owned()));
        }
        if !stopped_as_expected(&states, &self.expected_tasks) {
            return Some(Ok(()));
        }
        if now == deadline {
            return Some(Err(MSG_PAUSE_RESUME_DEADLINE.to_owned()));
        }
        match self.ask_wait(io) {
            Err(message) => Some(Err(message)),
            Ok(()) => None,
        }
    }

    fn observe_resting<I: PauseIo<B>>(&mut self, io: &mut I, deadline: u64) -> (r: Option<
        Result<(), String>,
    >)
        ensures
            extends(final(self).trace@, old(self).trace@),
            tied(old(self).trace@, final(self).trace@, old(io).log(), final(io).log()),
            forall|t: Seq<Event<B>>|
                extends(t, final(self).trace@) ==> comes_to(
                    #[trigger] observe_resting(old(self)@, deadline, t),
                    (final(self)@, looked(r)),
                ),
    {
        proof {
            reveal(observe_resting);
        }
        match self.ask_original_exited(io) {
            Err(message) => Some(Err(message)),
            Ok(true) => Some(self.within(io, deadline)),
            Ok(false) => self.observe_tasks(io, deadline),
        }
    }

    fn observe_turn<I: PauseIo<B>>(&mut self, io: &mut I, deadline: u64, successor: bool) -> (r:
        Option<Result<(), String>>)
        ensures
            extends(final(self).trace@, old(self).trace@),
            tied(old(self).trace@, final(self).trace@, old(io).log(), final(io).log()),
            forall|t: Seq<Event<B>>|
                extends(t, final(self).trace@) ==> comes_to(
                    #[trigger] observe_turn(old(self)@, deadline, successor, t),
                    (final(self)@, looked(r)),
                ),
    {
        proof {
            reveal(observe_turn);
        }
        match self.ask_same_generation(io, self.pid, self.generation) {
            Err(message) => return Some(Err(message)),
            Ok(false) => return Some(
                Err("owned child generation changed after resume".to_owned()),
            ),
            Ok(true) => {},
        }
        let word = match self.ask_authorization(io) {
            Err(message) => return Some(Err(message)),
            Ok(word) => word,
        };
        if successor && word == Some(PAUSE_REQUESTED) {
            return Some(self.within(io, deadline));
        }
        let resting = if successor {
            Some(PAUSE_ARMED)
        } else {
            None
        };
        if word != resting {
            return Some(
                Err("pause authorization did not reach the expected resting state".to_owned()),
            );
        }
        self.observe_resting(io, deadline)
    }

    /// Waits until a resumed child is seen to run.
    pub(crate) fn observe_resumed<I: PauseIo<B>>(
        &mut self,
        io: &mut I,
        deadline: u64,
        successor: bool,
    ) -> (r: Result<(), String>)
        ensures
            extends(final(self).trace@, old(self).trace@),
            tied(old(self).trace@, final(self).trace@, old(io).log(), final(io).log()),
            forall|t: Seq<Event<B>>|
                extends(t, final(self).trace@) ==> comes_to(
                    #[trigger] observe_resumed(old(self)@, deadline, successor, TURNS as nat, t),
                    (final(self)@, heard(r)),
                ),
    {
        let mut turns: u64 = TURNS;
        while turns > 0
            invariant
                extends(self.trace@, old(self).trace@),
                tied(old(self).trace@, self.trace@, old(io).log(), io.log()),
                forall|t: Seq<Event<B>>|
                    extends(t, self.trace@) ==> comes_to(
                        #[trigger] observe_resumed(
                            old(self)@,
                            deadline,
                            successor,
                            TURNS as nat,
                            t,
                        ),
                        observe_resumed(self@, deadline, successor, turns as nat, t),
                    ),
            decreases turns,
        {
            reveal(observe_resumed);
            if let Some(r) = self.observe_turn(io, deadline, successor) {
                return r;
            }
            turns -= 1;
        }
        proof {
            reveal(observe_resumed);
        }
        Err(MSG_PAUSE_RESUME_DEADLINE.to_owned())
    }
}

} // verus!
