//! The terminal cleanup of a pause: whatever happened, links are detached, records are accounted
//! for, the authorization is removed and a child that may be stopped is resumed.

use crate::discovery::pause::calls::{
    call_apply, call_authority_pending, call_authorization, call_detach, call_discard,
    call_reconcile, call_resume, call_unvalidated,
};
use crate::discovery::pause::diagnostic::message_diagnostic;
use crate::discovery::pause::ending::{cleans_up, lemma_cleanup_order, lemma_log_is_in_order};
use crate::discovery::pause::io::{
    batch_reply, comes_to, extends, group_history, tied, BatchFault, Event, PauseBatchError,
    PauseBatchOutcome, PauseIo,
};
use crate::discovery::pause::rules::{
    fail_line, settled, AuthorizationSource, PauseError, PauseFail, MAX_FAILURE_ITEMS,
};
use crate::discovery::pause::state::{PauseCoordinator, PauseEpoch, State};
use crate::discovery::pause::steps::{
    apply_pending, close_dequeue, failure_bound, keep_dequeued, remove_and_account,
    take_stop_candidate, timed_dequeue,
};
use crate::record::{DiscoveryItem, DiscoveryRecord};
use crate::text::{heard, push_text, texts, Text};
use vstd::prelude::*;

verus! {

broadcast use group_history;

/// A list of messages with the message of a failed reply.
pub open spec fn noted(errors: Seq<Text>, reply: Result<(), Text>) -> Seq<Text> {
    match reply {
        Ok(()) => errors,
        Err(message) => errors.push(message),
    }
}

/// Adds the message of a failed reply to a list.
pub(crate) fn note(errors: &mut Vec<String>, reply: Result<(), String>)
    ensures
        texts(final(errors)@) == noted(texts(old(errors)@), heard(reply)),
{
    if let Err(message) = reply {
        push_text(errors, message);
    }
}

impl<B> State<B> {
    /// The state once one more item was taken from the queue by a failing pause.
    pub open spec fn drained_one(self) -> State<B> {
        State { failure_items: (self.failure_items + 1) as usize, ..self }
    }

    /// The state once a resume of an accepted request is under way.
    pub open spec fn resuming(self) -> State<B> {
        State { epoch: PauseEpoch { resume_attempted: true, ..self.epoch }, ..self }
    }

    /// The state once a resume of an accepted request has succeeded.
    pub open spec fn resumed(self) -> State<B> {
        State { epoch: PauseEpoch { resume_succeeded: true, ..self.epoch }, ..self }
    }

    /// The state once a protective resume is under way.
    pub open spec fn protecting(self) -> State<B> {
        State { epoch: PauseEpoch { protective_resume_attempted: true, ..self.epoch }, ..self }
    }

    /// The state once the authorization is gone.
    pub open spec fn disarmed(self) -> State<B> {
        State { armed: false, ..self }
    }

    /// The state once a cleanup is under way.
    pub open spec fn begun(self) -> State<B> {
        State { cleaning: true, ..self }
    }

    /// The state once a cleanup has ended, and whether it was complete.
    pub open spec fn ended(self, cleaned: bool) -> State<B> {
        State { cleaned, cleaning: false, ..self }
    }

    /// The state once the child may be stopped wherever a resume may be owed.
    pub open spec fn wary(self) -> State<B> {
        State { may_be_stopped: self.may_be_stopped || self.resume_debt(), ..self }
    }
}

/// A dequeue takes nothing from the budget of a failing pause.
pub proof fn lemma_dequeue_keeps_budget<B>(s: State<B>, deadline: Option<u64>, t: Seq<Event<B>>)
    ensures
        timed_dequeue(s, deadline, t).0.failure_items == s.failure_items,
{
    reveal(timed_dequeue);
    reveal(keep_dequeued);
    reveal(close_dequeue);
}

/// The items that a failing pause still takes from the queue, until it is empty, fails, or the
/// budget is spent. The flag tells whether a failure put the life of the child in doubt.
#[verifier::opaque]
pub open spec fn drain<B>(
    s: State<B>,
    errors: Seq<Text>,
    deadline: u64,
    malformed: Text,
    t: Seq<Event<B>>,
) -> (State<B>, Seq<Text>, bool)
    decreases MAX_FAILURE_ITEMS - s.failure_items,
{
    if s.failure_items >= MAX_FAILURE_ITEMS {
        (s, errors, false)
    } else {
        let (next, item) = timed_dequeue(s, Some(deadline), t);
        proof {
            lemma_dequeue_keeps_budget(s, Some(deadline), t);
        }
        match item {
            Err(fault) => (
                next.reasoned_by(message_diagnostic(fault.message)),
                errors.push(fault.message),
                fault.lifecycle,
            ),
            Ok(None) => (next, errors, false),
            Ok(Some(timed)) => if timed.item == DiscoveryItem::Malformed {
                drain(next.drained_one(), errors.push(malformed), deadline, malformed, t)
            } else {
                drain(next.drained_one(), errors, deadline, malformed, t)
            },
        }
    }
}

/// The first part of a cleanup: the terminal authority is reconciled, and where it is still held
/// outside it is given up.
#[verifier::opaque]
pub open spec fn cleanup_authority<B>(s: State<B>, errors: Seq<Text>, t: Seq<Event<B>>) -> (
    State<B>,
    Seq<Text>,
) {
    let (s, reply) = call_reconcile(s, t);
    relinquish(s, noted(errors, reply), t)
}

/// Authority that is held outside, with no batch at hand, is given up.
#[verifier::opaque]
pub open spec fn relinquish<B>(s: State<B>, errors: Seq<Text>, t: Seq<Event<B>>) -> (
    State<B>,
    Seq<Text>,
) {
    if s.terminal_batch is Some {
        (s, errors)
    } else {
        let (s, pending) = call_authority_pending(s, t);
        if pending {
            let (s, reply) = call_discard(s, t);
            (s, noted(errors, reply))
        } else {
            (s, errors)
        }
    }
}

/// What an application during a cleanup came to.
#[verifier::opaque]
pub open spec fn cleanup_applied<B>(
    s: State<B>,
    errors: Seq<Text>,
    required: bool,
    reply: Result<PauseBatchOutcome, BatchFault>,
) -> (State<B>, Seq<Text>) {
    match reply {
        Ok(outcome) => (s.reasoned_by(outcome.diagnostic), errors),
        Err(fault) => s.reasoned_by(fault.diagnostic).annotating(
            errors.push(fault.message),
            required,
        ),
    }
}

/// A terminal batch that an application left is applied on its own, and what is left then is
/// given up.
#[verifier::opaque]
pub open spec fn cleanup_batch<B>(
    s: State<B>,
    errors: Seq<Text>,
    deadline: u64,
    required: bool,
    t: Seq<Event<B>>,
) -> (State<B>, Seq<Text>) {
    if s.terminal_batch is None {
        (s, errors)
    } else {
        let (s, reply) = call_apply(s, Seq::empty(), Some(deadline), false, s.active(), t);
        let (s, errors) = cleanup_applied(s, errors, required, reply);
        if s.terminal_batch is None {
            (s, errors)
        } else {
            let (s, reply) = call_discard(s, t);
            (s, noted(errors, reply))
        }
    }
}

/// Records that could not be validated are reported.
#[verifier::opaque]
pub open spec fn cleanup_unvalidated<B>(s: State<B>, count: u64) -> State<B> {
    if count != 0 {
        call_unvalidated(s, count)
    } else {
        s
    }
}

/// Every kept record is applied without additions.
#[verifier::opaque]
pub open spec fn cleanup_records<B>(
    s: State<B>,
    errors: Seq<Text>,
    deadline: u64,
    required: bool,
    t: Seq<Event<B>>,
) -> (State<B>, Seq<Text>) {
    let count = s.unvalidated_records;
    let s = State { unvalidated_records: 0, ..s };
    let (s, reply) = apply_pending(s, Some(deadline), false, s.active(), t);
    let (s, errors) = cleanup_applied(s, errors, required, reply);
    let (s, errors) = cleanup_batch(s, errors, deadline, required, t);
    (take_stop_candidate(cleanup_unvalidated(s, count), t), errors)
}

/// The authorization word is read for what it says of the child.
#[verifier::opaque]
pub open spec fn cleanup_word<B>(s: State<B>, errors: Seq<Text>, t: Seq<Event<B>>) -> (
    State<B>,
    Seq<Text>,
) {
    let (s, word) = call_authorization(s, t);
    match word {
        Err(message) => (s.wary(), errors.push(message)),
        Ok(word) => {
            let (s, verdict) = s.classified(
                word,
                s.disposition(),
                AuthorizationSource::Observation,
            );
            (s, noted(errors, verdict))
        },
    }
}

/// The authorization is removed.
#[verifier::opaque]
pub open spec fn cleanup_removal<B>(s: State<B>, errors: Seq<Text>, t: Seq<Event<B>>) -> (
    State<B>,
    Seq<Text>,
) {
    let (s, removed) = remove_and_account(s, t);
    match removed {
        Ok(()) => (s.disarmed(), errors),
        Err(fail) => (s.disarmed(), errors.push(fail_line(fail))),
    }
}

/// A child to which a resume is owed is resumed, once.
#[verifier::opaque]
pub open spec fn cleanup_resume<B>(s: State<B>, errors: Seq<Text>, t: Seq<Event<B>>) -> (
    State<B>,
    Seq<Text>,
) {
    if s.owes_resume() {
        let (s, reply) = call_resume(s.resuming(), t);
        match reply {
            Err(message) => (s, errors.push(message)),
            Ok(()) => (s.resumed().debt_settled(), errors),
        }
    } else if s.owes_protective_resume() {
        let (s, reply) = call_resume(s.protecting(), t);
        match reply {
            Err(message) => (s, errors.push(message)),
            Ok(()) => (s.debt_settled(), errors),
        }
    } else {
        (s, errors)
    }
}

/// Whether terminal authority is still unresolved: a batch at hand, or authority outside.
#[verifier::opaque]
pub open spec fn unresolved<B>(s: State<B>, t: Seq<Event<B>>) -> (State<B>, bool) {
    if s.terminal_batch is Some {
        (s, true)
    } else {
        call_authority_pending(s, t)
    }
}

/// The end of a cleanup that `initiating` messages had started.
#[verifier::opaque]
pub open spec fn cleanup_end<B>(
    s: State<B>,
    errors: Seq<Text>,
    initiating: nat,
    required: bool,
    lifecycle: bool,
    t: Seq<Event<B>>,
) -> (State<B>, Result<(), PauseFail>) {
    let (s, errors) = relinquish(s, errors, t);
    let (s, open) = unresolved(s, t);
    if open {
        cleanup_open(s, errors, required)
    } else {
        cleanup_closed(s, errors, initiating, required, lifecycle)
    }
}

/// The end of a cleanup that leaves terminal authority unresolved.
#[verifier::opaque]
pub open spec fn cleanup_open<B>(s: State<B>, errors: Seq<Text>, required: bool) -> (
    State<B>,
    Result<(), PauseFail>,
) {
    let (s, errors) = s.annotating(
        errors.push("terminal discovery authority remained unresolved after cleanup"@),
        required,
    );
    (s.ended(s.cleaned), Err(PauseFail { messages: errors, required, lifecycle: true }))
}

/// The end of a cleanup that leaves nothing open: it is complete where it added no message.
#[verifier::opaque]
pub open spec fn cleanup_closed<B>(
    s: State<B>,
    errors: Seq<Text>,
    initiating: nat,
    required: bool,
    lifecycle: bool,
) -> (State<B>, Result<(), PauseFail>) {
    if errors.len() > initiating {
        let (s, errors) = s.ended(false).annotating(errors, required);
        (s, Err(PauseFail { messages: errors, required, lifecycle: true }))
    } else {
        if errors.len() == 0 {
            (s.ended(true), Ok(()))
        } else {
            let (s, errors) = s.ended(true).annotating(errors, required);
            (s, Err(PauseFail { messages: errors, required, lifecycle }))
        }
    }
}

/// The middle of a cleanup: links are detached, the queue is drained and every record is
/// accounted for.
#[verifier::opaque]
pub open spec fn cleanup_accounts<B>(
    s: State<B>,
    errors: Seq<Text>,
    required: bool,
    t: Seq<Event<B>>,
) -> (State<B>, Seq<Text>) {
    let (s, reply) = call_detach(s, t);
    let (s, errors, deadline) = failure_bound(s, noted(errors, reply), t);
    let (s, errors, _) = drain(
        s,
        errors,
        deadline,
        "malformed discovery record during cleanup"@,
        t,
    );
    cleanup_records(s, errors, deadline, required, t)
}

/// The whole of a terminal cleanup that `errors` started.
#[verifier::opaque]
pub open spec fn terminal_cleanup<B>(
    s: State<B>,
    errors: Seq<Text>,
    required: bool,
    lifecycle: bool,
    t: Seq<Event<B>>,
) -> (State<B>, Result<(), PauseFail>) {
    if s.cleaned || s.cleaning {
        if errors.len() == 0 {
            (s, Ok(()))
        } else {
            (s, Err(PauseFail { messages: errors, required, lifecycle }))
        }
    } else {
        let initiating = errors.len();
        let (s, errors) = cleanup_authority(s.begun(), errors, t);
        let (s, errors) = cleanup_accounts(s, errors, required, t);
        let (s, errors) = cleanup_word(s, errors, t);
        let (s, errors) = cleanup_removal(s, errors, t);
        let (s, errors) = cleanup_resume(s, errors, t);
        cleanup_end(s, errors, initiating, required, lifecycle, t)
    }
}

impl<B> PauseCoordinator<B> {
    /// Counts one item that a failing pause took from the queue.
    pub(crate) fn drained_one(&mut self)
        requires
            old(self).failure_items < MAX_FAILURE_ITEMS,
        ensures
            comes_to(old(self)@.drained_one(), final(self)@),
    {
        self.failure_items += 1;
    }

    fn begin_cleanup(&mut self)
        ensures
            comes_to(old(self)@.begun(), final(self)@),
    {
        self.cleaning = true;
    }

    fn end_cleanup(&mut self, cleaned: bool)
        ensures
            comes_to(old(self)@.ended(cleaned), final(self)@),
    {
        self.cleaned = cleaned;
        self.cleaning = false;
    }

    /// Disarms the coordinator.
    pub(crate) fn disarm(&mut self)
        ensures
            comes_to(old(self)@.disarmed(), final(self)@),
    {
        self.armed = false;
    }

    /// Takes the child to be stopped wherever a resume may be owed.
    pub(crate) fn be_wary(&mut self)
        ensures
            comes_to(old(self)@.wary(), final(self)@),
    {
        self.may_be_stopped = self.may_be_stopped || self.has_proven_resume_debt();
    }

    /// Notes that a resume of an accepted request is under way.
    pub(crate) fn note_resuming(&mut self)
        ensures
            comes_to(old(self)@.resuming(), final(self)@),
    {
        self.epoch.resume_attempted = true;
    }

    /// Notes that a resume of an accepted request has succeeded.
    pub(crate) fn note_resumed(&mut self)
        ensures
            comes_to(old(self)@.resumed(), final(self)@),
    {
        self.epoch.resume_succeeded = true;
    }

    /// Notes that a protective resume is under way.
    pub(crate) fn note_protecting(&mut self)
        ensures
            comes_to(old(self)@.protecting(), final(self)@),
    {
        self.epoch.protective_resume_attempted = true;
    }

    /// Takes what a failing pause still may from the queue.
    pub(crate) fn drain<I: PauseIo<B>>(
        &mut self,
        io: &mut I,
        errors: &mut Vec<String>,
        deadline: u64,
        malformed: &str,
    ) -> (doubt: bool)
        ensures
            extends(final(self).trace@, old(self).trace@),
            tied(old(self).trace@, final(self).trace@, old(io).log(), final(io).log()),
            forall|t: Seq<Event<B>>|
                extends(t, final(self).trace@) ==> comes_to(
                    #[trigger] drain(old(self)@, texts(old(errors)@), deadline, malformed@, t),
                    (final(self)@, texts(final(errors)@), doubt),
                ),
    {
        while self.failure_items < MAX_FAILURE_ITEMS
            invariant
                extends(self.trace@, old(self).trace@),
                tied(old(self).trace@, self.trace@, old(io).log(), io.log()),
                forall|t: Seq<Event<B>>|
                    extends(t, self.trace@) ==> comes_to(
                        #[trigger] drain(
                            old(self)@,
                            texts(old(errors)@),
                            deadline,
                            malformed@,
                            t,
                        ),
                        drain(self@, texts(errors@), deadline, malformed@, t),
                    ),
            decreases MAX_FAILURE_ITEMS - self.failure_items,
        {
            reveal(drain);
            let ghost before = self@;
            match self.timed_dequeue(io, Some(deadline)) {
                Err(fault) => {
                    self.set_message_diagnostic(fault.message.as_str());
                    push_text(errors, fault.message);
                    return fault.lifecycle;
                },
                Ok(None) => {
                    return false;
                },
                Ok(Some(timed)) => {
                    proof {
                        lemma_dequeue_keeps_budget(before, Some(deadline), self.trace@);
                        assert(comes_to(
                            timed_dequeue(before, Some(deadline), self.trace@).0,
                            self@,
                        ));
                    }
                    if timed.item == DiscoveryItem::Malformed {
                        push_text(errors, malformed.to_owned());
                    }
                    self.drained_one();
                },
            }
        }
        proof {
            reveal(drain);
        }
        false
    }

    /// Gives up authority that is held outside, with no batch at hand.
    fn relinquish<I: PauseIo<B>>(
        &mut self,
        io: &mut I,
        errors: &mut Vec<String>,
    )
        ensures
            extends(final(self).trace@, old(self).trace@),
            tied(old(self).trace@, final(self).trace@, old(io).log(), final(io).log()),
            forall|t: Seq<Event<B>>|
                extends(t, final(self).trace@) ==> comes_to(
                    #[trigger] relinquish(old(self)@, texts(old(errors)@), t),
                    (final(self)@, texts(final(errors)@)),
                ),
    {
        proof {
            reveal(relinquish);
        }
        if self.terminal_batch.is_some() {
            return;
        }
        if self.ask_authority_pending(io) {
            let reply = self.ask_discard(io);
            note(errors, reply);
        }
    }

    /// Reconciles the terminal authority.
    fn cleanup_authority<I: PauseIo<B>>(
        &mut self,
        io: &mut I,
        errors: &mut Vec<String>,
    )
        ensures
            extends(final(self).trace@, old(self).trace@),
            tied(old(self).trace@, final(self).trace@, old(io).log(), final(io).log()),
            forall|t: Seq<Event<B>>|
                extends(t, final(self).trace@) ==> comes_to(
                    #[trigger] cleanup_authority(old(self)@, texts(old(errors)@), t),
                    (final(self)@, texts(final(errors)@)),
                ),
    {
        proof {
            reveal(cleanup_authority);
        }
        let reply = self.ask_reconcile(io);
        note(errors, reply);
        self.relinquish(io, errors);
    }

    /// Takes in what an application during a cleanup came to.
    fn cleanup_applied(
        &mut self,
        errors: &mut Vec<String>,
        required: bool,
        reply: Result<PauseBatchOutcome, PauseBatchError>,
    )
        ensures
            final(self).trace@ == old(self).trace@,
            comes_to(
                cleanup_applied(old(self)@, texts(old(errors)@), required, batch_reply(reply)),
                (final(self)@, texts(final(errors)@)),
            ),
    {
        proof {
            reveal(cleanup_applied);
        }
        match reply {
            Ok(outcome) => {
                self.set_diagnostic_of(outcome.diagnostic);
            },
            Err(error) => {
                self.set_diagnostic_of(error.diagnostic);
                push_text(errors, error.message);
                self.annotate_required_primary(errors, required);
            },
        }
    }

    /// Applies a terminal batch that an application left, and gives up what is left then.
    fn cleanup_batch<I: PauseIo<B>>(
        &mut self,
        io: &mut I,
        errors: &mut Vec<String>,
        deadline: u64,
        required: bool,
    )
        ensures
            extends(final(self).trace@, old(self).trace@),
            tied(old(self).trace@, final(self).trace@, old(io).log(), final(io).log()),
            forall|t: Seq<Event<B>>|
                extends(t, final(self).trace@) ==> comes_to(
                    #[trigger] cleanup_batch(old(self)@, texts(old(errors)@), deadline, required, t),
                    (final(self)@, texts(final(errors)@)),
                ),
    {
        proof {
            reveal(cleanup_batch);
        }
        if self.terminal_batch.is_none() {
            return;
        }
        let none: Vec<DiscoveryRecord> = Vec::new();
        let owned = self.active_epoch();
        let reply = self.ask_apply(io, none, Some(deadline), false, owned);
        self.cleanup_applied(errors, required, reply);
        if self.terminal_batch.is_some() {
            let reply = self.ask_discard(io);
            note(errors, reply);
        }
    }

    /// Reports records that could not be validated.
    fn cleanup_unvalidated<I: PauseIo<B>>(
        &mut self,
        io: &mut I,
        count: u64,
    )
        ensures
            extends(final(self).trace@, old(self).trace@),
            tied(old(self).trace@, final(self).trace@, old(io).log(), final(io).log()),
            comes_to(cleanup_unvalidated(old(self)@, count), final(self)@),
    {
        proof {
            reveal(cleanup_unvalidated);
        }
        if count != 0 {
            self.ask_unvalidated(io, count);
        }
    }

    /// Accounts for every kept record.
    fn cleanup_records<I: PauseIo<B>>(
        &mut self,
        io: &mut I,
        errors: &mut Vec<String>,
        deadline: u64,
        required: bool,
    )
        ensures
            extends(final(self).trace@, old(self).trace@),
            tied(old(self).trace@, final(self).trace@, old(io).log(), final(io).log()),
            forall|t: Seq<Event<B>>|
                extends(t, final(self).trace@) ==> comes_to(
                    #[trigger] cleanup_records(old(self)@, texts(old(errors)@), deadline, required, t),
                    (final(self)@, texts(final(errors)@)),
                ),
    {
        proof {
            reveal(cleanup_records);
        }
        let count: u64 = self.unvalidated_records;
        self.unvalidated_records = 0;
        let owned = self.active_epoch();
        let records = self.take_pending();
        let reply = self.ask_apply(io, records, Some(deadline), false, owned);
        self.cleanup_applied(errors, required, reply);
        self.cleanup_batch(io, errors, deadline, required);
        self.cleanup_unvalidated(io, count);
        self.take_stop_candidate(io);
    }

    /// Reads the authorization word for what it says of the child.
    fn cleanup_word<I: PauseIo<B>>(
        &mut self,
        io: &mut I,
        errors: &mut Vec<String>,
    )
        ensures
            extends(final(self).trace@, old(self).trace@),
            tied(old(self).trace@, final(self).trace@, old(io).log(), final(io).log()),
            forall|t: Seq<Event<B>>|
                extends(t, final(self).trace@) ==> comes_to(
                    #[trigger] cleanup_word(old(self)@, texts(old(errors)@), t),
                    (final(self)@, texts(final(errors)@)),
                ),
    {
        proof {
            reveal(cleanup_word);
        }
        match self.ask_authorization(io) {
            Err(message) => {
                push_text(errors, message);
                self.be_wary();
            },
            Ok(word) => {
                let disposition = self.removal_disposition();
                let verdict = self.classify_authorization(
                    word,
                    disposition,
                    AuthorizationSource::Observation,
                );
                note(errors, verdict);
            },
        }
    }

    /// Removes the authorization.
    fn cleanup_removal<I: PauseIo<B>>(
        &mut self,
        io: &mut I,
        errors: &mut Vec<String>,
    )
        ensures
            extends(final(self).trace@, old(self).trace@),
            tied(old(self).trace@, final(self).trace@, old(io).log(), final(io).log()),
            forall|t: Seq<Event<B>>|
                extends(t, final(self).trace@) ==> comes_to(
                    #[trigger] cleanup_removal(old(self)@, texts(old(errors)@), t),
                    (final(self)@, texts(final(errors)@)),
                ),
    {
        proof {
            reveal(cleanup_removal);
        }
        let removed = self.remove_and_account(io);
        self.disarm();
        if let Err(error) = removed {
            push_text(errors, error.render());
        }
    }

    /// Resumes a child to which a resume is owed.
    fn cleanup_resume<I: PauseIo<B>>(
        &mut self,
        io: &mut I,
        errors: &mut Vec<String>,
    )
        ensures
            extends(final(self).trace@, old(self).trace@),
            tied(old(self).trace@, final(self).trace@, old(io).log(), final(io).log()),
            forall|t: Seq<Event<B>>|
                extends(t, final(self).trace@) ==> comes_to(
                    #[trigger] cleanup_resume(old(self)@, texts(old(errors)@), t),
                    (final(self)@, texts(final(errors)@)),
                ),
    {
        proof {
            reveal(cleanup_resume);
        }
        if self.owes_resume() {
            self.note_resuming();
            match self.ask_resume(io) {
                Err(message) => push_text(errors, message),
                Ok(()) => {
                    self.note_resumed();
                    self.settle_cleanup_resume_debt();
                },
            }
        } else if self.owes_protective_resume() {
            self.note_protecting();
            match self.ask_resume(io) {
                Err(message) => push_text(errors, message),
                Ok(()) => self.settle_cleanup_resume_debt(),
            }
        }
    }

    /// Tells whether terminal authority is still unresolved.
    fn unresolved<I: PauseIo<B>>(
        &mut self,
        io: &mut I,
    ) -> (open: bool)
        ensures
            extends(final(self).trace@, old(self).trace@),
            tied(old(self).trace@, final(self).trace@, old(io).log(), final(io).log()),
            forall|t: Seq<Event<B>>|
                extends(t, final(self).trace@) ==> comes_to(
                    #[trigger] unresolved(old(self)@, t),
                    (final(self)@, open),
                ),
    {
        proof {
            reveal(unresolved);
        }
        if self.terminal_batch.is_some() {
            return true;
        }
        self.ask_authority_pending(io)
    }

    /// Ends a cleanup that leaves terminal authority unresolved.
    fn cleanup_open(&mut self, errors: Vec<String>, required: bool) -> (r: Result<(), PauseError>)
        ensures
            final(self).trace@ == old(self).trace@,
            comes_to(
                cleanup_open(old(self)@, texts(errors@), required),
                (final(self)@, settled(r)),
            ),
    {
        proof {
            reveal(cleanup_open);
        }
        let mut errors = errors;
        push_text(
            &mut errors,
            "terminal discovery authority remained unresolved after cleanup".to_owned(),
        );
        self.annotate_required_primary(&mut errors, required);
        self.end_cleanup(self.cleaned);
        Err(PauseError::many(errors, required, true))
    }

    /// Ends a cleanup that leaves nothing open.
    fn cleanup_closed(
        &mut self,
        errors: Vec<String>,
        initiating: usize,
        required: bool,
        lifecycle: bool,
    ) -> (r: Result<(), PauseError>)
        ensures
            final(self).trace@ == old(self).trace@,
            comes_to(
                cleanup_closed(
                    old(self)@,
                    texts(errors@),
                    initiating as nat,
                    required,
                    lifecycle,
                ),
                (final(self)@, settled(r)),
            ),
    {
        proof {
            reveal(cleanup_closed);
        }
        let mut errors = errors;
        assert(texts(errors@).len() == errors@.len());
        if errors.len() > initiating {
            self.end_cleanup(false);
            self.annotate_required_primary(&mut errors, required);
            return Err(PauseError::many(errors, required, true));
        }
        self.end_cleanup(true);
        if errors.len() == 0 {
            return Ok(());
        }
        self.annotate_required_primary(&mut errors, required);
        Err(PauseError::many(errors, required, lifecycle))
    }

    /// Ends a cleanup that `initiating` messages had started.
    fn cleanup_end<I: PauseIo<B>>(
        &mut self,
        io: &mut I,
        errors: Vec<String>,
        initiating: usize,
        required: bool,
        lifecycle: bool,
    ) -> (r: Result<(), PauseError>)
        ensures
            extends(final(self).trace@, old(self).trace@),
            tied(old(self).trace@, final(self).trace@, old(io).log(), final(io).log()),
            forall|t: Seq<Event<B>>|
                extends(t, final(self).trace@) ==> comes_to(
                    #[trigger] cleanup_end(
                        old(self)@,
                        texts(errors@),
                        initiating as nat,
                        required,
                        lifecycle,
                        t,
                    ),
                    (final(self)@, settled(r)),
                ),
    {
        proof {
            reveal(cleanup_end);
        }
        let mut errors = errors;
        self.relinquish(io, &mut errors);
        if self.unresolved(io) {
            self.cleanup_open(errors, required)
        } else {
            self.cleanup_closed(errors, initiating, required, lifecycle)
        }
    }

    /// Detaches every link, drains the queue and accounts for every record.
    fn cleanup_accounts<I: PauseIo<B>>(
        &mut self,
        io: &mut I,
        errors: &mut Vec<String>,
        required: bool,
    )
        ensures
            extends(final(self).trace@, old(self).trace@),
            tied(old(self).trace@, final(self).trace@, old(io).log(), final(io).log()),
            forall|t: Seq<Event<B>>|
                extends(t, final(self).trace@) ==> comes_to(
                    #[trigger] cleanup_accounts(old(self)@, texts(old(errors)@), required, t),
                    (final(self)@, texts(final(errors)@)),
                ),
    {
        proof {
            reveal(cleanup_accounts);
        }
        let reply = self.ask_detach(io);
        note(errors, reply);
        let deadline: u64 = self.failure_bound(io, errors);
        self.drain(io, errors, deadline, "malformed discovery record during cleanup");
        self.cleanup_records(io, errors, deadline, required);
    }

    /// Cleans up after a pause that `errors` ended.
    pub fn terminal_cleanup_with_cause<I: PauseIo<B>>(
        &mut self,
        io: &mut I,
        errors: Vec<String>,
        required: bool,
        lifecycle: bool,
    ) -> (r: Result<(), PauseError>)
        ensures
            extends(final(self).trace@, old(self).trace@),
            tied(old(self).trace@, final(self).trace@, old(io).log(), final(io).log()),
            forall|t: Seq<Event<B>>|
                extends(t, final(self).trace@) ==> comes_to(
                    #[trigger] terminal_cleanup(old(self)@, texts(errors@), required, lifecycle, t),
                    (final(self)@, settled(r)),
                ),
            !old(self).cleaned && !old(self).cleaning ==> cleans_up(
                old(io).log(),
                final(io).log(),
            ),
    {
        let ghost s = self@;
        let ghost log = io.log();
        let ghost causes = texts(errors@);
        let r = self.clean_up(io, errors, required, lifecycle);
        proof {
            let t = self.trace@;
            assert(comes_to(
                terminal_cleanup(s, causes, required, lifecycle, t),
                (self@, settled(r)),
            ));
            if !s.cleaned && !s.cleaning {
                lemma_cleanup_order(s, causes, required, lifecycle, t);
                lemma_log_is_in_order(s.trace, t, log, io.log());
            }
        }
        r
    }

    /// Cleans up, by the history.
    fn clean_up<I: PauseIo<B>>(
        &mut self,
        io: &mut I,
        errors: Vec<String>,
        required: bool,
        lifecycle: bool,
    ) -> (r: Result<(), PauseError>)
        ensures
            extends(final(self).trace@, old(self).trace@),
            tied(old(self).trace@, final(self).trace@, old(io).log(), final(io).log()),
            forall|t: Seq<Event<B>>|
                extends(t, final(self).trace@) ==> comes_to(
                    #[trigger] terminal_cleanup(old(self)@, texts(errors@), required, lifecycle, t),
                    (final(self)@, settled(r)),
                ),
    {
        proof {
            reveal(terminal_cleanup);
        }
        let mut errors = errors;
        if self.cleaned || self.cleaning {
            return if errors.len() == 0 {
                Ok(())
            } else {
                Err(PauseError::many(errors, required, lifecycle))
            };
        }
        let initiating: usize = errors.len();
        let ghost first = texts(errors@).len();
        assert(first == initiating as nat);
        self.begin_cleanup();
        self.cleanup_authority(io, &mut errors);
        self.cleanup_accounts(io, &mut errors, required);
        self.cleanup_word(io, &mut errors);
        self.cleanup_removal(io, &mut errors);
        self.cleanup_resume(io, &mut errors);
        self.cleanup_end(io, errors, initiating, required, lifecycle)
    }
}

} // verus!
