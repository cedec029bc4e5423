//! The end of a pause that was not confirmed: a failed cycle, and a request that the helper
//! refused.

use crate::cli::PausePolicy;
use crate::discovery::pause::calls::{
    call_authorization, call_now, call_resume, call_same_generation, call_wait,
};
use crate::discovery::pause::cleanup::{drain, lemma_dequeue_keeps_budget, terminal_cleanup};
use crate::discovery::pause::diagnostic::{
    message_diagnostic, PauseDiagnostic, MSG_PAUSE_HELPER_REJECTED,
};
use crate::discovery::pause::io::{comes_to, extends, group_history, tied, Event, PauseIo};
use crate::discovery::pause::rules::{
    annotate_primary, annotated, fail_line, one_fail, saturated, settled, AuthorizationSource,
    PauseError, PauseFail, RemovalDisposition, MAX_FAILURE_ITEMS,
};
use crate::discovery::pause::state::{
    blank_epoch, PauseCoordinator, PauseCounters, PauseEpoch, State,
};
use crate::discovery::pause::steps::{
    apply_pending, failure_bound, remove_and_account, take_stop_candidate, timed_dequeue, TURNS,
};
use crate::record::DiscoveryItem;
use crate::text::{one_text, push_text, texts, Text};
use vstd::prelude::*;

verus! {

broadcast use group_history;

impl<B> State<B> {
    /// The state once no further authorization will be installed.
    pub open spec fn unarmable(self) -> State<B> {
        State { rearming_enabled: false, ..self }
    }

    /// The state once the child is known to run.
    pub open spec fn running(self) -> State<B> {
        State { may_be_stopped: false, ..self }
    }

    /// The state once nothing is left of the deadlines and the budget of a failure.
    pub open spec fn unbounded(self) -> State<B> {
        State { active_deadline: None, failure_deadline: None, failure_items: 0, ..self }
    }

    /// The state once nothing is left of the epoch.
    pub open spec fn blanked(self) -> State<B> {
        State { epoch: blank_epoch(), ..self }
    }

    /// The state once an attempt has ended without a confirmation.
    pub open spec fn partial(self) -> State<B> {
        State {
            counters: PauseCounters { partial: saturated(self.counters.partial), ..self.counters },
            attempt_open: false,
            ..self
        }
    }
}

/// The end of an attempt that was not confirmed: an automatic policy reports it, a strict policy
/// fails.
#[verifier::opaque]
pub open spec fn finish_nonconfirmed<B>(s: State<B>, message: Text) -> (
    State<B>,
    Result<(), PauseFail>,
) {
    match s.policy {
        PausePolicy::Auto => (
            s.reasoned(PauseDiagnostic::OtherAutoNonconfirmed).partial().noticed(),
            Ok(()),
        ),
        PausePolicy::Always => (s, Err(one_fail(annotated(message, s.reason()), true, false))),
        PausePolicy::Never => (s, Ok(())),
    }
}

/// Every kept record is applied, by an owner where this coordinator is one. The flag tells that
/// the pause may end softly.
#[verifier::opaque]
pub open spec fn fail_apply<B>(
    s: State<B>,
    errors: Seq<Text>,
    deadline: u64,
    t: Seq<Event<B>>,
) -> (State<B>, Seq<Text>) {
    let (s, reply) = apply_pending(s, Some(deadline), true, s.active(), t);
    match reply {
        Ok(_) => (take_stop_candidate(s, t), errors),
        Err(fault) => (
            take_stop_candidate(s.reasoned_by(fault.diagnostic), t),
            errors.push(fault.message),
        ),
    }
}

/// The authorization word is read for what it says of the child. The flag tells that it raises no
/// doubt.
#[verifier::opaque]
pub open spec fn fail_word<B>(s: State<B>, errors: Seq<Text>, t: Seq<Event<B>>) -> (
    State<B>,
    Seq<Text>,
    bool,
) {
    let (s, word) = call_authorization(s, t);
    match word {
        Err(message) => (s.wary(), errors.push(message), false),
        Ok(word) => {
            let (s, verdict) = s.classified(
                word,
                RemovalDisposition::Normal,
                AuthorizationSource::Observation,
            );
            match verdict {
                Ok(()) => (s, errors, true),
                Err(message) => (s, errors.push(message), false),
            }
        },
    }
}

/// The authorization is removed. The flag tells that the removal raises no doubt.
#[verifier::opaque]
pub open spec fn fail_removal<B>(s: State<B>, errors: Seq<Text>, t: Seq<Event<B>>) -> (
    State<B>,
    Seq<Text>,
    bool,
) {
    let (s, removed) = remove_and_account(s, t);
    match removed {
        Ok(()) => (s.disarmed().unarmable(), errors, true),
        Err(fail) => (s, errors.push(fail_line(fail)), false),
    }
}

/// A child to which a resume is owed is resumed, once. The flag tells that it succeeded or that
/// none was owed.
#[verifier::opaque]
pub open spec fn fail_resume<B>(s: State<B>, errors: Seq<Text>, t: Seq<Event<B>>) -> (
    State<B>,
    Seq<Text>,
    bool,
) {
    if s.owes_resume() {
        let (s, reply) = call_resume(s.resuming(), t);
        match reply {
            Err(message) => (s, errors.push(message), false),
            Ok(()) => (s.resumed().running(), errors, true),
        }
    } else if s.owes_protective_resume() {
        let (s, reply) = call_resume(s.protecting(), t);
        match reply {
            Err(message) => (s, errors.push(message), false),
            Ok(()) => (s.running(), errors, true),
        }
    } else {
        (s, errors, true)
    }
}

/// The work of a failed cycle whose child is not in doubt. The flag tells that no doubt came up.
#[verifier::opaque]
pub open spec fn fail_work<B>(s: State<B>, message: Text, t: Seq<Event<B>>) -> (
    State<B>,
    Seq<Text>,
    bool,
) {
    let (s, errors, deadline) = failure_bound(s, seq![message], t);
    let (s, errors, doubtful) = drain(
        s,
        errors,
        deadline,
        "malformed discovery record during failure cleanup"@,
        t,
    );
    if doubtful {
        (s, errors, false)
    } else {
        let (s, errors) = fail_apply(s, errors, deadline, t);
        let (s, errors, sound) = fail_word(s, errors, t);
        if !sound {
            (s, errors, false)
        } else {
            let (s, errors, sound) = fail_removal(s, errors, t);
            if !sound {
                (s, errors, false)
            } else {
                fail_resume(s, errors, t)
            }
        }
    }
}

/// The end of a failed cycle whose child is not in doubt.
#[verifier::opaque]
pub open spec fn fail_softly<B>(s: State<B>, message: Text, t: Seq<Event<B>>) -> (
    State<B>,
    Result<(), PauseFail>,
) {
    let (s, errors, sound) = fail_work(s, message, t);
    if sound {
        finish_nonconfirmed(s.blanked().unbounded(), message)
    } else {
        terminal_cleanup(s, errors, false, true, t)
    }
}

/// The state at the start of a failed cycle: its reason is on record, and no further
/// authorization will be installed.
#[verifier::opaque]
pub open spec fn fail_reasoned<B>(s: State<B>, message: Text, lifecycle: bool) -> State<B> {
    let s = s.reasoned_by(message_diagnostic(message));
    if lifecycle {
        s.unarmable()
    } else {
        s.reasoned(PauseDiagnostic::OtherAutoNonconfirmed).unarmable()
    }
}

/// The end of a cycle that failed with `message`. Doubt, a strict policy and lost records call
/// for a terminal cleanup.
#[verifier::opaque]
pub open spec fn fail_cycle<B>(
    s: State<B>,
    message: Text,
    lifecycle: bool,
    t: Seq<Event<B>>,
) -> (State<B>, Result<(), PauseFail>) {
    let s = fail_reasoned(s, message, lifecycle);
    if lifecycle {
        terminal_cleanup(s, seq![message], false, true, t)
    } else if s.policy == PausePolicy::Always {
        terminal_cleanup(s, seq![message], true, false, t)
    } else if s.unvalidated_records != 0 {
        terminal_cleanup(s, seq![message], false, false, t)
    } else {
        fail_softly(s, message, t)
    }
}

/// What stands against a refused request: the first message that the pause keeps, and every
/// message that puts the life of the child in doubt.
pub struct Refusal {
    pub retained: Option<Text>,
    pub doubts: Seq<Text>,
}

impl Refusal {
    /// The refusal with one more doubt.
    pub open spec fn doubted(self, message: Text) -> Refusal {
        Refusal { doubts: self.doubts.push(message), ..self }
    }

    /// The refusal with a kept message: the first one stays.
    pub open spec fn kept(self, message: Text) -> Refusal {
        match self.retained {
            Some(_) => self,
            None => Refusal { retained: Some(message), ..self },
        }
    }
}

/// A wait of a refused pause for further records. The flag tells whether to go on.
#[verifier::opaque]
pub open spec fn reject_wait<B>(s: State<B>, f: Refusal, deadline: u64, t: Seq<Event<B>>) -> (
    State<B>,
    Refusal,
    bool,
) {
    let (s, now) = call_now(s, t);
    match now {
        Err(message) => (s, f.doubted(message), false),
        Ok(now) => if now < deadline {
            let (s, waited) = call_wait(s, t);
            match waited {
                Err(message) => (s, f.doubted(message), false),
                Ok(()) => (s, f, true),
            }
        } else {
            (s, f, false)
        },
    }
}

/// One turn of a refused pause at the queue. The flag tells whether to go on.
#[verifier::opaque]
pub open spec fn reject_turn<B>(s: State<B>, f: Refusal, deadline: u64, t: Seq<Event<B>>) -> (
    State<B>,
    Refusal,
    bool,
) {
    let (s, item) = timed_dequeue(s, Some(deadline), t);
    match item {
        Err(fault) => if fault.lifecycle {
            (s, f.doubted(fault.message), false)
        } else {
            (s, f.kept(fault.message), false)
        },
        Ok(None) => reject_wait(s, f, deadline, t),
        Ok(Some(timed)) => match timed.item {
            DiscoveryItem::Record(record) => if record.coalesced_of(s.pid) {
                (s.drained_one(), f, true)
            } else {
                (
                    s.drained_one(),
                    f.kept("rejected epoch contained an invalid record"@),
                    true,
                )
            },
            DiscoveryItem::Malformed => (
                s.drained_one(),
                f.kept("rejected epoch contained an invalid record"@),
                true,
            ),
        },
    }
}

/// The turns of a refused pause at the queue, of which there are at most `turns`.
#[verifier::opaque]
pub open spec fn reject_drain<B>(
    s: State<B>,
    f: Refusal,
    deadline: u64,
    turns: nat,
    t: Seq<Event<B>>,
) -> (State<B>, Refusal)
    decreases turns,
{
    if turns == 0 || s.failure_items >= MAX_FAILURE_ITEMS {
        (s, f)
    } else {
        let (s, f, on) = reject_turn(s, f, deadline, t);
        if on {
            reject_drain(s, f, deadline, (turns - 1) as nat, t)
        } else {
            (s, f)
        }
    }
}

/// Every record of a refused pause is applied, and the child must still be the pinned one.
#[verifier::opaque]
pub open spec fn reject_apply<B>(s: State<B>, f: Refusal, deadline: u64, t: Seq<Event<B>>) -> (
    State<B>,
    Refusal,
) {
    let (s, reply) = apply_pending(s, Some(deadline), true, true, t);
    match reply {
        Ok(_) => reject_generation(s, f, t),
        Err(fault) => reject_generation(
            s.reasoned_by(fault.diagnostic),
            f.kept(fault.message),
            t,
        ),
    }
}

/// The child of a refused pause must still be the pinned one.
#[verifier::opaque]
pub open spec fn reject_generation<B>(s: State<B>, f: Refusal, t: Seq<Event<B>>) -> (
    State<B>,
    Refusal,
) {
    let (s, same) = call_same_generation(s, s.pid, s.generation, t);
    match same {
        Ok(true) => (s, f),
        Ok(false) => (s, f.doubted("owned child generation changed"@)),
        Err(message) => (s, f.doubted(message)),
    }
}

/// The removal of the authorization of a refused pause.
#[verifier::opaque]
pub open spec fn reject_removal<B>(s: State<B>, t: Seq<Event<B>>) -> (State<B>, Refusal) {
    let f = Refusal { retained: None, doubts: Seq::empty() };
    let (s, removed) = remove_and_account(s, t);
    match removed {
        Ok(()) => (s.disarmed(), f),
        Err(fail) => (s.disarmed(), f.doubted(fail_line(fail))),
    }
}

/// The end of a cycle whose request the helper refused.
#[verifier::opaque]
pub open spec fn reject_end<B>(s: State<B>, f: Refusal, t: Seq<Event<B>>) -> (
    State<B>,
    Result<(), PauseFail>,
) {
    let s = s.running().disarmed().unarmable().unbounded();
    if f.doubts.len() > 0 {
        terminal_cleanup(s, f.doubts, false, true, t)
    } else {
        match f.retained {
            Some(message) => finish_nonconfirmed(s.blanked(), message),
            None => finish_nonconfirmed(s.blanked(), MSG_PAUSE_HELPER_REJECTED@),
        }
    }
}

/// A cycle whose request the helper refused.
#[verifier::opaque]
pub open spec fn reject_cycle<B>(s: State<B>, deadline: u64, t: Seq<Event<B>>) -> (
    State<B>,
    Result<(), PauseFail>,
) {
    let s = s.reasoned(PauseDiagnostic::PauseHelperRejected);
    if s.policy == PausePolicy::Always {
        terminal_cleanup(s, seq![MSG_PAUSE_HELPER_REJECTED@], true, false, t)
    } else {
        let (s, f) = reject_removal(s, t);
        let (s, f) = reject_drain(s, f, deadline, TURNS as nat, t);
        let (s, f) = reject_apply(s, f, deadline, t);
        reject_end(s, f, t)
    }
}

/// What stands against a refused request.
pub struct Refused {
    pub retained: Option<String>,
    pub doubts: Vec<String>,
}

impl View for Refused {
    type V = Refusal;

    open spec fn view(&self) -> Refusal {
        Refusal {
            retained: match self.retained {
                Some(message) => Some(message@),
                None => None,
            },
            doubts: texts(self.doubts@),
        }
    }
}

impl Refused {
    fn doubt(&mut self, message: String)
        ensures
            comes_to(old(self)@.doubted(message@), final(self)@),
    {
        push_text(&mut self.doubts, message);
    }

    fn keep(&mut self, message: String)
        ensures
            comes_to(old(self)@.kept(message@), final(self)@),
    {
        if self.retained.is_none() {
            self.retained = Some(message);
        }
    }
}

impl<B> PauseCoordinator<B> {
    /// Forbids further authorizations.
    pub(crate) fn forbid_rearming(&mut self)
        ensures
            comes_to(old(self)@.unarmable(), final(self)@),
    {
        self.rearming_enabled = false;
    }

    /// Notes that the child runs.
    pub(crate) fn note_running(&mut self)
        ensures
            comes_to(old(self)@.running(), final(self)@),
    {
        self.may_be_stopped = false;
    }

    /// Drops the deadlines and the budget of a failure.
    pub(crate) fn drop_bounds(&mut self)
        ensures
            comes_to(old(self)@.unbounded(), final(self)@),
    {
        self.active_deadline = None;
        self.failure_deadline = None;
        self.failure_items = 0;
    }

    /// Drops the epoch.
    pub(crate) fn drop_epoch(&mut self)
        ensures
            comes_to(old(self)@.blanked(), final(self)@),
    {
        self.epoch = PauseEpoch::default();
    }

    /// Counts an attempt that was not confirmed.
    pub(crate) fn count_partial(&mut self)
        ensures
            comes_to(old(self)@.partial(), final(self)@),
    {
        self.counters.partial = self.counters.partial.saturating_add(1);
        self.attempt_open = false;
    }

    /// Ends an attempt that was not confirmed.
    pub fn finish_nonconfirmed(&mut self, message: String) -> (r: Result<(), PauseError>)
        ensures
            final(self).trace@ == old(self).trace@,
            comes_to(
                finish_nonconfirmed(old(self)@, message@),
                (final(self)@, settled(r)),
            ),
    {
        proof {
            reveal(finish_nonconfirmed);
        }
        match self.policy {
            PausePolicy::Auto => {
                self.set_diagnostic(PauseDiagnostic::OtherAutoNonconfirmed);
                self.count_partial();
                self.emit_partial_diagnostic();
                Ok(())
            },
            PausePolicy::Always => {
                let diagnostic = match self.pending_diagnostic {
                    Some(diagnostic) => diagnostic,
                    None => PauseDiagnostic::OtherAutoNonconfirmed,
                };
                Err(PauseError::one(annotate_primary(message, diagnostic), true, false))
            },
            PausePolicy::Never => Ok(()),
        }
    }

    /// Applies every kept record of a failed cycle.
    fn fail_apply<I: PauseIo<B>>(
        &mut self,
        io: &mut I,
        errors: &mut Vec<String>,
        deadline: u64,
    )
        ensures
            extends(final(self).trace@, old(self).trace@),
            tied(old(self).trace@, final(self).trace@, old(io).log(), final(io).log()),
            forall|t: Seq<Event<B>>|
                extends(t, final(self).trace@) ==> comes_to(
                    #[trigger] fail_apply(old(self)@, texts(old(errors)@), deadline, t),
                    (final(self)@, texts(final(errors)@)),
                ),
    {
        proof {
            reveal(fail_apply);
        }
        let owned = self.active_epoch();
        let records = self.take_pending();
        match self.ask_apply(io, records, Some(deadline), true, owned) {
            Ok(_) => {
                self.take_stop_candidate(io);
            },
            Err(error) => {
                self.set_diagnostic_of(error.diagnostic);
                push_text(errors, error.message);
                self.take_stop_candidate(io);
            },
        }
    }

    /// Reads the authorization word of a failed cycle.
    fn fail_word<I: PauseIo<B>>(
        &mut self,
        io: &mut I,
        errors: &mut Vec<String>,
    ) -> (sound: bool)
        ensures
            extends(final(self).trace@, old(self).trace@),
            tied(old(self).trace@, final(self).trace@, old(io).log(), final(io).log()),
            forall|t: Seq<Event<B>>|
                extends(t, final(self).trace@) ==> comes_to(
                    #[trigger] fail_word(old(self)@, texts(old(errors)@), t),
                    (final(self)@, texts(final(errors)@), sound),
                ),
    {
        proof {
            reveal(fail_word);
        }
        match self.ask_authorization(io) {
            Err(message) => {
                push_text(errors, message);
                self.be_wary();
                false
            },
            Ok(word) => match self.classify_authorization(
                word,
                RemovalDisposition::Normal,
                AuthorizationSource::Observation,
            ) {
                Ok(()) => true,
                Err(message) => {
                    push_text(errors, message);
                    false
                },
            },
        }
    }

    /// Removes the authorization of a failed cycle.
    fn fail_removal<I: PauseIo<B>>(
        &mut self,
        io: &mut I,
        errors: &mut Vec<String>,
    ) -> (sound: bool)
        ensures
            extends(final(self).trace@, old(self).trace@),
            tied(old(self).trace@, final(self).trace@, old(io).log(), final(io).log()),
            forall|t: Seq<Event<B>>|
                extends(t, final(self).trace@) ==> comes_to(
                    #[trigger] fail_removal(old(self)@, texts(old(errors)@), t),
                    (final(self)@, texts(final(errors)@), sound),
                ),
    {
        proof {
            reveal(fail_removal);
        }
        match self.remove_and_account(io) {
            Ok(()) => {
                self.disarm();
                self.forbid_rearming();
                true
            },
            Err(error) => {
                push_text(errors, error.render());
                false
            },
        }
    }

    /// Resumes the child of a failed cycle where a resume is owed.
    fn fail_resume<I: PauseIo<B>>(
        &mut self,
        io: &mut I,
        errors: &mut Vec<String>,
    ) -> (sound: bool)
        ensures
            extends(final(self).trace@, old(self).trace@),
            tied(old(self).trace@, final(self).trace@, old(io).log(), final(io).log()),
            forall|t: Seq<Event<B>>|
                extends(t, final(self).trace@) ==> comes_to(
                    #[trigger] fail_resume(old(self)@, texts(old(errors)@), t),
                    (final(self)@, texts(final(errors)@), sound),
                ),
    {
        proof {
            reveal(fail_resume);
        }
        if self.owes_resume() {
            self.note_resuming();
            match self.ask_resume(io) {
                Err(message) => {
                    push_text(errors, message);
                    false
                },
                Ok(()) => {
                    self.note_resumed();
                    self.note_running();
                    true
                },
            }
        } else if self.owes_protective_resume() {
            self.note_protecting();
            match self.ask_resume(io) {
                Err(message) => {
                    push_text(errors, message);
                    false
                },
                Ok(()) => {
                    self.note_running();
                    true
                },
            }
        } else {
            true
        }
    }

    /// Does the work of a failed cycle whose child is not in doubt.
    fn fail_work<I: PauseIo<B>>(&mut self, io: &mut I, message: &String) -> (r: (Vec<String>, bool))
        ensures
            extends(final(self).trace@, old(self).trace@),
            tied(old(self).trace@, final(self).trace@, old(io).log(), final(io).log()),
            forall|t: Seq<Event<B>>|
                extends(t, final(self).trace@) ==> comes_to(
                    #[trigger] fail_work(old(self)@, message@, t),
                    (final(self)@, texts(r.0@), r.1),
                ),
    {
        proof {
            reveal(fail_work);
        }
        let mut errors = one_text(message.clone());
        let deadline: u64 = self.failure_bound(io, &mut errors);
        let malformed = "malformed discovery record during failure cleanup";
        if self.drain(io, &mut errors, deadline, malformed) {
            return (errors, false);
        }
        self.fail_apply(io, &mut errors, deadline);
        if !self.fail_word(io, &mut errors) {
            return (errors, false);
        }
        if !self.fail_removal(io, &mut errors) {
            return (errors, false);
        }
        let sound = self.fail_resume(io, &mut errors);
        (errors, sound)
    }

    /// Ends a failed cycle whose child is not in doubt.
    fn fail_softly<I: PauseIo<B>>(
        &mut self,
        io: &mut I,
        message: String,
    ) -> (r: Result<(), PauseError>)
        ensures
            extends(final(self).trace@, old(self).trace@),
            tied(old(self).trace@, final(self).trace@, old(io).log(), final(io).log()),
            forall|t: Seq<Event<B>>|
                extends(t, final(self).trace@) ==> comes_to(
                    #[trigger] fail_softly(old(self)@, message@, t),
                    (final(self)@, settled(r)),
                ),
    {
        proof {
            reveal(fail_softly);
        }
        let (errors, sound) = self.fail_work(io, &message);
        if sound {
            self.drop_epoch();
            self.drop_bounds();
            self.finish_nonconfirmed(message)
        } else {
            self.terminal_cleanup_with_cause(io, errors, false, true)
        }
    }

    /// Puts the reason of a failed cycle on record.
    fn fail_reasoned(&mut self, message: &str, lifecycle: bool)
        ensures
            final(self).trace@ == old(self).trace@,
            comes_to(fail_reasoned(old(self)@, message@, lifecycle), final(self)@),
    {
        proof {
            reveal(fail_reasoned);
        }
        self.set_message_diagnostic(message);
        if !lifecycle {
            self.set_diagnostic(PauseDiagnostic::OtherAutoNonconfirmed);
        }
        self.forbid_rearming();
    }

    /// Ends a cycle that failed with `message`.
    pub fn fail_cycle<I: PauseIo<B>>(
        &mut self,
        io: &mut I,
        message: String,
        lifecycle: bool,
    ) -> (r: Result<(), PauseError>)
        ensures
            extends(final(self).trace@, old(self).trace@),
            tied(old(self).trace@, final(self).trace@, old(io).log(), final(io).log()),
            forall|t: Seq<Event<B>>|
                extends(t, final(self).trace@) ==> comes_to(
                    #[trigger] fail_cycle(old(self)@, message@, lifecycle, t),
                    (final(self)@, settled(r)),
                ),
    {
        proof {
            reveal(fail_cycle);
        }
        self.fail_reasoned(message.as_str(), lifecycle);
        if lifecycle {
            return self.terminal_cleanup_with_cause(io, one_text(message), false, true);
        }
        if self.policy == PausePolicy::Always {
            return self.terminal_cleanup_with_cause(io, one_text(message), true, false);
        }
        if self.unvalidated_records != 0 {
            return self.terminal_cleanup_with_cause(io, one_text(message), false, false);
        }
        self.fail_softly(io, message)
    }

    /// Waits for further records of a refused pause.
    fn reject_wait<I: PauseIo<B>>(
        &mut self,
        io: &mut I,
        f: &mut Refused,
        deadline: u64,
    ) -> (on: bool)
        ensures
            extends(final(self).trace@, old(self).trace@),
            tied(old(self).trace@, final(self).trace@, old(io).log(), final(io).log()),
            forall|t: Seq<Event<B>>|
                extends(t, final(self).trace@) ==> comes_to(
                    #[trigger] reject_wait(old(self)@, old(f)@, deadline, t),
                    (final(self)@, final(f)@, on),
                ),
    {
        proof {
            reveal(reject_wait);
        }
        match self.ask_now(io) {
            Err(message) => {
                f.doubt(message);
                false
            },
            Ok(now) => if now < deadline {
                match self.ask_wait(io) {
                    Err(message) => {
                        f.doubt(message);
                        false
                    },
                    Ok(()) => true,
                }
            } else {
                false
            },
        }
    }

    /// Takes one turn of a refused pause at the queue.
    fn reject_turn<I: PauseIo<B>>(
        &mut self,
        io: &mut I,
        f: &mut Refused,
        deadline: u64,
    ) -> (on: bool)
        requires
            old(self).failure_items < MAX_FAILURE_ITEMS,
        ensures
            extends(final(self).trace@, old(self).trace@),
            tied(old(self).trace@, final(self).trace@, old(io).log(), final(io).log()),
            forall|t: Seq<Event<B>>|
                extends(t, final(self).trace@) ==> comes_to(
                    #[trigger] reject_turn(old(self)@, old(f)@, deadline, t),
                    (final(self)@, final(f)@, on),
                ),
    {
        proof {
            reveal(reject_turn);
        }
        let ghost before = self@;
        match self.timed_dequeue(io, Some(deadline)) {
            Err(fault) => {
                if fault.lifecycle {
                    f.doubt(fault.message);
                } else {
                    f.keep(fault.message);
                }
                false
            },
            Ok(None) => self.reject_wait(io, f, deadline),
            Ok(Some(timed)) => {
                proof {
                    lemma_dequeue_keeps_budget(before, Some(deadline), self.trace@);
                    assert(comes_to(
                        timed_dequeue(before, Some(deadline), self.trace@).0,
                        self@,
                    ));
                }
                match timed.item {
                    DiscoveryItem::Record(record) => {
                        if !record.is_coalesced_of(self.pid) {
                            f.keep("rejected epoch contained an invalid record".to_owned());
                        }
                        self.drained_one();
                    },
                    DiscoveryItem::Malformed => {
                        f.keep("rejected epoch contained an invalid record".to_owned());
                        self.drained_one();
                    },
                }
                true
            },
        }
    }

    /// Takes the turns of a refused pause at the queue.
    fn reject_drain<I: PauseIo<B>>(&mut self, io: &mut I, f: &mut Refused, deadline: u64)
        ensures
            extends(final(self).trace@, old(self).trace@),
            tied(old(self).trace@, final(self).trace@, old(io).log(), final(io).log()),
            forall|t: Seq<Event<B>>|
                extends(t, final(self).trace@) ==> comes_to(
                    #[trigger] reject_drain(old(self)@, old(f)@, deadline, TURNS as nat, t),
                    (final(self)@, final(f)@),
                ),
    {
        let mut turns: u64 = TURNS;
        while turns > 0 && self.failure_items < MAX_FAILURE_ITEMS
            invariant
                extends(self.trace@, old(self).trace@),
                tied(old(self).trace@, self.trace@, old(io).log(), io.log()),
                forall|t: Seq<Event<B>>|
                    extends(t, self.trace@) ==> comes_to(
                        #[trigger] reject_drain(
                            old(self)@,
                            old(f)@,
                            deadline,
                            TURNS as nat,
                            t,
                        ),
                        reject_drain(self@, f@, deadline, turns as nat, t),
                    ),
            decreases turns,
        {
            reveal(reject_drain);
            if !self.reject_turn(io, f, deadline) {
                return;
            }
            turns -= 1;
        }
        proof {
            reveal(reject_drain);
        }
    }

    /// Checks that the child of a refused pause is still the pinned one.
    fn reject_generation<I: PauseIo<B>>(
        &mut self,
        io: &mut I,
        f: &mut Refused,
    )
        ensures
            extends(final(self).trace@, old(self).trace@),
            tied(old(self).trace@, final(self).trace@, old(io).log(), final(io).log()),
            forall|t: Seq<Event<B>>|
                extends(t, final(self).trace@) ==> comes_to(
                    #[trigger] reject_generation(old(self)@, old(f)@, t),
                    (final(self)@, final(f)@),
                ),
    {
        proof {
            reveal(reject_generation);
        }
        match self.ask_same_generation(io, self.pid, self.generation) {
            Ok(true) => {},
            Ok(false) => f.doubt("owned child generation changed".to_owned()),
            Err(message) => f.doubt(message),
        }
    }

    /// Applies every record of a refused pause.
    fn reject_apply<I: PauseIo<B>>(
        &mut self,
        io: &mut I,
        f: &mut Refused,
        deadline: u64,
    )
        ensures
            extends(final(self).trace@, old(self).trace@),
            tied(old(self).trace@, final(self).trace@, old(io).log(), final(io).log()),
            forall|t: Seq<Event<B>>|
                extends(t, final(self).trace@) ==> comes_to(
                    #[trigger] reject_apply(old(self)@, old(f)@, deadline, t),
                    (final(self)@, final(f)@),
                ),
    {
        proof {
            reveal(reject_apply);
        }
        let records = self.take_pending();
        match self.ask_apply(io, records, Some(deadline), true, true) {
            Ok(_) => self.reject_generation(io, f),
            Err(error) => {
                self.set_diagnostic_of(error.diagnostic);
                f.keep(error.message);
                self.reject_generation(io, f);
            },
        }
    }

    /// Removes the authorization of a refused pause.
    fn reject_removal<I: PauseIo<B>>(
        &mut self,
        io: &mut I,
    ) -> (f: Refused)
        ensures
            extends(final(self).trace@, old(self).trace@),
            tied(old(self).trace@, final(self).trace@, old(io).log(), final(io).log()),
            forall|t: Seq<Event<B>>|
                extends(t, final(self).trace@) ==> comes_to(
                    #[trigger] reject_removal(old(self)@, t),
                    (final(self)@, f@),
                ),
    {
        proof {
            reveal(reject_removal);
        }
        let mut f = Refused { retained: None, doubts: Vec::new() };
        assert(texts(f.doubts@) =~= Seq::<Text>::empty());
        match self.remove_and_account(io) {
            Ok(()) => {
                self.disarm();
            },
            Err(error) => {
                self.disarm();
                f.doubt(error.render());
            },
        }
        f
    }

    /// Ends a cycle whose request the helper refused.
    fn reject_end<I: PauseIo<B>>(
        &mut self,
        io: &mut I,
        f: Refused,
    ) -> (r: Result<(), PauseError>)
        ensures
            extends(final(self).trace@, old(self).trace@),
            tied(old(self).trace@, final(self).trace@, old(io).log(), final(io).log()),
            forall|t: Seq<Event<B>>|
                extends(t, final(self).trace@) ==> comes_to(
                    #[trigger] reject_end(old(self)@, f@, t),
                    (final(self)@, settled(r)),
                ),
    {
        proof {
            reveal(reject_end);
        }
        self.note_running();
        self.disarm();
        self.forbid_rearming();
        self.drop_bounds();
        assert(texts(f.doubts@).len() == f.doubts@.len());
        if f.doubts.len() > 0 {
            return self.terminal_cleanup_with_cause(io, f.doubts, false, true);
        }
        self.drop_epoch();
        match f.retained {
            Some(message) => self.finish_nonconfirmed(message),
            None => self.finish_nonconfirmed(MSG_PAUSE_HELPER_REJECTED.to_owned()),
        }
    }

    /// Ends a cycle whose request the helper refused, with what is still to be taken in.
    pub(crate) fn reject_cycle<I: PauseIo<B>>(
        &mut self,
        io: &mut I,
        deadline: u64,
    ) -> (r: Result<(), PauseError>)
        ensures
            extends(final(self).trace@, old(self).trace@),
            tied(old(self).trace@, final(self).trace@, old(io).log(), final(io).log()),
            forall|t: Seq<Event<B>>|
                extends(t, final(self).trace@) ==> comes_to(
                    #[trigger] reject_cycle(old(self)@, deadline, t),
                    (final(self)@, settled(r)),
                ),
    {
        proof {
            reveal(reject_cycle);
        }
        self.set_diagnostic(PauseDiagnostic::PauseHelperRejected);
        if self.policy == PausePolicy::Always {
            let cause = one_text(MSG_PAUSE_HELPER_REJECTED.to_owned());
            return self.terminal_cleanup_with_cause(io, cause, true, false);
        }
        let mut f = self.reject_removal(io);
        self.reject_drain(io, &mut f, deadline);
        self.reject_apply(io, &mut f, deadline);
        self.reject_end(io, f)
    }
}

} // verus!
