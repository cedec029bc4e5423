//! The rules of a pause coordinator that need no call: what an authorization word means, what is
//! owed to a child that may be stopped, how attempts are counted and how failures are reported.

use crate::cli::PausePolicy;
use crate::discovery::pause::diagnostic::{
    diagnostic_for_message, diagnostic_line, message_diagnostic, render_pause_diagnostic,
    token_text, PauseDiagnostic, MSG_PAUSE_CAUSAL_DEADLINE,
};
use crate::discovery::pause::io::{comes_to, TimedItem};
use crate::discovery::pause::state::{
    PauseCoordinator, PauseCounters, PauseEpoch, PauseStatus, State,
};
use crate::record::{DiscoveryRecord, PAUSE_ARMED, PAUSE_REQUESTED};
use crate::text::{heard, join, joined, one_text, push_text, replace, replaced, texts, Text};
use vstd::prelude::*;
use vstd::string::*;

verus! {

/// How long one pause may take.
pub const CYCLE_NS: u64 = 500_000_000;

/// How far apart two snapshots of a stopped child are.
pub const SAMPLE_NS: u64 = 1_000_000;

/// How many items a failing pause may still take from the queue.
pub const MAX_FAILURE_ITEMS: usize = 128;

impl PauseCounters {
    /// Counters that have counted nothing.
    pub fn zero() -> (counters: Self)
        ensures
            counters == (PauseCounters { attempts: 0, confirmed: 0, partial: 0 }),
    {
        PauseCounters { attempts: 0, confirmed: 0, partial: 0 }
    }

    /// The counters of `attempts` attempts that were all confirmed.
    pub fn confirmed(attempts: u64) -> (counters: Self)
        ensures
            counters == (PauseCounters { attempts, confirmed: attempts, partial: 0 }),
    {
        PauseCounters { attempts, confirmed: attempts, partial: 0 }
    }

    /// The counters of `attempts` attempts of which none was confirmed.
    pub fn partial(attempts: u64) -> (counters: Self)
        ensures
            counters == (PauseCounters { attempts, confirmed: 0, partial: attempts }),
    {
        PauseCounters { attempts, confirmed: 0, partial: attempts }
    }

    /// The status that the counters stand for.
    pub open spec fn status_of(self) -> PauseStatus {
        if self.attempts == 0 {
            PauseStatus::Absent
        } else if self.partial == 0 {
            PauseStatus::Sigstop
        } else {
            PauseStatus::Partial
        }
    }

    /// Reads the status that the counters stand for.
    pub fn status(self) -> (status: PauseStatus)
        ensures
            status == self.status_of(),
    {
        if self.attempts == 0 {
            PauseStatus::Absent
        } else if self.partial == 0 {
            PauseStatus::Sigstop
        } else {
            PauseStatus::Partial
        }
    }

    /// Whether every attempt has ended one way or the other.
    pub open spec fn balanced(self) -> bool {
        let ended = self.confirmed + self.partial;
        self.attempts == if ended > u64::MAX {
            u64::MAX as int
        } else {
            ended
        }
    }

    /// Tells whether every attempt has ended one way or the other.
    pub fn valid(self) -> (r: bool)
        ensures
            r == self.balanced(),
    {
        self.confirmed.saturating_add(self.partial) == self.attempts
    }
}

/// Why a pause failed: every message, whether the policy requires the pause, and whether the life
/// of the child or of its authorization is in doubt.
#[derive(Debug)]
pub struct PauseError {
    pub messages: Vec<String>,
    pub required: bool,
    pub lifecycle: bool,
}

/// A pause error, seen by the characters of its messages.
pub struct PauseFail {
    pub messages: Seq<Text>,
    pub required: bool,
    pub lifecycle: bool,
}

impl View for PauseError {
    type V = PauseFail;

    open spec fn view(&self) -> PauseFail {
        PauseFail {
            messages: texts(self.messages@),
            required: self.required,
            lifecycle: self.lifecycle,
        }
    }
}

/// A result, seen by the characters of its messages.
pub open spec fn settled<T>(result: Result<T, PauseError>) -> Result<T, PauseFail> {
    match result {
        Ok(value) => Ok(value),
        Err(error) => Err(error@),
    }
}

/// The failure with one message.
pub open spec fn one_fail(message: Text, required: bool, lifecycle: bool) -> PauseFail {
    PauseFail { messages: seq![message], required, lifecycle }
}

/// The failure that a policy makes of a message.
pub open spec fn policy_fail(policy: PausePolicy, message: Text, lifecycle: bool) -> PauseFail {
    one_fail(message, policy == PausePolicy::Always, lifecycle)
}

impl PauseError {
    /// An error with one message.
    pub fn one(message: String, required: bool, lifecycle: bool) -> (error: Self)
        ensures
            error@ == one_fail(message@, required, lifecycle),
    {
        Self { messages: one_text(message), required, lifecycle }
    }

    /// An error with every message of a list.
    pub fn many(messages: Vec<String>, required: bool, lifecycle: bool) -> (error: Self)
        ensures
            error@ == (PauseFail { messages: texts(messages@), required, lifecycle }),
    {
        Self { messages, required, lifecycle }
    }

    /// Whether the policy requires the pause.
    pub fn required(&self) -> (r: bool)
        ensures
            r == self.required,
    {
        self.required
    }

    /// Whether the life of the child or of its authorization is in doubt.
    pub fn lifecycle(&self) -> (r: bool)
        ensures
            r == self.lifecycle,
    {
        self.lifecycle
    }

    /// The messages as one line.
    pub fn render(&self) -> (line: String)
        ensures
            line@ == fail_line(self@),
    {
        join(&self.messages, "; ")
    }
}

/// The messages of a failure as one line.
pub open spec fn fail_line(fail: PauseFail) -> Text {
    joined(fail.messages, "; "@)
}

/// The error that a policy makes of a message.
pub fn policy_error(policy: PausePolicy, message: String, lifecycle: bool) -> (error: PauseError)
    ensures
        error@ == policy_fail(policy, message@, lifecycle),
{
    PauseError::one(message, policy == PausePolicy::Always, lifecycle)
}

/// A primary message with its reason. A reason that the message seems to carry already is escaped.
pub open spec fn annotated(message: Text, diagnostic: PauseDiagnostic) -> Text {
    replaced(message, "pause_diag="@, "pause_diag_escaped="@) + " [pause_diag="@ + token_text(
        diagnostic,
    ) + "]"@
}

/// Adds the reason to a primary message.
pub fn annotate_primary(message: String, diagnostic: PauseDiagnostic) -> (r: String)
    ensures
        r@ == annotated(message@, diagnostic),
{
    proof {
        reveal_strlit("pause_diag=");
    }
    let mut line = replace(message.as_str(), "pause_diag=", "pause_diag_escaped=");
    line.append(" [pause_diag=");
    line.append(diagnostic.token());
    line.append("]");
    line
}

/// The tighter of a deadline, where there is one, and a candidate.
pub open spec fn tighter(slot: Option<u64>, candidate: u64) -> u64 {
    match slot {
        Some(existing) => if existing < candidate {
            existing
        } else {
            candidate
        },
        None => candidate,
    }
}

/// Tightens a deadline to a candidate.
pub fn clamp_deadline(slot: &mut Option<u64>, candidate: u64) -> (deadline: u64)
    ensures
        deadline == tighter(*old(slot), candidate),
        *final(slot) == Some(deadline),
{
    let deadline: u64 = match *slot {
        Some(existing) => if existing < candidate {
            existing
        } else {
            candidate
        },
        None => candidate,
    };
    *slot = Some(deadline);
    deadline
}

/// One cycle after a hook, where the clock can hold it.
pub open spec fn deadline_after(hook_ns: u64) -> Result<u64, Text> {
    if hook_ns + CYCLE_NS <= u64::MAX {
        Ok((hook_ns + CYCLE_NS) as u64)
    } else {
        Err("pause deadline overflow"@)
    }
}

/// Computes the deadline of a hook.
pub fn cycle_deadline(hook_ns: u64) -> (deadline: Result<u64, String>)
    ensures
        heard(deadline) == deadline_after(hook_ns),
{
    match hook_ns.checked_add(CYCLE_NS) {
        Some(deadline) => Ok(deadline),
        None => Err("pause deadline overflow".to_owned()),
    }
}

/// One cycle after a moment, or the end of the clock.
pub open spec fn bounded_cycle(now: u64) -> u64 {
    if now + CYCLE_NS <= u64::MAX {
        (now + CYCLE_NS) as u64
    } else {
        u64::MAX
    }
}

/// Computes one cycle after a moment, or the end of the clock.
pub fn cycle_after(now: u64) -> (deadline: u64)
    ensures
        deadline == bounded_cycle(now),
{
    match now.checked_add(CYCLE_NS) {
        Some(deadline) => deadline,
        None => u64::MAX,
    }
}

/// Whether an item that was dequeued between two clocks can belong to a cycle that ends at
/// `deadline`, and otherwise why not.
pub open spec fn causal(
    before_ns: u64,
    after_ns: u64,
    record_ns: u64,
    deadline: u64,
) -> Result<(), Text> {
    if after_ns < before_ns {
        Err("monotonic dequeue clocks were reversed"@)
    } else if before_ns > deadline || after_ns > deadline || record_ns > deadline {
        Err(MSG_PAUSE_CAUSAL_DEADLINE@)
    } else if record_ns > after_ns {
        Err("pause record timestamp is in the future"@)
    } else {
        Ok(())
    }
}

/// Checks that a dequeued item can belong to a cycle that ends at `deadline`.
pub fn validate_received<B>(
    received: &TimedItem<B>,
    record_ns: u64,
    deadline: u64,
) -> (r: Result<(), String>)
    ensures
        heard(r) == causal(
            received.before_ns,
            received.after_ns,
            record_ns,
            deadline,
        ),
{
    if received.after_ns < received.before_ns {
        return Err("monotonic dequeue clocks were reversed".to_owned());
    }
    if received.before_ns > deadline || received.after_ns > deadline || record_ns > deadline {
        return Err(MSG_PAUSE_CAUSAL_DEADLINE.to_owned());
    }
    if record_ns > received.after_ns {
        return Err("pause record timestamp is in the future".to_owned());
    }
    Ok(())
}

/// What a removal of the authorization means for the child.
#[derive(Clone, Copy, Debug, PartialEq, Eq, Structural)]
pub enum RemovalDisposition {
    Normal,
    Rejected,
}

/// Where an authorization word was read.
#[derive(Clone, Copy, Debug, PartialEq, Eq, Structural)]
pub enum AuthorizationSource {
    Observation,
    Removal,
}

/// `a + b`, or the largest count.
pub open spec fn saturated(count: u64) -> u64 {
    if count < u64::MAX {
        (count + 1) as u64
    } else {
        u64::MAX
    }
}

impl<B> State<B> {
    /// Whether the epoch proves that an authorization was consumed.
    pub open spec fn authorization_debt(self) -> bool {
        self.epoch.debt()
    }

    /// Whether a successor stands whose fate is not known, after a resume that succeeded.
    pub open spec fn successor_debt(self) -> bool {
        self.epoch.successor_debt()
    }

    /// Whether the epoch proves that a resume may be owed.
    pub open spec fn resume_debt(self) -> bool {
        self.authorization_debt() || self.successor_debt()
    }

    /// Whether this coordinator owns what the queue holds.
    pub open spec fn active(self) -> bool {
        self.policy != PausePolicy::Never && (self.armed || self.resume_debt())
    }

    /// Whether a record is older than the live authorization, so that it cannot have won it.
    pub open spec fn predates(self, record: DiscoveryRecord) -> bool {
        self.armed && (self.armed_at_ns matches Some(armed_at) && record.hook_ts_ns < armed_at)
    }

    /// Whether a resume is owed to a child whose stop request was accepted.
    pub open spec fn owes_resume(self) -> bool {
        self.epoch.accepted && self.may_be_stopped && !self.epoch.resume_attempted
    }

    /// Whether a resume is owed to a child of which it is not known that it was stopped.
    pub open spec fn owes_protective_resume(self) -> bool {
        !self.epoch.accepted && !self.epoch.rejected && self.may_be_stopped && (
        self.epoch.authorization_consumed || self.epoch.zero_candidate || self.successor_debt())
            && !self.epoch.protective_resume_attempted
    }

    /// The state once an attempt is open.
    pub open spec fn attempting(self) -> State<B> {
        if self.attempt_open {
            self
        } else {
            State {
                pending_diagnostic: None,
                diagnostic_annotated: false,
                counters: PauseCounters {
                    attempts: saturated(self.counters.attempts),
                    ..self.counters
                },
                attempt_open: true,
                ..self
            }
        }
    }

    /// The state once a reason is on record: the first one stays.
    pub open spec fn reasoned(self, diagnostic: PauseDiagnostic) -> State<B> {
        if self.pending_diagnostic is Some {
            self
        } else {
            State { pending_diagnostic: Some(diagnostic), ..self }
        }
    }

    /// The state once the reason that something gave, where it gave one, is on record.
    pub open spec fn reasoned_by(self, diagnostic: Option<PauseDiagnostic>) -> State<B> {
        match diagnostic {
            Some(diagnostic) => self.reasoned(diagnostic),
            None => self,
        }
    }

    /// The reason to report: the one on record, or the general one.
    pub open spec fn reason(self) -> PauseDiagnostic {
        match self.pending_diagnostic {
            Some(diagnostic) => diagnostic,
            None => PauseDiagnostic::OtherAutoNonconfirmed,
        }
    }

    /// The state once a partial pause is reported.
    pub open spec fn noticed(self) -> State<B> {
        State {
            pending_diagnostic: None,
            notices: self.notices.push(diagnostic_line(self.reason())),
            ..self
        }
    }

    /// The state and the messages once a required primary message carries its reason.
    #[verifier::opaque]
    pub open spec fn annotating(self, errors: Seq<Text>, required: bool) -> (
        State<B>,
        Seq<Text>,
    ) {
        if required && errors.len() > 0 && !self.diagnostic_annotated {
            (
                State { diagnostic_annotated: true, ..self },
                errors.update(0, annotated(errors[0], self.reason())),
            )
        } else {
            (self, errors)
        }
    }

    /// The state once the debt to a resumed child is settled.
    pub open spec fn debt_settled(self) -> State<B> {
        State {
            may_be_stopped: false,
            epoch: PauseEpoch {
                authorization_consumed: false,
                zero_candidate: false,
                accepted: false,
                successor_unresolved: false,
                ..self.epoch
            },
            ..self
        }
    }

    /// How a removal of the authorization is to be read.
    pub open spec fn disposition(self) -> RemovalDisposition {
        if self.epoch.rejected {
            RemovalDisposition::Rejected
        } else {
            RemovalDisposition::Normal
        }
    }

    /// What an authorization word says of the epoch.
    pub open spec fn classified(
        self,
        word: Option<u64>,
        disposition: RemovalDisposition,
        source: AuthorizationSource,
    ) -> (State<B>, Result<(), Text>) {
        match word {
            Some(value) => if value == PAUSE_REQUESTED {
                (self.classified_requested(disposition), Ok(()))
            } else if value == PAUSE_ARMED {
                self.classified_armed(source)
            } else {
                (self, Err("unknown pause authorization state"@))
            },
            None => self.classified_absent(),
        }
    }

    /// What a requested authorization word says of the epoch. Where the request was refused, only
    /// a successor can still have stopped the child.
    #[verifier::opaque]
    pub open spec fn classified_requested(self, disposition: RemovalDisposition) -> State<B> {
        if disposition == RemovalDisposition::Rejected {
            State {
                may_be_stopped: self.epoch.successor(),
                epoch: PauseEpoch { authorization_consumed: false, ..self.epoch },
                ..self
            }
        } else {
            State { may_be_stopped: true, epoch: self.epoch.consumed(), ..self }.attempting()
        }
    }

    /// What an absent authorization word says of the epoch: it contradicts every debt and every
    /// live authorization.
    #[verifier::opaque]
    pub open spec fn classified_absent(self) -> (State<B>, Result<(), Text>) {
        if self.resume_debt() {
            (
                State { may_be_stopped: true, ..self },
                Err("pause authorization disappeared after consumed pause debt"@),
            )
        } else if self.policy != PausePolicy::Never && self.armed {
            (self, Err("active pause authorization was absent"@))
        } else {
            (State { may_be_stopped: false, epoch: self.epoch.released(false), ..self }, Ok(()))
        }
    }

    /// What an armed authorization word says of the epoch. It refutes a bare zero candidate, and
    /// it contradicts a consumed authorization unless a successor was installed.
    #[verifier::opaque]
    pub open spec fn classified_armed(self, source: AuthorizationSource) -> (
        State<B>,
        Result<(), Text>,
    ) {
        let successor = self.epoch.successor();
        let epoch = self.epoch.refuted();
        let prior = epoch.debt();
        if prior && !successor {
            (
                State { epoch, ..self },
                Err("ARMED authorization followed consumed pause debt"@),
            )
        } else if source == AuthorizationSource::Removal {
            let epoch = if successor {
                PauseEpoch { successor_unresolved: false, ..epoch }
            } else {
                epoch
            };
            (State { may_be_stopped: prior, epoch: epoch.released(prior), ..self }, Ok(()))
        } else {
            let stopped = prior || epoch.successor_debt();
            (State { may_be_stopped: stopped, epoch: epoch.released(stopped), ..self }, Ok(()))
        }
    }
}

impl PauseEpoch {
    /// Whether the epoch proves that an authorization was consumed.
    pub open spec fn debt(self) -> bool {
        self.authorization_consumed || self.accepted || self.zero_candidate
    }

    /// Whether a successor stands whose fate is not known.
    pub open spec fn successor(self) -> bool {
        self.successor_installed && self.successor_unresolved
    }

    /// Whether a successor stands whose fate is not known, after a resume that succeeded.
    pub open spec fn successor_debt(self) -> bool {
        self.successor_installed && self.successor_unresolved && self.resume_succeeded
    }

    /// The epoch without a zero candidate that nothing else supports.
    #[verifier::opaque]
    pub open spec fn refuted(self) -> PauseEpoch {
        if self.zero_candidate && !self.authorization_consumed && !self.accepted {
            PauseEpoch { zero_candidate: false, ..self }
        } else {
            self
        }
    }

    /// The epoch once its authorization is known to be consumed.
    #[verifier::opaque]
    pub open spec fn consumed(self) -> PauseEpoch {
        if self.successor_installed {
            PauseEpoch { authorization_consumed: true, successor_unresolved: true, ..self }
        } else {
            PauseEpoch { authorization_consumed: true, ..self }
        }
    }

    /// The epoch once it is known whether the child may be stopped.
    #[verifier::opaque]
    pub open spec fn released(self, stopped: bool) -> PauseEpoch {
        if stopped {
            self
        } else {
            PauseEpoch { successor_unresolved: false, authorization_consumed: false, ..self }
        }
    }

    fn consume(self) -> (epoch: PauseEpoch)
        ensures
            epoch == self.consumed(),
    {
        proof {
            reveal(PauseEpoch::consumed);
        }
        if self.successor_installed {
            PauseEpoch { authorization_consumed: true, successor_unresolved: true, ..self }
        } else {
            PauseEpoch { authorization_consumed: true, ..self }
        }
    }

    fn refute(self) -> (epoch: PauseEpoch)
        ensures
            epoch == self.refuted(),
    {
        proof {
            reveal(PauseEpoch::refuted);
        }
        if self.zero_candidate && !self.authorization_consumed && !self.accepted {
            PauseEpoch { zero_candidate: false, ..self }
        } else {
            self
        }
    }

    fn release(self, stopped: bool) -> (epoch: PauseEpoch)
        ensures
            epoch == self.released(stopped),
    {
        proof {
            reveal(PauseEpoch::released);
        }
        if stopped {
            self
        } else {
            PauseEpoch { successor_unresolved: false, authorization_consumed: false, ..self }
        }
    }
}

impl<B> PauseCoordinator<B> {
    pub(crate) fn has_proven_authorization_debt(&self) -> (r: bool)
        ensures
            r == self@.authorization_debt(),
    {
        self.epoch.authorization_consumed || self.epoch.accepted || self.epoch.zero_candidate
    }

    pub(crate) fn has_proven_resume_debt(&self) -> (r: bool)
        ensures
            r == self@.resume_debt(),
    {
        self.has_proven_authorization_debt() || (self.epoch.successor_installed
            && self.epoch.successor_unresolved && self.epoch.resume_succeeded)
    }

    pub(crate) fn active_epoch(&self) -> (r: bool)
        ensures
            r == self@.active(),
    {
        self.policy != PausePolicy::Never && (self.armed || self.has_proven_resume_debt())
    }

    pub(crate) fn predates_arm(&self, record: &DiscoveryRecord) -> (r: bool)
        ensures
            r == self@.predates(*record),
    {
        self.armed && match self.armed_at_ns {
            Some(armed_at) => record.hook_ts_ns < armed_at,
            None => false,
        }
    }

    pub(crate) fn owes_resume(&self) -> (r: bool)
        ensures
            r == self@.owes_resume(),
    {
        self.epoch.accepted && self.may_be_stopped && !self.epoch.resume_attempted
    }

    pub(crate) fn owes_protective_resume(&self) -> (r: bool)
        ensures
            r == self@.owes_protective_resume(),
    {
        !self.epoch.accepted && !self.epoch.rejected && self.may_be_stopped && (
        self.epoch.authorization_consumed || self.epoch.zero_candidate || (
        self.epoch.successor_installed && self.epoch.successor_unresolved
            && self.epoch.resume_succeeded)) && !self.epoch.protective_resume_attempted
    }

    /// Opens an attempt, where none is open.
    pub fn begin_attempt(&mut self)
        ensures
            comes_to(old(self)@.attempting(), final(self)@),
    {
        if !self.attempt_open {
            self.pending_diagnostic = None;
            self.diagnostic_annotated = false;
            self.counters.attempts = self.counters.attempts.saturating_add(1);
            self.attempt_open = true;
        }
    }

    /// Puts a reason on record: the first one stays.
    pub fn set_diagnostic(&mut self, diagnostic: PauseDiagnostic)
        ensures
            comes_to(old(self)@.reasoned(diagnostic), final(self)@),
    {
        if self.pending_diagnostic.is_none() {
            self.pending_diagnostic = Some(diagnostic);
        }
    }

    pub(crate) fn set_diagnostic_of(&mut self, diagnostic: Option<PauseDiagnostic>)
        ensures
            comes_to(old(self)@.reasoned_by(diagnostic), final(self)@),
    {
        if let Some(diagnostic) = diagnostic {
            self.set_diagnostic(diagnostic);
        }
    }

    pub(crate) fn set_message_diagnostic(&mut self, message: &str)
        ensures
            comes_to(old(self)@.reasoned_by(message_diagnostic(message@)), final(self)@),
    {
        self.set_diagnostic_of(diagnostic_for_message(message));
    }

    /// Reports a partial pause.
    pub fn emit_partial_diagnostic(&mut self)
        ensures
            comes_to(old(self)@.noticed(), final(self)@),
    {
        let diagnostic = match self.pending_diagnostic {
            Some(diagnostic) => diagnostic,
            None => PauseDiagnostic::OtherAutoNonconfirmed,
        };
        self.pending_diagnostic = None;
        push_text(&mut self.notices, render_pause_diagnostic(diagnostic));
    }

    pub(crate) fn annotate_required_primary(&mut self, errors: &mut Vec<String>, required: bool)
        ensures
            comes_to(
                old(self)@.annotating(texts(old(errors)@), required),
                (final(self)@, texts(final(errors)@)),
            ),
            final(errors)@.len() == old(errors)@.len(),
            final(self).trace@ == old(self).trace@,
    {
        proof {
            reveal(State::annotating);
        }
        if required && errors.len() > 0 && !self.diagnostic_annotated {
            let diagnostic = match self.pending_diagnostic {
                Some(diagnostic) => diagnostic,
                None => PauseDiagnostic::OtherAutoNonconfirmed,
            };
            let primary = annotate_primary(errors[0].clone(), diagnostic);
            errors.set(0, primary);
            self.diagnostic_annotated = true;
            assert(texts(errors@) =~= texts(old(errors)@).update(0, primary@));
        }
    }

    pub(crate) fn settle_cleanup_resume_debt(&mut self)
        ensures
            comes_to(old(self)@.debt_settled(), final(self)@),
    {
        self.may_be_stopped = false;
        self.epoch.authorization_consumed = false;
        self.epoch.zero_candidate = false;
        self.epoch.accepted = false;
        self.epoch.successor_unresolved = false;
    }

    pub(crate) fn removal_disposition(&self) -> (r: RemovalDisposition)
        ensures
            r == self@.disposition(),
    {
        if self.epoch.rejected {
            RemovalDisposition::Rejected
        } else {
            RemovalDisposition::Normal
        }
    }

    /// Reads a requested authorization word.
    fn classify_requested(&mut self, disposition: RemovalDisposition)
        ensures
            comes_to(old(self)@.classified_requested(disposition), final(self)@),
            final(self).trace@ == old(self).trace@,
    {
        proof {
            reveal(State::classified_requested);
        }
        let epoch = self.epoch;
        if disposition == RemovalDisposition::Rejected {
            self.epoch = PauseEpoch { authorization_consumed: false, ..epoch };
            self.may_be_stopped = epoch.successor_installed && epoch.successor_unresolved;
        } else {
            self.epoch = epoch.consume();
            self.may_be_stopped = true;
            self.begin_attempt();
        }
    }

    /// Reads an absent authorization word.
    fn classify_absent(&mut self) -> (r: Result<(), String>)
        ensures
            comes_to(old(self)@.classified_absent(), (final(self)@, heard(r))),
            final(self).trace@ == old(self).trace@,
    {
        proof {
            reveal(State::classified_absent);
        }
        if self.has_proven_resume_debt() {
            self.may_be_stopped = true;
            return Err("pause authorization disappeared after consumed pause debt".to_owned());
        }
        if self.policy != PausePolicy::Never && self.armed {
            return Err("active pause authorization was absent".to_owned());
        }
        self.epoch = self.epoch.release(false);
        self.may_be_stopped = false;
        Ok(())
    }

    /// Reads an armed authorization word.
    fn classify_armed(&mut self, source: AuthorizationSource) -> (r: Result<(), String>)
        ensures
            comes_to(old(self)@.classified_armed(source), (final(self)@, heard(r))),
            final(self).trace@ == old(self).trace@,
    {
        proof {
            reveal(State::classified_armed);
        }
        let successor = self.epoch.successor_installed && self.epoch.successor_unresolved;
        let epoch = self.epoch.refute();
        let prior = epoch.authorization_consumed || epoch.accepted || epoch.zero_candidate;
        if prior && !successor {
            self.epoch = epoch;
            return Err("ARMED authorization followed consumed pause debt".to_owned());
        }
        if source == AuthorizationSource::Removal {
            let epoch = if successor {
                PauseEpoch { successor_unresolved: false, ..epoch }
            } else {
                epoch
            };
            self.may_be_stopped = prior;
            self.epoch = epoch.release(prior);
        } else {
            let stopped = prior || (epoch.successor_installed && epoch.successor_unresolved
                && epoch.resume_succeeded);
            self.may_be_stopped = stopped;
            self.epoch = epoch.release(stopped);
        }
        Ok(())
    }

    /// Reads an authorization word.
    pub(crate) fn classify_authorization(
        &mut self,
        state: Option<u64>,
        disposition: RemovalDisposition,
        source: AuthorizationSource,
    ) -> (r: Result<(), String>)
        ensures
            comes_to(old(self)@.classified(state, disposition, source), (final(self)@, heard(r))),
            final(self).trace@ == old(self).trace@,
    {
        match state {
            Some(value) => {
                if value == PAUSE_REQUESTED {
                    self.classify_requested(disposition);
                    Ok(())
                } else if value == PAUSE_ARMED {
                    self.classify_armed(source)
                } else {
                    Err("unknown pause authorization state".to_owned())
                }
            },
            None => self.classify_absent(),
        }
    }
}

} // verus!
