//! The state of a pause coordinator, and the calls that it makes.

use crate::cli::PausePolicy;
use crate::discovery::pause::diagnostic::PauseDiagnostic;
use crate::discovery::pause::io::Event;
use crate::record::DiscoveryRecord;
use crate::text::{texts, Text};
use std::collections::BTreeMap;
use vstd::prelude::*;

verus! {

/// How the attempts of a coordinator ended so far.
#[derive(Clone, Copy, Debug, PartialEq, Eq, Structural)]
pub struct PauseCounters {
    pub attempts: u64,
    pub confirmed: u64,
    pub partial: u64,
}

/// What the counters say of the pause as a whole.
#[derive(Clone, Copy, Debug, PartialEq, Eq, Structural)]
pub enum PauseStatus {
    /// No attempt was made.
    Absent,
    /// Every attempt was confirmed.
    Sigstop,
    /// Some attempt was not confirmed.
    Partial,
}

/// What an attempt to arm came to.
#[derive(Clone, Copy, Debug, PartialEq, Eq, Structural)]
pub enum ArmResult {
    Disabled,
    Armed,
}

/// What is known of the pause request that is under way.
#[derive(Clone, Copy, Debug, PartialEq, Eq, Structural)]
pub struct PauseEpoch {
    pub authorization_consumed: bool,
    pub zero_candidate: bool,
    pub accepted: bool,
    pub rejected: bool,
    pub resume_attempted: bool,
    pub resume_succeeded: bool,
    pub successor_installed: bool,
    pub successor_unresolved: bool,
    pub protective_resume_attempted: bool,
}

/// The epoch of which nothing is known.
pub open spec fn blank_epoch() -> PauseEpoch {
    PauseEpoch {
        authorization_consumed: false,
        zero_candidate: false,
        accepted: false,
        rejected: false,
        resume_attempted: false,
        resume_succeeded: false,
        successor_installed: false,
        successor_unresolved: false,
        protective_resume_attempted: false,
    }
}

impl Default for PauseEpoch {
    fn default() -> (epoch: Self)
        ensures
            epoch == blank_epoch(),
    {
        PauseEpoch {
            authorization_consumed: false,
            zero_candidate: false,
            accepted: false,
            rejected: false,
            resume_attempted: false,
            resume_succeeded: false,
            successor_installed: false,
            successor_unresolved: false,
            protective_resume_attempted: false,
        }
    }
}

/// The coordinator of the pause of one owned child.
pub struct PauseCoordinator<B> {
    pub policy: PausePolicy,
    pub pid: u32,
    pub generation: u64,
    pub expected_tasks: BTreeMap<u32, u8>,
    pub counters: PauseCounters,
    pub epoch: PauseEpoch,
    pub armed: bool,
    /// The clock read just before the exchange that installed the live authorization: a lower
    /// bound on when the kernel could first see it. Without one every record is a candidate.
    pub armed_at_ns: Option<u64>,
    pub rearming_enabled: bool,
    pub may_be_stopped: bool,
    pub attempt_open: bool,
    pub ring_loss_baseline: u64,
    pub active_deadline: Option<u64>,
    pub failure_deadline: Option<u64>,
    pub failure_items: usize,
    pub pending_records: Vec<DiscoveryRecord>,
    pub unvalidated_records: u64,
    pub terminal_batch: Option<B>,
    pub pending_diagnostic: Option<PauseDiagnostic>,
    pub diagnostic_annotated: bool,
    pub cycles: u8,
    pub cleaning: bool,
    pub cleaned: bool,
    /// Report lines that have not been printed yet.
    pub notices: Vec<String>,
    /// Every call made so far, with its reply.
    pub trace: Ghost<Seq<Event<B>>>,
}

/// The mathematical state of a coordinator.
pub struct State<B> {
    pub policy: PausePolicy,
    pub pid: u32,
    pub generation: u64,
    pub expected_tasks: Map<u32, u8>,
    pub counters: PauseCounters,
    pub epoch: PauseEpoch,
    pub armed: bool,
    pub armed_at_ns: Option<u64>,
    pub rearming_enabled: bool,
    pub may_be_stopped: bool,
    pub attempt_open: bool,
    pub ring_loss_baseline: u64,
    pub active_deadline: Option<u64>,
    pub failure_deadline: Option<u64>,
    pub failure_items: usize,
    pub pending_records: Seq<DiscoveryRecord>,
    pub unvalidated_records: u64,
    pub terminal_batch: Option<B>,
    pub pending_diagnostic: Option<PauseDiagnostic>,
    pub diagnostic_annotated: bool,
    pub cycles: u8,
    pub cleaning: bool,
    pub cleaned: bool,
    pub notices: Seq<Text>,
    pub trace: Seq<Event<B>>,
}

impl<B> View for PauseCoordinator<B> {
    type V = State<B>;

    open spec fn view(&self) -> State<B> {
        State {
            policy: self.policy,
            pid: self.pid,
            generation: self.generation,
            expected_tasks: self.expected_tasks@,
            counters: self.counters,
            epoch: self.epoch,
            armed: self.armed,
            armed_at_ns: self.armed_at_ns,
            rearming_enabled: self.rearming_enabled,
            may_be_stopped: self.may_be_stopped,
            attempt_open: self.attempt_open,
            ring_loss_baseline: self.ring_loss_baseline,
            active_deadline: self.active_deadline,
            failure_deadline: self.failure_deadline,
            failure_items: self.failure_items,
            pending_records: self.pending_records@,
            unvalidated_records: self.unvalidated_records,
            terminal_batch: self.terminal_batch,
            pending_diagnostic: self.pending_diagnostic,
            diagnostic_annotated: self.diagnostic_annotated,
            cycles: self.cycles,
            cleaning: self.cleaning,
            cleaned: self.cleaned,
            notices: texts(self.notices@),
            trace: self.trace@,
        }
    }
}

impl<B> State<B> {
    /// The state after one more call.
    pub open spec fn hear(self, event: Event<B>) -> State<B> {
        State { trace: self.trace.push(event), ..self }
    }

    /// The call that the history `t` holds next.
    pub open spec fn due(self, t: Seq<Event<B>>) -> Event<B> {
        t[self.trace.len() as int]
    }
}

} // verus!
