//! One cycle of a pause: from the record of a stop request to a child that is seen to run again.

use crate::discovery::pause::calls::{
    call_arm, call_authorization, call_cancelled, call_marker, call_now, call_resume,
    call_ring_loss, call_wait,
};
use crate::discovery::pause::cleanup::lemma_dequeue_keeps_budget;
use crate::discovery::pause::diagnostic::{
    MSG_COALESCED_RECORD_DEADLINE, MSG_DEADLINE_AFTER_DEQUEUE,
};
use crate::discovery::pause::io::{
    comes_to, extends, group_history, tied, Event, PauseIo, TimedItem,
};
use crate::discovery::pause::rules::{
    causal, clamp_deadline, cycle_deadline, deadline_after, fail_line, saturated, tighter,
    validate_received, PauseError, PauseFail, MAX_FAILURE_ITEMS, SAMPLE_NS,
};
use crate::discovery::pause::state::{
    blank_epoch, PauseCoordinator, PauseCounters, PauseEpoch, State,
};
use crate::discovery::pause::steps::{
    apply_pending, check_ring_loss, doubt, doubted, miss, missed, observe_resumed,
    remove_and_account, sample_stopped, seen, take_stop_candidate, timed_dequeue, Fault, FaultText,
    TURNS,
};
use crate::record::{exact_pid, DiscoveryItem, DiscoveryRecord, COALESCED_NO_HELPER_RC, PAUSE_ARMED};
use crate::text::Text;
use vstd::prelude::*;

verus! {

broadcast use group_history;

/// A fault out of a failure that the policy made.
pub open spec fn fault_of(fail: PauseFail) -> FaultText {
    FaultText { message: fail_line(fail), lifecycle: fail.lifecycle }
}

/// Makes a fault of an error that the policy made.
pub(crate) fn fault_from(error: PauseError) -> (fault: Fault)
    ensures
        fault@ == fault_of(error@),
{
    let message = error.render();
    Fault { message, lifecycle: error.lifecycle }
}

impl<B> State<B> {
    /// The state once both deadlines are as tight as a candidate.
    pub open spec fn bounded(self, candidate: u64) -> State<B> {
        State {
            failure_deadline: Some(tighter(self.failure_deadline, candidate)),
            active_deadline: Some(self.bound(candidate)),
            ..self
        }
    }

    /// The tightest of both deadlines and a candidate.
    pub open spec fn bound(self, candidate: u64) -> u64 {
        tighter(self.active_deadline, tighter(self.failure_deadline, candidate))
    }

    /// The state once the count of taken items starts at one.
    pub open spec fn counting(self) -> State<B> {
        State { failure_items: 1, ..self }
    }

    /// The state once the helper has refused the request.
    pub open spec fn refused(self) -> State<B> {
        State {
            may_be_stopped: false,
            epoch: PauseEpoch { rejected: true, zero_candidate: false, ..self.epoch },
            ..self
        }
    }

    /// The state once the request is known to be accepted.
    pub open spec fn accepted(self) -> State<B> {
        State { epoch: PauseEpoch { accepted: true, ..self.epoch }, ..self }
    }

    /// The state once the child has to be taken for stopped.
    pub open spec fn stopped(self) -> State<B> {
        State { may_be_stopped: true, ..self }
    }

    /// The state once a successor of the authorization was installed.
    pub open spec fn succeeded_by(self, armed_at_ns: Option<u64>) -> State<B> {
        State { armed_at_ns, ..self }
    }

    /// The state once a successor stands whose fate is open.
    pub open spec fn successor_open(self) -> State<B> {
        State {
            epoch: PauseEpoch {
                successor_installed: true,
                successor_unresolved: true,
                ..self.epoch
            },
            ..self
        }
    }

    /// The state once the epoch has passed to a successor.
    pub open spec fn passed_on(self) -> State<B> {
        State {
            epoch: PauseEpoch {
                successor_installed: true,
                successor_unresolved: true,
                resume_attempted: true,
                resume_succeeded: true,
                ..blank_epoch()
            },
            ..self
        }
    }

    /// The state once an attempt is confirmed.
    pub open spec fn confirmed(self) -> State<B> {
        State {
            counters: PauseCounters {
                confirmed: saturated(self.counters.confirmed),
                ..self.counters
            },
            attempt_open: false,
            active_deadline: None,
            failure_deadline: None,
            failure_items: 0,
            cycles: if self.cycles < 255 {
                (self.cycles + 1) as u8
            } else {
                255
            },
            ..self
        }
    }

    /// The state once a confirmed attempt leaves a successor that started at a ring loss of
    /// `baseline`.
    pub open spec fn continued(self, baseline: u64) -> State<B> {
        State { armed: true, ring_loss_baseline: baseline, ..self }
    }

    /// The state once a confirmed attempt leaves no successor.
    pub open spec fn concluded(self) -> State<B> {
        State { armed: false, may_be_stopped: false, epoch: blank_epoch(), ..self }
    }
}

/// The record that won the request of a cycle, the item it came in, and the latest hook time among
/// the records that coalesced into the request before it.
pub struct Winner<B> {
    pub received: TimedItem<B>,
    pub record: DiscoveryRecord,
    pub latest_ns: u64,
}

/// A look at the cancellation flag.
#[verifier::opaque]
pub open spec fn check_cancelled<B>(s: State<B>, t: Seq<Event<B>>) -> (
    State<B>,
    Result<(), FaultText>,
) {
    let (s, cancelled) = call_cancelled(s, t);
    match cancelled {
        Err(message) => (s, Err(doubt(message))),
        Ok(true) => (s, Err(doubt("pause coordination cancelled"@))),
        Ok(false) => (s, Ok(())),
    }
}

/// A wait of one millisecond.
#[verifier::opaque]
pub open spec fn wait_once<B>(s: State<B>, t: Seq<Event<B>>) -> (State<B>, Result<(), FaultText>) {
    let (s, waited) = call_wait(s, t);
    match waited {
        Err(message) => (s, Err(doubt(message))),
        Ok(()) => (s, Ok(())),
    }
}

/// A look at the protected marker, which must not have been seen.
#[verifier::opaque]
pub open spec fn check_marker<B>(s: State<B>, raced: Text, t: Seq<Event<B>>) -> (
    State<B>,
    Result<(), FaultText>,
) {
    let (s, marker) = call_marker(s, t);
    match marker {
        Err(message) => (s, Err(doubt(message))),
        Ok(true) => (s, Err(miss(raced))),
        Ok(false) => (s, Ok(())),
    }
}

/// A dequeue that must find the queue empty.
#[verifier::opaque]
pub open spec fn check_empty<B>(s: State<B>, deadline: u64, found: FaultText, t: Seq<Event<B>>) -> (
    State<B>,
    Result<(), FaultText>,
) {
    let (s, item) = timed_dequeue(s, Some(deadline), t);
    match item {
        Err(fault) => (s, Err(fault)),
        Ok(Some(_)) => (s, Err(found)),
        Ok(None) => (s, Ok(())),
    }
}

/// A snapshot by which the child must be stopped.
#[verifier::opaque]
pub open spec fn check_stopped<B>(s: State<B>, deadline: u64, t: Seq<Event<B>>) -> (
    State<B>,
    Result<u64, FaultText>,
) {
    let (s, sample) = sample_stopped(s, deadline, t);
    match sample {
        Err(message) => (s, Err(miss(message))),
        Ok(now) => (s, Ok(now)),
    }
}

/// A check of the ring loss whose failure is a fault of the pause itself.
#[verifier::opaque]
pub open spec fn check_ring<B>(s: State<B>, t: Seq<Event<B>>) -> (State<B>, Result<(), FaultText>) {
    let (s, r) = check_ring_loss(s, t);
    match r {
        Err(message) => (s, Err(miss(message))),
        Ok(()) => (s, Ok(())),
    }
}

/// A wait until further records come in, up to a deadline.
#[verifier::opaque]
pub open spec fn await_record<B>(s: State<B>, deadline: u64, missing: Text, t: Seq<Event<B>>) -> (
    State<B>,
    Result<(), FaultText>,
) {
    let (s, now) = call_now(s, t);
    match now {
        Err(message) => (s, Err(doubt(message))),
        Ok(now) => if now >= deadline {
            (s, Err(miss(missing)))
        } else {
            wait_once(s, t)
        },
    }
}

/// A record before the winner: `None` where it coalesced into the request as it should.
#[verifier::opaque]
pub open spec fn before_winner<B>(
    s: State<B>,
    next: TimedItem<B>,
    latest_ns: u64,
    deadline: u64,
) -> (State<B>, Result<Option<Winner<B>>, FaultText>) {
    match next.item {
        DiscoveryItem::Malformed => (s, Err(miss("malformed discovery record before winner"@))),
        DiscoveryItem::Record(record) => if record.pid() != s.pid {
            (s, Err(miss("unaccounted discovery record before winner"@)))
        } else if record.send_signal_rc != COALESCED_NO_HELPER_RC {
            (s, Ok(Some(Winner { received: next, record, latest_ns })))
        } else if !record.marked_coalesced() {
            (s.drained_one(), Err(miss("unknown coalesced record status"@)))
        } else {
            match causal(next.before_ns, next.after_ns, record.hook_ts_ns, deadline) {
                Err(message) => (s.drained_one(), Err(miss(message))),
                Ok(()) => (s.drained_one(), Ok(None)),
            }
        },
    }
}

/// The latest hook time after one more record.
pub open spec fn later<B>(next: TimedItem<B>, latest_ns: u64) -> u64 {
    match next.item {
        DiscoveryItem::Record(record) => if record.hook_ts_ns > latest_ns {
            record.hook_ts_ns
        } else {
            latest_ns
        },
        DiscoveryItem::Malformed => latest_ns,
    }
}

/// The search for the winner of a request that a coalesced record has shown, of at most `turns`
/// turns.
#[verifier::opaque]
pub open spec fn seek_winner<B>(
    s: State<B>,
    latest_ns: u64,
    deadline: u64,
    turns: nat,
    t: Seq<Event<B>>,
) -> (State<B>, Result<Winner<B>, FaultText>)
    decreases turns,
{
    if turns == 0 {
        (s, Err(miss("coalesced record had no winner"@)))
    } else if s.failure_items >= MAX_FAILURE_ITEMS {
        (s, Err(miss("coalesced record had no winner within the item budget"@)))
    } else {
        let (s, item) = timed_dequeue(s, Some(deadline), t);
        match item {
            Err(fault) => (s, Err(fault)),
            Ok(None) => {
                let (s, waited) = await_record(s, deadline, "coalesced record had no winner"@, t);
                match waited {
                    Err(fault) => (s, Err(fault)),
                    Ok(()) => seek_winner(s, latest_ns, deadline, (turns - 1) as nat, t),
                }
            },
            Ok(Some(next)) => {
                let (s, found) = before_winner(s, next, latest_ns, deadline);
                match found {
                    Err(fault) => (s, Err(fault)),
                    Ok(Some(winner)) => (s, Ok(winner)),
                    Ok(None) => seek_winner(
                        s,
                        later(next, latest_ns),
                        deadline,
                        (turns - 1) as nat,
                        t,
                    ),
                }
            },
        }
    }
}

/// The search for the winner of a request whose first record coalesced into it.
#[verifier::opaque]
pub open spec fn coalesced_first<B>(
    s: State<B>,
    received: TimedItem<B>,
    first: DiscoveryRecord,
    t: Seq<Event<B>>,
) -> (State<B>, Result<Winner<B>, FaultText>) {
    let s = s.counting();
    if !first.marked_coalesced() {
        (s, Err(miss("unknown coalesced record status"@)))
    } else {
        match deadline_after(first.hook_ts_ns) {
            Err(message) => (s, Err(miss(message))),
            Ok(candidate) => {
                let deadline = s.bound(candidate);
                let s = s.bounded(candidate);
                match causal(
                    received.before_ns,
                    received.after_ns,
                    first.hook_ts_ns,
                    deadline,
                ) {
                    Err(message) => (s, Err(miss(message))),
                    Ok(()) => seek_winner(s, first.hook_ts_ns, deadline, TURNS as nat, t),
                }
            },
        }
    }
}

/// The winner of a request: its first record, unless that coalesced into it.
#[verifier::opaque]
pub open spec fn find_winner<B>(
    s: State<B>,
    received: TimedItem<B>,
    first: DiscoveryRecord,
    t: Seq<Event<B>>,
) -> (State<B>, Result<Winner<B>, FaultText>) {
    if first.send_signal_rc == COALESCED_NO_HELPER_RC {
        coalesced_first(s, received, first, t)
    } else {
        (s, Ok(Winner { received, record: first, latest_ns: 0 }))
    }
}

/// What the winner of a request means.
pub enum Verdict {
    /// The helper refused it: the deadline of what is left to do.
    Refused(u64),
    /// It was accepted: the deadline of the cycle.
    Accepted(u64),
}

/// The deadline of a refused request: one cycle after its hook, or else the deadline that stands.
pub open spec fn refusal_candidate<B>(s: State<B>, record: DiscoveryRecord) -> u64 {
    match deadline_after(record.hook_ts_ns) {
        Ok(deadline) => deadline,
        Err(_) => match s.failure_deadline {
            Some(deadline) => deadline,
            None => u64::MAX,
        },
    }
}

/// The judgement on the winner of a request that was not refused.
#[verifier::opaque]
pub open spec fn judge_taken<B>(s: State<B>, w: Winner<B>) -> (State<B>, Result<u64, FaultText>) {
    match deadline_after(w.record.hook_ts_ns) {
        Err(message) => (s, Err(miss(message))),
        Ok(candidate) => {
            let deadline = s.bound(candidate);
            let s = s.bounded(candidate);
            match causal(
                w.received.before_ns,
                w.received.after_ns,
                w.record.hook_ts_ns,
                deadline,
            ) {
                Err(message) => (s, Err(miss(message))),
                Ok(()) => if w.latest_ns > deadline {
                    (s, Err(miss(MSG_COALESCED_RECORD_DEADLINE@)))
                } else if w.record.send_signal_rc != 0 {
                    (s, Err(miss("winner carried an unknown helper result"@)))
                } else {
                    (s.stopped(), Ok(deadline))
                },
            }
        },
    }
}

/// The judgement on the winner of a request. A record with a zero helper result proves that the
/// request was accepted, even where a later check makes a confirmation impossible.
#[verifier::opaque]
pub open spec fn judge_winner<B>(s: State<B>, w: Winner<B>) -> (
    State<B>,
    Result<Verdict, FaultText>,
) {
    if w.record.send_signal_rc < 0 {
        let s = s.refused();
        let candidate = refusal_candidate(s, w.record);
        (s.bounded(candidate), Ok(Verdict::Refused(s.bound(candidate))))
    } else if w.record.marked_coalesced() {
        (s, Err(miss("winner carried coalesced status"@)))
    } else {
        let s = if w.record.send_signal_rc == 0 {
            s.accepted()
        } else {
            s
        };
        let (s, taken) = judge_taken(s, w);
        match taken {
            Err(fault) => (s, Err(fault)),
            Ok(deadline) => (s, Ok(Verdict::Accepted(deadline))),
        }
    }
}

/// A read of the ring loss, which must not have grown.
#[verifier::opaque]
pub open spec fn ring_intact<B>(s: State<B>, t: Seq<Event<B>>) -> (
    State<B>,
    Result<(), FaultText>,
) {
    let (s, loss) = call_ring_loss(s, t);
    match loss {
        Err(message) => (s, Err(doubt(message))),
        Ok(loss) => if loss > s.ring_loss_baseline {
            (s, Err(miss("discovery ring loss in pause epoch"@)))
        } else {
            (s, Ok(()))
        },
    }
}

/// The confirmation that the child is stopped: two snapshots, at least a millisecond apart.
#[verifier::opaque]
pub open spec fn confirm_stopped<B>(s: State<B>, deadline: u64, t: Seq<Event<B>>) -> (
    State<B>,
    Result<(), FaultText>,
) {
    let (s, first) = check_stopped(s, deadline, t);
    match first {
        Err(fault) => (s, Err(fault)),
        Ok(first) => {
            let (s, waited) = wait_once(s, t);
            match waited {
                Err(fault) => (s, Err(fault)),
                Ok(()) => {
                    let (s, second) = check_stopped(s, deadline, t);
                    match second {
                        Err(fault) => (s, Err(fault)),
                        Ok(second) => if second - first < SAMPLE_NS {
                            (s, Err(miss("stopped snapshots were less than 1 ms apart"@)))
                        } else {
                            check_cancelled(s, t)
                        },
                    }
                },
            }
        },
    }
}

/// Whether an item may follow the winner of a cycle: only a record that coalesced into its
/// request.
pub open spec fn follower<B>(pid: u32, next: TimedItem<B>, deadline: u64) -> Result<(), FaultText> {
    match next.item {
        DiscoveryItem::Malformed => Err(miss("malformed discovery record in causal drain"@)),
        DiscoveryItem::Record(record) => if !record.coalesced_of(pid) {
            Err(miss("duplicate or unaccounted pause record"@))
        } else {
            match causal(next.before_ns, next.after_ns, record.hook_ts_ns, deadline) {
                Err(message) => Err(miss(message)),
                Ok(()) => Ok(()),
            }
        },
    }
}

/// The records that follow the winner of a cycle, of which there are at most `turns`.
#[verifier::opaque]
pub open spec fn causal_drain<B>(s: State<B>, deadline: u64, turns: nat, t: Seq<Event<B>>) -> (
    State<B>,
    Result<(), FaultText>,
)
    decreases turns,
{
    if turns == 0 {
        (s, Err(miss(MSG_DEADLINE_AFTER_DEQUEUE@)))
    } else {
        let (s, item) = timed_dequeue(s, Some(deadline), t);
        match item {
            Err(fault) => (s, Err(fault)),
            Ok(None) => (s, Ok(())),
            Ok(Some(next)) => match follower(s.pid, next, deadline) {
                Err(fault) => (s, Err(fault)),
                Ok(()) => causal_drain(s, deadline, (turns - 1) as nat, t),
            },
        }
    }
}

/// The application of the frozen records: the number of them.
#[verifier::opaque]
pub open spec fn apply_frozen<B>(s: State<B>, deadline: u64, t: Seq<Event<B>>) -> (
    State<B>,
    Result<(), FaultText>,
) {
    let (s, reply) = apply_pending(s, Some(deadline), true, true, t);
    match reply {
        Err(fault) => (
            take_stop_candidate(s.reasoned_by(fault.diagnostic), t),
            Err(miss(fault.message)),
        ),
        Ok(outcome) => {
            let s = s.reasoned_by(outcome.diagnostic);
            if outcome.required_complete {
                (s, Ok(()))
            } else {
                (s, Err(miss("one or more frozen required attachments failed"@)))
            }
        },
    }
}

/// The records of a cycle are frozen and applied, before the marker and with a whole ring: the
/// number of records.
#[verifier::opaque]
pub open spec fn attach_frozen<B>(s: State<B>, deadline: u64, t: Seq<Event<B>>) -> (
    State<B>,
    Result<usize, FaultText>,
) {
    let (s, drained) = causal_drain(s, deadline, TURNS as nat, t);
    match drained {
        Err(fault) => (s, Err(fault)),
        Ok(()) => {
            let (s, ring) = check_ring(s, t);
            match ring {
                Err(fault) => (s, Err(fault)),
                Ok(()) => {
                    let (s, marker) = check_marker(s, "protected marker preceded attachment"@, t);
                    match marker {
                        Err(fault) => (s, Err(fault)),
                        Ok(()) => {
                            let count = s.pending_records.len() as usize;
                            let (s, applied) = apply_frozen(s, deadline, t);
                            match applied {
                                Err(fault) => (s, Err(fault)),
                                Ok(()) => (s, Ok(count)),
                            }
                        },
                    }
                },
            }
        },
    }
}

/// The child is still stopped, the marker unseen and the queue empty.
#[verifier::opaque]
pub open spec fn still_quiet<B>(
    s: State<B>,
    deadline: u64,
    raced: Text,
    found: FaultText,
    t: Seq<Event<B>>,
) -> (State<B>, Result<(), FaultText>) {
    let (s, waited) = wait_once(s, t);
    match waited {
        Err(fault) => (s, Err(fault)),
        Ok(()) => {
            let (s, sample) = check_stopped(s, deadline, t);
            match sample {
                Err(fault) => (s, Err(fault)),
                Ok(_) => {
                    let (s, marker) = check_marker(s, raced, t);
                    match marker {
                        Err(fault) => (s, Err(fault)),
                        Ok(()) => check_empty(s, deadline, found, t),
                    }
                },
            }
        },
    }
}

/// The removal of the consumed authorization.
#[verifier::opaque]
pub open spec fn retire_authorization<B>(s: State<B>, t: Seq<Event<B>>) -> (
    State<B>,
    Result<(), FaultText>,
) {
    let (s, removed) = remove_and_account(s, t);
    match removed {
        Err(fail) => (s, Err(fault_of(fail))),
        Ok(()) => (s, Ok(())),
    }
}

/// The installation of a successor: the ring loss that it starts at.
#[verifier::opaque]
pub open spec fn arm_successor<B>(s: State<B>, t: Seq<Event<B>>) -> (
    State<B>,
    Result<u64, FaultText>,
) {
    let (s, now) = call_now(s, t);
    let (s, armed) = call_arm(s, t);
    match armed {
        Err(message) => (s, Err(doubt(message))),
        Ok(()) => {
            let (s, word) = call_authorization(s, t);
            match word {
                Err(message) => (s, Err(doubt(message))),
                Ok(word) => if word != Some(PAUSE_ARMED) {
                    (s, Err(doubt("successor was consumed before prior resume"@)))
                } else {
                    let armed_at = match now {
                        Ok(now) => Some(now),
                        Err(_) => None,
                    };
                    let (s, loss) = call_ring_loss(s.succeeded_by(armed_at), t);
                    match loss {
                        Err(message) => (s, Err(doubt(message))),
                        Ok(loss) => (s.successor_open(), Ok(loss)),
                    }
                },
            }
        },
    }
}

/// The handover to a successor: the ring loss that it starts at.
#[verifier::opaque]
pub open spec fn install_successor<B>(s: State<B>, deadline: u64, t: Seq<Event<B>>) -> (
    State<B>,
    Result<u64, FaultText>,
) {
    let (s, retired) = retire_authorization(s, t);
    match retired {
        Err(fault) => (s, Err(fault)),
        Ok(()) => {
            let (s, armed) = arm_successor(s, t);
            match armed {
                Err(fault) => (s, Err(fault)),
                Ok(baseline) => {
                    let (s, quiet) = still_quiet(
                        s,
                        deadline,
                        "marker raced successor pre-arm"@,
                        doubt("successor was consumed before prior resume"@),
                        t,
                    );
                    match quiet {
                        Err(fault) => (s, Err(fault)),
                        Ok(()) => (s, Ok(baseline)),
                    }
                },
            }
        },
    }
}

/// The handover of the authorization before the child is resumed: the ring loss at which a
/// successor starts, where one is installed.
#[verifier::opaque]
pub open spec fn hand_over<B>(s: State<B>, deadline: u64, successor: bool, t: Seq<Event<B>>) -> (
    State<B>,
    Result<Option<u64>, FaultText>,
) {
    if successor {
        let (s, installed) = install_successor(s, deadline, t);
        match installed {
            Err(fault) => (s, Err(fault)),
            Ok(baseline) => (s, Ok(Some(baseline))),
        }
    } else {
        let (s, retired) = retire_authorization(s, t);
        match retired {
            Err(fault) => (s, Err(fault)),
            Ok(()) => (s, Ok(None)),
        }
    }
}

/// The resume of the child, until it is seen to run.
#[verifier::opaque]
pub open spec fn resume_child<B>(s: State<B>, deadline: u64, successor: bool, t: Seq<Event<B>>) -> (
    State<B>,
    Result<(), FaultText>,
) {
    let (s, resumed) = call_resume(s.resuming(), t);
    match resumed {
        Err(message) => (s, Err(doubt(message))),
        Ok(()) => {
            let s = if successor {
                s.resumed().passed_on()
            } else {
                s.resumed()
            };
            let (s, observed) = observe_resumed(s, deadline, successor, TURNS as nat, t);
            match observed {
                Err(message) => (s, Err(doubt(message))),
                Ok(()) => (s, Ok(())),
            }
        },
    }
}

/// The release of the child, unless the pause was cancelled or the ring has lost a record.
#[verifier::opaque]
pub open spec fn release<B>(s: State<B>, deadline: u64, successor: bool, t: Seq<Event<B>>) -> (
    State<B>,
    Result<(), FaultText>,
) {
    let (s, cancelled) = check_cancelled(s, t);
    match cancelled {
        Err(fault) => (s, Err(fault)),
        Ok(()) => {
            let (s, ring) = check_ring(s, t);
            match ring {
                Err(fault) => (s, Err(fault)),
                Ok(()) => resume_child(s, deadline, successor, t),
            }
        },
    }
}

/// The first half of an accepted cycle: the child is stopped, and every frozen record is applied
/// while it is. The result is the number of records.
#[verifier::opaque]
pub open spec fn freeze<B>(s: State<B>, deadline: u64, t: Seq<Event<B>>) -> (
    State<B>,
    Result<usize, FaultText>,
) {
    let (s, ring) = ring_intact(s, t);
    match ring {
        Err(fault) => (s, Err(fault)),
        Ok(()) => {
            let (s, stopped) = confirm_stopped(s, deadline, t);
            match stopped {
                Err(fault) => (s, Err(fault)),
                Ok(()) => {
                    let (s, attached) = attach_frozen(s, deadline, t);
                    match attached {
                        Err(fault) => (s, Err(fault)),
                        Ok(count) => {
                            let (s, quiet) = still_quiet(
                                s,
                                deadline,
                                "protected marker raced attachment"@,
                                miss("queue was not empty before resume"@),
                                t,
                            );
                            match quiet {
                                Err(fault) => (s, Err(fault)),
                                Ok(()) => (s, Ok(count)),
                            }
                        },
                    }
                },
            }
        },
    }
}

/// The second half of an accepted cycle of `count` records: the authorization is handed over, the
/// child is released, and the attempt is confirmed.
#[verifier::opaque]
pub open spec fn thaw<B>(s: State<B>, deadline: u64, count: usize, t: Seq<Event<B>>) -> (
    State<B>,
    Result<(), FaultText>,
) {
    let successor = count == 1 && s.cycles == 0 && s.rearming_enabled;
    let (s, handed) = hand_over(s, deadline, successor, t);
    match handed {
        Err(fault) => (s, Err(fault)),
        Ok(baseline) => {
            let (s, released) = release(s, deadline, successor, t);
            match released {
                Err(fault) => (s, Err(fault)),
                Ok(()) => match baseline {
                    Some(baseline) => (s.confirmed().continued(baseline), Ok(())),
                    None => (s.confirmed().concluded(), Ok(())),
                },
            }
        },
    }
}

/// An accepted cycle.
#[verifier::opaque]
pub open spec fn accepted_cycle<B>(s: State<B>, deadline: u64, t: Seq<Event<B>>) -> (
    State<B>,
    Result<(), FaultText>,
) {
    let (s, frozen) = freeze(s, deadline, t);
    match frozen {
        Err(fault) => (s, Err(fault)),
        Ok(count) => thaw(s, deadline, count, t),
    }
}

impl<B> PauseCoordinator<B> {
    /// Tightens both deadlines to a candidate.
    fn bound_both(&mut self, candidate: u64) -> (deadline: u64)
        ensures
            deadline == old(self)@.bound(candidate),
            comes_to(old(self)@.bounded(candidate), final(self)@),
    {
        let failure = clamp_deadline(&mut self.failure_deadline, candidate);
        clamp_deadline(&mut self.active_deadline, failure)
    }

    /// Starts the count of taken items at one.
    fn start_counting(&mut self)
        ensures
            comes_to(old(self)@.counting(), final(self)@),
    {
        self.failure_items = 1;
    }

    /// Notes that the helper refused the request.
    fn note_refused(&mut self)
        ensures
            comes_to(old(self)@.refused(), final(self)@),
    {
        self.epoch.rejected = true;
        self.epoch.zero_candidate = false;
        self.may_be_stopped = false;
    }

    /// Notes that the request was accepted.
    fn note_accepted(&mut self)
        ensures
            comes_to(old(self)@.accepted(), final(self)@),
    {
        self.epoch.accepted = true;
    }

    /// Takes the child for stopped.
    pub(crate) fn note_stopped(&mut self)
        ensures
            comes_to(old(self)@.stopped(), final(self)@),
    {
        self.may_be_stopped = true;
    }

    /// Notes when a successor was installed.
    fn note_succeeded(&mut self, armed_at_ns: Option<u64>)
        ensures
            comes_to(old(self)@.succeeded_by(armed_at_ns), final(self)@),
    {
        self.armed_at_ns = armed_at_ns;
    }

    /// Notes that the fate of a successor is open.
    fn note_successor(&mut self)
        ensures
            comes_to(old(self)@.successor_open(), final(self)@),
    {
        self.epoch.successor_installed = true;
        self.epoch.successor_unresolved = true;
    }

    /// Passes the epoch on to a successor.
    fn pass_on(&mut self)
        ensures
            comes_to(old(self)@.passed_on(), final(self)@),
    {
        self.epoch = PauseEpoch {
            successor_installed: true,
            successor_unresolved: true,
            resume_attempted: true,
            resume_succeeded: true,
            ..PauseEpoch::default()
        };
    }

    /// Counts a confirmed attempt.
    fn count_confirmed(&mut self)
        ensures
            comes_to(old(self)@.confirmed(), final(self)@),
    {
        self.counters.confirmed = self.counters.confirmed.saturating_add(1);
        self.attempt_open = false;
        self.active_deadline = None;
        self.failure_deadline = None;
        self.failure_items = 0;
        self.cycles = self.cycles.saturating_add(1);
    }

    /// Goes on with a successor.
    fn go_on(&mut self, baseline: u64)
        ensures
            comes_to(old(self)@.continued(baseline), final(self)@),
    {
        self.armed = true;
        self.ring_loss_baseline = baseline;
    }

    /// Ends the epoch of a confirmed attempt.
    fn conclude(&mut self)
        ensures
            comes_to(old(self)@.concluded(), final(self)@),
    {
        self.armed = false;
        self.may_be_stopped = false;
        self.epoch = PauseEpoch::default();
    }

    /// Checks that the pause was not cancelled.
    pub(crate) fn check_cancelled<I: PauseIo<B>>(
        &mut self,
        io: &mut I,
    ) -> (r: Result<(), Fault>)
        ensures
            extends(final(self).trace@, old(self).trace@),
            tied(old(self).trace@, final(self).trace@, old(io).log(), final(io).log()),
            forall|t: Seq<Event<B>>|
                extends(t, final(self).trace@) ==> comes_to(
                    #[trigger] check_cancelled(old(self)@, t),
                    (final(self)@, seen(r)),
                ),
    {
        proof {
            reveal(check_cancelled);
        }
        match self.ask_cancelled(io) {
            Err(message) => Err(doubted(message)),
            Ok(true) => Err(doubted("pause coordination cancelled".to_owned())),
            Ok(false) => Ok(()),
        }
    }

    /// Waits one millisecond.
    fn wait_once<I: PauseIo<B>>(
        &mut self,
        io: &mut I,
    ) -> (r: Result<(), Fault>)
        ensures
            extends(final(self).trace@, old(self).trace@),
            tied(old(self).trace@, final(self).trace@, old(io).log(), final(io).log()),
            forall|t: Seq<Event<B>>|
                extends(t, final(self).trace@) ==> comes_to(
                    #[trigger] wait_once(old(self)@, t),
                    (final(self)@, seen(r)),
                ),
    {
        proof {
            reveal(wait_once);
        }
        match self.ask_wait(io) {
            Err(message) => Err(doubted(message)),
            Ok(()) => Ok(()),
        }
    }

    /// Checks that the protected marker was not seen.
    fn check_marker<I: PauseIo<B>>(
        &mut self,
        io: &mut I,
        raced: &str,
    ) -> (r: Result<(), Fault>)
        ensures
            extends(final(self).trace@, old(self).trace@),
            tied(old(self).trace@, final(self).trace@, old(io).log(), final(io).log()),
            forall|t: Seq<Event<B>>|
                extends(t, final(self).trace@) ==> comes_to(
                    #[trigger] check_marker(old(self)@, raced@, t),
                    (final(self)@, seen(r)),
                ),
    {
        proof {
            reveal(check_marker);
        }
        match self.ask_marker(io) {
            Err(message) => Err(doubted(message)),
            Ok(true) => Err(missed(raced.to_owned())),
            Ok(false) => Ok(()),
        }
    }

    /// Checks that the queue is empty.
    fn check_empty<I: PauseIo<B>>(
        &mut self,
        io: &mut I,
        deadline: u64,
        found: Fault,
    ) -> (r: Result<(), Fault>)
        ensures
            extends(final(self).trace@, old(self).trace@),
            tied(old(self).trace@, final(self).trace@, old(io).log(), final(io).log()),
            forall|t: Seq<Event<B>>|
                extends(t, final(self).trace@) ==> comes_to(
                    #[trigger] check_empty(old(self)@, deadline, found@, t),
                    (final(self)@, seen(r)),
                ),
    {
        proof {
            reveal(check_empty);
        }
        match self.timed_dequeue(io, Some(deadline)) {
            Err(fault) => Err(fault),
            Ok(Some(_)) => Err(found),
            Ok(None) => Ok(()),
        }
    }

    /// Checks that the child is stopped.
    fn check_stopped<I: PauseIo<B>>(
        &mut self,
        io: &mut I,
        deadline: u64,
    ) -> (r: Result<u64, Fault>)
        ensures
            extends(final(self).trace@, old(self).trace@),
            tied(old(self).trace@, final(self).trace@, old(io).log(), final(io).log()),
            forall|t: Seq<Event<B>>|
                extends(t, final(self).trace@) ==> comes_to(
                    #[trigger] check_stopped(old(self)@, deadline, t),
                    (final(self)@, seen(r)),
                ),
    {
        proof {
            reveal(check_stopped);
        }
        match self.sample_stopped(io, deadline) {
            Err(message) => Err(missed(message)),
            Ok(now) => Ok(now),
        }
    }

    /// Checks that the ring has lost nothing.
    pub(crate) fn check_ring<I: PauseIo<B>>(
        &mut self,
        io: &mut I,
    ) -> (r: Result<(), Fault>)
        ensures
            extends(final(self).trace@, old(self).trace@),
            tied(old(self).trace@, final(self).trace@, old(io).log(), final(io).log()),
            forall|t: Seq<Event<B>>|
                extends(t, final(self).trace@) ==> comes_to(
                    #[trigger] check_ring(old(self)@, t),
                    (final(self)@, seen(r)),
                ),
    {
        proof {
            reveal(check_ring);
        }
        match self.check_ring_loss(io) {
            Err(message) => Err(missed(message)),
            Ok(()) => Ok(()),
        }
    }

    /// Waits until further records come in.
    pub(crate) fn await_record<I: PauseIo<B>>(
        &mut self,
        io: &mut I,
        deadline: u64,
        missing: &str,
    ) -> (r: Result<(), Fault>)
        ensures
            extends(final(self).trace@, old(self).trace@),
            tied(old(self).trace@, final(self).trace@, old(io).log(), final(io).log()),
            forall|t: Seq<Event<B>>|
                extends(t, final(self).trace@) ==> comes_to(
                    #[trigger] await_record(old(self)@, deadline, missing@, t),
                    (final(self)@, seen(r)),
                ),
    {
        proof {
            reveal(await_record);
        }
        match self.ask_now(io) {
            Err(message) => Err(doubted(message)),
            Ok(now) => if now >= deadline {
                Err(missed(missing.to_owned()))
            } else {
                self.wait_once(io)
            },
        }
    }

    /// Looks at a record before the winner.
    fn before_winner(&mut self, next: TimedItem<B>, latest_ns: u64, deadline: u64) -> (r: Result<
        Option<Winner<B>>,
        Fault,
    >)
        requires
            old(self).failure_items < MAX_FAILURE_ITEMS,
        ensures
            final(self).trace@ == old(self).trace@,
            comes_to(
                before_winner(old(self)@, next, latest_ns, deadline),
                (final(self)@, seen(r)),
            ),
    {
        proof {
            reveal(before_winner);
        }
        match next.item {
            DiscoveryItem::Malformed => Err(
                missed("malformed discovery record before winner".to_owned()),
            ),
            DiscoveryItem::Record(record) => {
                if exact_pid(&record) != self.pid {
                    return Err(missed("unaccounted discovery record before winner".to_owned()));
                }
                if record.send_signal_rc != COALESCED_NO_HELPER_RC {
                    return Ok(Some(Winner { received: next, record, latest_ns }));
                }
                self.drained_one();
                if !record.is_marked_coalesced() {
                    return Err(missed("unknown coalesced record status".to_owned()));
                }
                match validate_received(&next, record.hook_ts_ns, deadline) {
                    Err(message) => Err(missed(message)),
                    Ok(()) => Ok(None),
                }
            },
        }
    }

    /// Searches for the winner of a request that a coalesced record has shown.
    fn seek_winner<I: PauseIo<B>>(&mut self, io: &mut I, latest_ns: u64, deadline: u64) -> (r:
        Result<Winner<B>, Fault>)
        ensures
            extends(final(self).trace@, old(self).trace@),
            tied(old(self).trace@, final(self).trace@, old(io).log(), final(io).log()),
            forall|t: Seq<Event<B>>|
                extends(t, final(self).trace@) ==> comes_to(
                    #[trigger] seek_winner(old(self)@, latest_ns, deadline, TURNS as nat, t),
                    (final(self)@, seen(r)),
                ),
    {
        let mut turns: u64 = TURNS;
        let mut latest: u64 = latest_ns;
        while turns > 0
            invariant
                extends(self.trace@, old(self).trace@),
                tied(old(self).trace@, self.trace@, old(io).log(), io.log()),
                forall|t: Seq<Event<B>>|
                    extends(t, self.trace@) ==> comes_to(
                        #[trigger] seek_winner(
                            old(self)@,
                            latest_ns,
                            deadline,
                            TURNS as nat,
                            t,
                        ),
                        seek_winner(self@, latest, deadline, turns as nat, t),
                    ),
            decreases turns,
        {
            reveal(seek_winner);
            if self.failure_items >= MAX_FAILURE_ITEMS {
                return Err(
                    missed("coalesced record had no winner within the item budget".to_owned()),
                );
            }
            let ghost before = self@;
            match self.timed_dequeue(io, Some(deadline)) {
                Err(fault) => return Err(fault),
                Ok(None) => match self.await_record(io, deadline, "coalesced record had no winner")
                {
                    Err(fault) => return Err(fault),
                    Ok(()) => {},
                },
                Ok(Some(next)) => {
                    proof {
                        lemma_dequeue_keeps_budget(before, Some(deadline), self.trace@);
                        assert(comes_to(
                            timed_dequeue(before, Some(deadline), self.trace@).0,
                            self@,
                        ));
                    }
                    let newest: u64 = match next.item {
                        DiscoveryItem::Record(record) => if record.hook_ts_ns > latest {
                            record.hook_ts_ns
                        } else {
                            latest
                        },
                        DiscoveryItem::Malformed => latest,
                    };
                    match self.before_winner(next, latest, deadline) {
                        Err(fault) => return Err(fault),
                        Ok(Some(winner)) => return Ok(winner),
                        Ok(None) => latest = newest,
                    }
                },
            }
            turns -= 1;
        }
        proof {
            reveal(seek_winner);
        }
        Err(missed("coalesced record had no winner".to_owned()))
    }

    /// Searches for the winner of a request whose first record coalesced into it.
    fn coalesced_first<I: PauseIo<B>>(
        &mut self,
        io: &mut I,
        received: TimedItem<B>,
        first: DiscoveryRecord,
    ) -> (r: Result<Winner<B>, Fault>)
        ensures
            extends(final(self).trace@, old(self).trace@),
            tied(old(self).trace@, final(self).trace@, old(io).log(), final(io).log()),
            forall|t: Seq<Event<B>>|
                extends(t, final(self).trace@) ==> comes_to(
                    #[trigger] coalesced_first(old(self)@, received, first, t),
                    (final(self)@, seen(r)),
                ),
    {
        proof {
            reveal(coalesced_first);
        }
        self.start_counting();
        if !first.is_marked_coalesced() {
            return Err(missed("unknown coalesced record status".to_owned()));
        }
        let candidate: u64 = match cycle_deadline(first.hook_ts_ns) {
            Err(message) => return Err(missed(message)),
            Ok(deadline) => deadline,
        };
        let deadline: u64 = self.bound_both(candidate);
        if let Err(message) = validate_received(&received, first.hook_ts_ns, deadline) {
            return Err(missed(message));
        }
        self.seek_winner(io, first.hook_ts_ns, deadline)
    }

    /// Finds the winner of a request.
    pub(crate) fn find_winner<I: PauseIo<B>>(
        &mut self,
        io: &mut I,
        received: TimedItem<B>,
        first: DiscoveryRecord,
    ) -> (r: Result<Winner<B>, Fault>)
        ensures
            extends(final(self).trace@, old(self).trace@),
            tied(old(self).trace@, final(self).trace@, old(io).log(), final(io).log()),
            forall|t: Seq<Event<B>>|
                extends(t, final(self).trace@) ==> comes_to(
                    #[trigger] find_winner(old(self)@, received, first, t),
                    (final(self)@, seen(r)),
                ),
    {
        proof {
            reveal(find_winner);
        }
        if first.send_signal_rc == COALESCED_NO_HELPER_RC {
            self.coalesced_first(io, received, first)
        } else {
            Ok(Winner { received, record: first, latest_ns: 0 })
        }
    }

    /// Judges the winner of a request that was not refused.
    fn judge_taken(&mut self, w: Winner<B>) -> (r: Result<u64, Fault>)
        ensures
            final(self).trace@ == old(self).trace@,
            comes_to(judge_taken(old(self)@, w), (final(self)@, seen(r))),
    {
        proof {
            reveal(judge_taken);
        }
        let candidate: u64 = match cycle_deadline(w.record.hook_ts_ns) {
            Err(message) => return Err(missed(message)),
            Ok(deadline) => deadline,
        };
        let deadline: u64 = self.bound_both(candidate);
        if let Err(message) = validate_received(&w.received, w.record.hook_ts_ns, deadline) {
            return Err(missed(message));
        }
        if w.latest_ns > deadline {
            return Err(missed(MSG_COALESCED_RECORD_DEADLINE.to_owned()));
        }
        if w.record.send_signal_rc != 0 {
            return Err(missed("winner carried an unknown helper result".to_owned()));
        }
        self.note_stopped();
        Ok(deadline)
    }

    /// Judges the winner of a request.
    pub(crate) fn judge_winner(&mut self, w: Winner<B>) -> (r: Result<Verdict, Fault>)
        ensures
            final(self).trace@ == old(self).trace@,
            comes_to(judge_winner(old(self)@, w), (final(self)@, seen(r))),
    {
        proof {
            reveal(judge_winner);
        }
        if w.record.send_signal_rc < 0 {
            self.note_refused();
            let candidate: u64 = match cycle_deadline(w.record.hook_ts_ns) {
                Ok(deadline) => deadline,
                Err(_) => match self.failure_deadline {
                    Some(deadline) => deadline,
                    None => u64::MAX,
                },
            };
            return Ok(Verdict::Refused(self.bound_both(candidate)));
        }
        if w.record.is_marked_coalesced() {
            return Err(missed("winner carried coalesced status".to_owned()));
        }
        if w.record.send_signal_rc == 0 {
            self.note_accepted();
        }
        match self.judge_taken(w) {
            Err(fault) => Err(fault),
            Ok(deadline) => Ok(Verdict::Accepted(deadline)),
        }
    }

    /// Checks that the ring is whole.
    fn ring_intact<I: PauseIo<B>>(
        &mut self,
        io: &mut I,
    ) -> (r: Result<(), Fault>)
        ensures
            extends(final(self).trace@, old(self).trace@),
            tied(old(self).trace@, final(self).trace@, old(io).log(), final(io).log()),
            forall|t: Seq<Event<B>>|
                extends(t, final(self).trace@) ==> comes_to(
                    #[trigger] ring_intact(old(self)@, t),
                    (final(self)@, seen(r)),
                ),
    {
        proof {
            reveal(ring_intact);
        }
        match self.ask_ring_loss(io) {
            Err(message) => Err(doubted(message)),
            Ok(loss) => if loss > self.ring_loss_baseline {
                Err(missed("discovery ring loss in pause epoch".to_owned()))
            } else {
                Ok(())
            },
        }
    }

    /// Confirms that the child is stopped.
    fn confirm_stopped<I: PauseIo<B>>(
        &mut self,
        io: &mut I,
        deadline: u64,
    ) -> (r: Result<(), Fault>)
        ensures
            extends(final(self).trace@, old(self).trace@),
            tied(old(self).trace@, final(self).trace@, old(io).log(), final(io).log()),
            forall|t: Seq<Event<B>>|
                extends(t, final(self).trace@) ==> comes_to(
                    #[trigger] confirm_stopped(old(self)@, deadline, t),
                    (final(self)@, seen(r)),
                ),
    {
        proof {
            reveal(confirm_stopped);
        }
        let first: u64 = match self.check_stopped(io, deadline) {
            Err(fault) => return Err(fault),
            Ok(now) => now,
        };
        if let Err(fault) = self.wait_once(io) {
            return Err(fault);
        }
        let second: u64 = match self.check_stopped(io, deadline) {
            Err(fault) => return Err(fault),
            Ok(now) => now,
        };
        if second < first || second - first < SAMPLE_NS {
            return Err(missed("stopped snapshots were less than 1 ms apart".to_owned()));
        }
        self.check_cancelled(io)
    }

    /// Looks at a record that follows the winner.
    fn check_follower(&self, next: &TimedItem<B>, deadline: u64) -> (r: Result<(), Fault>)
        ensures
            seen(r) == follower(self.pid, *next, deadline),
    {
        match next.item {
            DiscoveryItem::Malformed => Err(
                missed("malformed discovery record in causal drain".to_owned()),
            ),
            DiscoveryItem::Record(record) => {
                if !record.is_coalesced_of(self.pid) {
                    return Err(missed("duplicate or unaccounted pause record".to_owned()));
                }
                match validate_received(next, record.hook_ts_ns, deadline) {
                    Err(message) => Err(missed(message)),
                    Ok(()) => Ok(()),
                }
            },
        }
    }

    /// Takes in the records that follow the winner of a cycle.
    fn causal_drain<I: PauseIo<B>>(&mut self, io: &mut I, deadline: u64) -> (r: Result<(), Fault>)
        ensures
            extends(final(self).trace@, old(self).trace@),
            tied(old(self).trace@, final(self).trace@, old(io).log(), final(io).log()),
            forall|t: Seq<Event<B>>|
                extends(t, final(self).trace@) ==> comes_to(
                    #[trigger] causal_drain(old(self)@, deadline, TURNS as nat, t),
                    (final(self)@, seen(r)),
                ),
    {
        let mut turns: u64 = TURNS;
        while turns > 0
            invariant
                extends(self.trace@, old(self).trace@),
                tied(old(self).trace@, self.trace@, old(io).log(), io.log()),
                forall|t: Seq<Event<B>>|
                    extends(t, self.trace@) ==> comes_to(
                        #[trigger] causal_drain(old(self)@, deadline, TURNS as nat, t),
                        causal_drain(self@, deadline, turns as nat, t),
                    ),
            decreases turns,
        {
            reveal(causal_drain);
            match self.timed_dequeue(io, Some(deadline)) {
                Err(fault) => return Err(fault),
                Ok(None) => return Ok(()),
                Ok(Some(next)) => match self.check_follower(&next, deadline) {
                    Err(fault) => return Err(fault),
                    Ok(()) => {},
                },
            }
            turns -= 1;
        }
        proof {
            reveal(causal_drain);
        }
        Err(missed(MSG_DEADLINE_AFTER_DEQUEUE.to_owned()))
    }

    /// Applies the frozen records.
    fn apply_frozen<I: PauseIo<B>>(
        &mut self,
        io: &mut I,
        deadline: u64,
    ) -> (r: Result<(), Fault>)
        ensures
            extends(final(self).trace@, old(self).trace@),
            tied(old(self).trace@, final(self).trace@, old(io).log(), final(io).log()),
            forall|t: Seq<Event<B>>|
                extends(t, final(self).trace@) ==> comes_to(
                    #[trigger] apply_frozen(old(self)@, deadline, t),
                    (final(self)@, seen(r)),
                ),
    {
        proof {
            reveal(apply_frozen);
        }
        let records = self.take_pending();
        match self.ask_apply(io, records, Some(deadline), true, true) {
            Err(error) => {
                self.set_diagnostic_of(error.diagnostic);
                self.take_stop_candidate(io);
                Err(missed(error.message))
            },
            Ok(outcome) => {
                self.set_diagnostic_of(outcome.diagnostic);
                if outcome.required_complete {
                    Ok(())
                } else {
                    Err(missed("one or more frozen required attachments failed".to_owned()))
                }
            },
        }
    }

    /// Freezes the records of a cycle and applies them.
    fn attach_frozen<I: PauseIo<B>>(
        &mut self,
        io: &mut I,
        deadline: u64,
    ) -> (r: Result<usize, Fault>)
        ensures
            extends(final(self).trace@, old(self).trace@),
            tied(old(self).trace@, final(self).trace@, old(io).log(), final(io).log()),
            forall|t: Seq<Event<B>>|
                extends(t, final(self).trace@) ==> comes_to(
                    #[trigger] attach_frozen(old(self)@, deadline, t),
                    (final(self)@, seen(r)),
                ),
    {
        proof {
            reveal(attach_frozen);
        }
        if let Err(fault) = self.causal_drain(io, deadline) {
            return Err(fault);
        }
        if let Err(fault) = self.check_ring(io) {
            return Err(fault);
        }
        if let Err(fault) = self.check_marker(io, "protected marker preceded attachment") {
            return Err(fault);
        }
        let count: usize = self.pending_records.len();
        match self.apply_frozen(io, deadline) {
            Err(fault) => Err(fault),
            Ok(()) => Ok(count),
        }
    }

    /// Checks that the child is still stopped, the marker unseen and the queue empty.
    fn still_quiet<I: PauseIo<B>>(
        &mut self,
        io: &mut I,
        deadline: u64,
        raced: &str,
        found: Fault,
    ) -> (r: Result<(), Fault>)
        ensures
            extends(final(self).trace@, old(self).trace@),
            tied(old(self).trace@, final(self).trace@, old(io).log(), final(io).log()),
            forall|t: Seq<Event<B>>|
                extends(t, final(self).trace@) ==> comes_to(
                    #[trigger] still_quiet(old(self)@, deadline, raced@, found@, t),
                    (final(self)@, seen(r)),
                ),
    {
        proof {
            reveal(still_quiet);
        }
        if let Err(fault) = self.wait_once(io) {
            return Err(fault);
        }
        if let Err(fault) = self.check_stopped(io, deadline) {
            return Err(fault);
        }
        if let Err(fault) = self.check_marker(io, raced) {
            return Err(fault);
        }
        self.check_empty(io, deadline, found)
    }

    /// Removes the consumed authorization.
    fn retire_authorization<I: PauseIo<B>>(
        &mut self,
        io: &mut I,
    ) -> (r: Result<(), Fault>)
        ensures
            extends(final(self).trace@, old(self).trace@),
            tied(old(self).trace@, final(self).trace@, old(io).log(), final(io).log()),
            forall|t: Seq<Event<B>>|
                extends(t, final(self).trace@) ==> comes_to(
                    #[trigger] retire_authorization(old(self)@, t),
                    (final(self)@, seen(r)),
                ),
    {
        proof {
            reveal(retire_authorization);
        }
        match self.remove_and_account(io) {
            Err(error) => Err(fault_from(error)),
            Ok(()) => Ok(()),
        }
    }

    /// Installs a successor.
    fn arm_successor<I: PauseIo<B>>(
        &mut self,
        io: &mut I,
    ) -> (r: Result<u64, Fault>)
        ensures
            extends(final(self).trace@, old(self).trace@),
            tied(old(self).trace@, final(self).trace@, old(io).log(), final(io).log()),
            forall|t: Seq<Event<B>>|
                extends(t, final(self).trace@) ==> comes_to(
                    #[trigger] arm_successor(old(self)@, t),
                    (final(self)@, seen(r)),
                ),
    {
        proof {
            reveal(arm_successor);
        }
        let now = self.ask_now(io);
        if let Err(message) = self.ask_arm(io) {
            return Err(doubted(message));
        }
        let word = match self.ask_authorization(io) {
            Err(message) => return Err(doubted(message)),
            Ok(word) => word,
        };
        if word != Some(PAUSE_ARMED) {
            return Err(doubted("successor was consumed before prior resume".to_owned()));
        }
        let armed_at = match now {
            Ok(now) => Some(now),
            Err(_) => None,
        };
        self.note_succeeded(armed_at);
        match self.ask_ring_loss(io) {
            Err(message) => Err(doubted(message)),
            Ok(loss) => {
                self.note_successor();
                Ok(loss)
            },
        }
    }

    /// Hands over to a successor.
    fn install_successor<I: PauseIo<B>>(
        &mut self,
        io: &mut I,
        deadline: u64,
    ) -> (r: Result<u64, Fault>)
        ensures
            extends(final(self).trace@, old(self).trace@),
            tied(old(self).trace@, final(self).trace@, old(io).log(), final(io).log()),
            forall|t: Seq<Event<B>>|
                extends(t, final(self).trace@) ==> comes_to(
                    #[trigger] install_successor(old(self)@, deadline, t),
                    (final(self)@, seen(r)),
                ),
    {
        proof {
            reveal(install_successor);
        }
        if let Err(fault) = self.retire_authorization(io) {
            return Err(fault);
        }
        let baseline: u64 = match self.arm_successor(io) {
            Err(fault) => return Err(fault),
            Ok(baseline) => baseline,
        };
        let found = doubted("successor was consumed before prior resume".to_owned());
        match self.still_quiet(io, deadline, "marker raced successor pre-arm", found) {
            Err(fault) => Err(fault),
            Ok(()) => Ok(baseline),
        }
    }

    /// Hands over the authorization before the child is resumed.
    fn hand_over<I: PauseIo<B>>(
        &mut self,
        io: &mut I,
        deadline: u64,
        successor: bool,
    ) -> (r: Result<Option<u64>, Fault>)
        ensures
            extends(final(self).trace@, old(self).trace@),
            tied(old(self).trace@, final(self).trace@, old(io).log(), final(io).log()),
            forall|t: Seq<Event<B>>|
                extends(t, final(self).trace@) ==> comes_to(
                    #[trigger] hand_over(old(self)@, deadline, successor, t),
                    (final(self)@, seen(r)),
                ),
    {
        proof {
            reveal(hand_over);
        }
        if successor {
            match self.install_successor(io, deadline) {
                Err(fault) => Err(fault),
                Ok(baseline) => Ok(Some(baseline)),
            }
        } else {
            match self.retire_authorization(io) {
                Err(fault) => Err(fault),
                Ok(()) => Ok(None),
            }
        }
    }

    /// Resumes the child and waits until it is seen to run.
    fn resume_child<I: PauseIo<B>>(
        &mut self,
        io: &mut I,
        deadline: u64,
        successor: bool,
    ) -> (r: Result<(), Fault>)
        ensures
            extends(final(self).trace@, old(self).trace@),
            tied(old(self).trace@, final(self).trace@, old(io).log(), final(io).log()),
            forall|t: Seq<Event<B>>|
                extends(t, final(self).trace@) ==> comes_to(
                    #[trigger] resume_child(old(self)@, deadline, successor, t),
                    (final(self)@, seen(r)),
                ),
    {
        proof {
            reveal(resume_child);
        }
        self.note_resuming();
        if let Err(message) = self.ask_resume(io) {
            return Err(doubted(message));
        }
        self.note_resumed();
        if successor {
            self.pass_on();
        }
        match self.observe_resumed(io, deadline, successor) {
            Err(message) => Err(doubted(message)),
            Ok(()) => Ok(()),
        }
    }

    /// Releases the child.
    fn release<I: PauseIo<B>>(
        &mut self,
        io: &mut I,
        deadline: u64,
        successor: bool,
    ) -> (r: Result<(), Fault>)
        ensures
            extends(final(self).trace@, old(self).trace@),
            tied(old(self).trace@, final(self).trace@, old(io).log(), final(io).log()),
            forall|t: Seq<Event<B>>|
                extends(t, final(self).trace@) ==> comes_to(
                    #[trigger] release(old(self)@, deadline, successor, t),
                    (final(self)@, seen(r)),
                ),
    {
        proof {
            reveal(release);
        }
        if let Err(fault) = self.check_cancelled(io) {
            return Err(fault);
        }
        if let Err(fault) = self.check_ring(io) {
            return Err(fault);
        }
        self.resume_child(io, deadline, successor)
    }

    /// Stops the child and applies every frozen record.
    fn freeze<I: PauseIo<B>>(
        &mut self,
        io: &mut I,
        deadline: u64,
    ) -> (r: Result<usize, Fault>)
        ensures
            extends(final(self).trace@, old(self).trace@),
            tied(old(self).trace@, final(self).trace@, old(io).log(), final(io).log()),
            forall|t: Seq<Event<B>>|
                extends(t, final(self).trace@) ==> comes_to(
                    #[trigger] freeze(old(self)@, deadline, t),
                    (final(self)@, seen(r)),
                ),
    {
        proof {
            reveal(freeze);
        }
        if let Err(fault) = self.ring_intact(io) {
            return Err(fault);
        }
        if let Err(fault) = self.confirm_stopped(io, deadline) {
            return Err(fault);
        }
        let count: usize = match self.attach_frozen(io, deadline) {
            Err(fault) => return Err(fault),
            Ok(count) => count,
        };
        let found = missed("queue was not empty before resume".to_owned());
        match self.still_quiet(io, deadline, "protected marker raced attachment", found) {
            Err(fault) => Err(fault),
            Ok(()) => Ok(count),
        }
    }

    /// Hands over the authorization, releases the child and confirms the attempt.
    fn thaw<I: PauseIo<B>>(
        &mut self,
        io: &mut I,
        deadline: u64,
        count: usize,
    ) -> (r: Result<(), Fault>)
        ensures
            extends(final(self).trace@, old(self).trace@),
            tied(old(self).trace@, final(self).trace@, old(io).log(), final(io).log()),
            forall|t: Seq<Event<B>>|
                extends(t, final(self).trace@) ==> comes_to(
                    #[trigger] thaw(old(self)@, deadline, count, t),
                    (final(self)@, seen(r)),
                ),
    {
        proof {
            reveal(thaw);
        }
        let successor = count == 1 && self.cycles == 0 && self.rearming_enabled;
        let baseline = match self.hand_over(io, deadline, successor) {
            Err(fault) => return Err(fault),
            Ok(baseline) => baseline,
        };
        if let Err(fault) = self.release(io, deadline, successor) {
            return Err(fault);
        }
        self.count_confirmed();
        match baseline {
            Some(baseline) => self.go_on(baseline),
            None => self.conclude(),
        }
        Ok(())
    }

    /// Runs an accepted cycle.
    pub(crate) fn accepted_cycle<I: PauseIo<B>>(
        &mut self,
        io: &mut I,
        deadline: u64,
    ) -> (r: Result<(), Fault>)
        ensures
            extends(final(self).trace@, old(self).trace@),
            tied(old(self).trace@, final(self).trace@, old(io).log(), final(io).log()),
            forall|t: Seq<Event<B>>|
                extends(t, final(self).trace@) ==> comes_to(
                    #[trigger] accepted_cycle(old(self)@, deadline, t),
                    (final(self)@, seen(r)),
                ),
    {
        proof {
            reveal(accepted_cycle);
        }
        match self.freeze(io, deadline) {
            Err(fault) => Err(fault),
            Ok(count) => self.thaw(io, deadline, count),
        }
    }
}

} // verus!
