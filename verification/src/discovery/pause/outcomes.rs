//! What the decisions of the pause come to: a child that is released, a resume that is owed, an
//! attempt that fails, an authorization that is installed, and a cleanup that ends.

use crate::cli::PausePolicy;
use crate::discovery::pause::calls::call_apply;
use crate::discovery::pause::cleanup::{
    cleanup_applied, cleanup_batch, cleanup_closed, cleanup_open, cleanup_records, cleanup_resume,
    cleanup_unvalidated, relinquish, unresolved,
};
use crate::discovery::pause::cycle::{
    arm_successor, check_cancelled, check_empty, check_marker, check_ring, check_stopped,
    hand_over, install_successor, later, release, resume_child, retire_authorization, still_quiet,
    thaw, wait_once,
};
use crate::discovery::pause::diagnostic::{diagnostic_line, message_diagnostic, PauseDiagnostic};
use crate::discovery::pause::failure::{fail_apply, fail_reasoned, fail_resume, finish_nonconfirmed};
use crate::discovery::pause::io::{
    BatchFault, Event, PauseBatchOutcome, PauseRevalidationOutcome, TimedItem,
};
use crate::discovery::pause::rules::{annotated, bounded_cycle, AuthorizationSource, PauseFail};
use crate::discovery::pause::service::{
    arm, arm_cleanup_failed, arm_exchange, arm_failed, arm_unread, generation_retained, look_at,
    open_epoch, preflighted, revalidate_turn, serve_empty, serve_word, service, stale_applied,
    stale_item, stale_word, take_in, unarmed, Admission, Epoch, StaleWord,
};
use crate::discovery::pause::state::{ArmResult, PauseEpoch, State};
use crate::discovery::pause::steps::{
    apply_pending, apply_unowned, check_ring_loss, close_dequeue, doubt, failure_bound,
    keep_dequeued, observe_resting, observe_resumed, observe_tasks, observe_turn,
    remove_and_account, sample_stopped, take_stop_candidate, timed_dequeue, within, FaultText,
    TURNS,
};
use crate::record::{DiscoveryItem, DiscoveryRecord};
use crate::text::Text;
use vstd::prelude::*;

verus! {

/// Whether two states agree in what is counted and decided of the attempts.
pub open spec fn agree<B>(a: State<B>, b: State<B>) -> bool {
    &&& a.counters == b.counters
    &&& a.cycles == b.cycles
    &&& a.attempt_open == b.attempt_open
    &&& a.rearming_enabled == b.rearming_enabled
    &&& a.policy == b.policy
    &&& a.pid == b.pid
}

proof fn lemma_watching<B>(s: State<B>, deadline: u64, t: Seq<Event<B>>)
    ensures
        agree(s, within(s, deadline, t).0),
        agree(s, observe_tasks(s, deadline, t).0),
{
    reveal(observe_tasks);
    reveal(within);
}

proof fn lemma_looking<B>(s: State<B>, deadline: u64, successor: bool, t: Seq<Event<B>>)
    ensures
        agree(s, observe_turn(s, deadline, successor, t).0),
{
    reveal(observe_turn);
    reveal(observe_resting);
    let a = s.hear(Event::SameGeneration(s.pid, s.generation, s.due(t)->SameGeneration_2));
    let b = a.hear(Event::Authorization(a.due(t)->Authorization_0));
    let c = b.hear(Event::OriginalExited(b.due(t)->OriginalExited_0));
    lemma_watching(b, deadline, t);
    lemma_watching(c, deadline, t);
}

proof fn lemma_observing<B>(
    s: State<B>,
    deadline: u64,
    successor: bool,
    turns: nat,
    t: Seq<Event<B>>,
)
    ensures
        agree(s, observe_resumed(s, deadline, successor, turns, t).0),
    decreases turns,
{
    reveal(observe_resumed);
    if turns > 0 {
        lemma_looking(s, deadline, successor, t);
        let m = observe_turn(s, deadline, successor, t).0;
        lemma_observing(m, deadline, successor, (turns - 1) as nat, t);
    }
}

proof fn lemma_retiring<B>(s: State<B>, t: Seq<Event<B>>)
    requires
        s.attempt_open,
    ensures
        agree(s, retire_authorization(s, t).0),
{
    reveal(retire_authorization);
    reveal(remove_and_account);
    reveal(State::classified_requested);
    reveal(State::classified_absent);
    reveal(State::classified_armed);
    reveal(PauseEpoch::refuted);
    reveal(PauseEpoch::consumed);
    reveal(PauseEpoch::released);
}

proof fn lemma_quiet<B>(
    s: State<B>,
    deadline: u64,
    raced: Text,
    found: FaultText,
    t: Seq<Event<B>>,
)
    ensures
        agree(s, still_quiet(s, deadline, raced, found, t).0),
{
    reveal(still_quiet);
    reveal(wait_once);
    reveal(check_stopped);
    reveal(sample_stopped);
    reveal(check_marker);
    reveal(check_empty);
    reveal(timed_dequeue);
    reveal(keep_dequeued);
    reveal(close_dequeue);
}

proof fn lemma_handing_over<B>(s: State<B>, deadline: u64, successor: bool, t: Seq<Event<B>>)
    requires
        s.attempt_open,
    ensures
        ({
            let (n, r) = hand_over(s, deadline, successor, t);
            &&& agree(s, n)
            &&& r matches Ok(baseline) ==> (baseline is Some <==> successor)
        }),
{
    reveal(hand_over);
    reveal(install_successor);
    reveal(arm_successor);
    lemma_retiring(s, t);
    let a = retire_authorization(s, t).0;
    let b = arm_successor(a, t).0;
    lemma_quiet(
        b,
        deadline,
        "marker raced successor pre-arm"@,
        doubt("successor was consumed before prior resume"@),
        t,
    );
}

/// A child that is released in an attempt confirms it, once, and leaves no deadline. A successor is
/// left exactly where the first cycle applied one record and a further authorization is allowed;
/// otherwise no authorization stands, the child is known to run, and nothing is left of the epoch.
pub proof fn lemma_released<B>(s: State<B>, deadline: u64, count: usize, t: Seq<Event<B>>)
    requires
        s.attempt_open,
    ensures
        ({
            let (n, r) = thaw(s, deadline, count, t);
            let successor = count == 1 && s.cycles == 0 && s.rearming_enabled;
            &&& r is Ok ==> {
                &&& n.armed == successor
                &&& !n.attempt_open
                &&& n.counters.attempts == s.counters.attempts
                &&& n.counters.partial == s.counters.partial
                &&& s.counters.confirmed < u64::MAX ==> n.counters.confirmed
                    == s.counters.confirmed + 1
                &&& s.cycles < 255 ==> n.cycles == s.cycles + 1
                &&& n.active_deadline is None
                &&& n.failure_deadline is None
                &&& n.failure_items == 0
                &&& !successor ==> !n.may_be_stopped && !n.epoch.debt() && !n.epoch.successor()
                &&& n.rearming_enabled == s.rearming_enabled
            }
            &&& r is Err ==> n.counters == s.counters && n.attempt_open
        }),
{
    reveal(thaw);
    reveal(release);
    reveal(check_cancelled);
    reveal(check_ring);
    reveal(check_ring_loss);
    reveal(resume_child);
    let successor = count == 1 && s.cycles == 0 && s.rearming_enabled;
    lemma_handing_over(s, deadline, successor, t);
    let a = hand_over(s, deadline, successor, t).0;
    let b = check_ring(check_cancelled(a, t).0, t).0;
    let c = b.resuming().hear(Event::Resume(b.resuming().due(t)->Resume_0));
    lemma_observing(c.resumed(), deadline, successor, TURNS as nat, t);
    lemma_observing(
        c.resumed().passed_on(),
        deadline,
        successor,
        TURNS as nat,
        t,
    );
}

/// A resume that is owed is made, once; and none is made that is not owed. A resume that succeeds
/// leaves a child that runs, and one that fails is told. Nothing is owed after it.
pub proof fn lemma_owed_is_paid<B>(s: State<B>, errors: Seq<Text>, t: Seq<Event<B>>)
    ensures
        ({
            let owed = s.owes_resume() || s.owes_protective_resume();
            let (n, told, sound) = fail_resume(s, errors, t);
            let (m, listed) = cleanup_resume(s, errors, t);
            let reply = s.due(t)->Resume_0;
            &&& !owed ==> n == s && m == s && told == errors && listed == errors && sound
            &&& owed ==> {
                &&& n.trace == s.trace.push(Event::Resume(reply))
                &&& m.trace == s.trace.push(Event::Resume(reply))
                &&& sound <==> reply is Ok
                &&& reply is Ok ==> !n.may_be_stopped && !m.may_be_stopped && told == errors
                    && listed == errors && !m.resume_debt()
                &&& reply matches Err(message) ==> told == errors.push(message) && listed
                    == errors.push(message) && n.may_be_stopped && m.may_be_stopped
            }
            &&& !n.owes_resume() && !n.owes_protective_resume()
            &&& !m.owes_resume() && !m.owes_protective_resume()
        }),
{
    reveal(fail_resume);
    reveal(cleanup_resume);
}

/// A cycle that fails installs no further authorization. Its reason is the one on record, or that
/// of its message, or, where the child is not in doubt, the general one.
pub proof fn lemma_reason_of_a_failure<B>(s: State<B>, message: Text, lifecycle: bool)
    ensures
        ({
            let n = fail_reasoned(s, message, lifecycle);
            &&& !n.rearming_enabled
            &&& s.pending_diagnostic is Some ==> n.pending_diagnostic == s.pending_diagnostic
            &&& s.pending_diagnostic is None && message_diagnostic(message) is Some
                ==> n.pending_diagnostic == message_diagnostic(message)
            &&& s.pending_diagnostic is None && message_diagnostic(message) is None && !lifecycle
                ==> n.pending_diagnostic == Some(PauseDiagnostic::OtherAutoNonconfirmed)
            &&& s.pending_diagnostic is None && message_diagnostic(message) is None && lifecycle
                ==> n.pending_diagnostic is None
            &&& n.counters == s.counters
            &&& n.epoch == s.epoch
            &&& n.may_be_stopped == s.may_be_stopped
        }),
{
    reveal(fail_reasoned);
}

/// An attempt that is not confirmed: an automatic policy counts it as partial, tells its reason on
/// one line and goes on; a strict one fails with the message and its reason; and a policy that
/// never pauses has none.
pub proof fn lemma_not_confirmed<B>(s: State<B>, message: Text)
    ensures
        ({
            let (n, r) = finish_nonconfirmed(s, message);
            let reason = match s.pending_diagnostic {
                Some(first) => first,
                None => PauseDiagnostic::OtherAutoNonconfirmed,
            };
            &&& s.policy is Auto ==> {
                &&& r is Ok
                &&& !n.attempt_open
                &&& s.counters.partial < u64::MAX ==> n.counters.partial == s.counters.partial + 1
                &&& n.counters.confirmed == s.counters.confirmed
                &&& n.counters.attempts == s.counters.attempts
                &&& n.notices == s.notices.push(diagnostic_line(reason))
            }
            &&& s.policy is Always ==> {
                &&& n == s
                &&& r matches Err(fail) && fail.required && !fail.lifecycle && fail.messages.len()
                    == 1 && fail.messages[0] == annotated(message, reason)
            }
            &&& s.policy is Never ==> n == s && r is Ok
        }),
{
    reveal(finish_nonconfirmed);
}

/// What a received item is. A malformed one opens an attempt and is a fault; so is a record of
/// another process. A record of the child is a candidate for the live authorization, or from before
/// it; and without a live authorization it starts no cycle. A cancellation ends it first.
pub proof fn lemma_received<B>(s: State<B>, item: DiscoveryItem, t: Seq<Event<B>>)
    ensures
        ({
            let (n, r) = look_at(s, item, t);
            let on = s.due(t)->Cancelled_0 == Ok::<bool, Text>(false);
            &&& !on ==> (r matches Admission::Faulty(fault) && fault.lifecycle)
            &&& on && item is Malformed ==> (r matches Admission::Faulty(fault) && !fault.lifecycle)
                && n.attempt_open
            &&& on ==> (item matches DiscoveryItem::Record(record) ==> {
                &&& record.pid() != s.pid ==> (r matches Admission::Faulty(fault)
                    && !fault.lifecycle)
                &&& record.pid() == s.pid && s.armed && (s.armed_at_ns matches Some(since)
                    && record.hook_ts_ns < since) ==> r is Stale
                &&& record.pid() == s.pid && s.armed && !(s.armed_at_ns matches Some(since)
                    && record.hook_ts_ns < since) ==> r == Admission::Candidate(record)
                &&& record.pid() == s.pid && !s.armed ==> !(r is Candidate) && !(r is Stale)
            })
        }),
{
    reveal(look_at);
    reveal(check_cancelled);
    reveal(unarmed);
}

/// A record that comes in while no authorization stands is applied as any other. One that asked for
/// a stop has the authorization word read first: a word that says so is a contradiction, and the
/// child may be stopped.
pub proof fn lemma_unarmed<B>(s: State<B>, first: DiscoveryRecord, t: Seq<Event<B>>)
    ensures
        ({
            let (n, r) = unarmed(s, first, t);
            let word = s.due(t)->Authorization_0;
            &&& first.send_signal_rc != 0 ==> r is Settled && n.trace.len() == s.trace.len() + 1
                && n.trace.last() is Apply && n.may_be_stopped == s.may_be_stopped
            &&& first.send_signal_rc == 0 && word == Ok::<Option<u64>, Text>(Some(2)) ==> (
            r matches Admission::Faulty(fault) && fault.lifecycle) && n.may_be_stopped
            &&& first.send_signal_rc == 0 && word is Err ==> (r matches Admission::Faulty(fault)
                && fault.lifecycle)
            &&& first.send_signal_rc == 0 && word is Ok && word != Ok::<Option<u64>, Text>(Some(2))
                ==> r is Settled && n.trace.last() is Apply && !n.may_be_stopped
        }),
{
    reveal(unarmed);
    reveal(apply_unowned);
}

proof fn lemma_looked_at<B>(s: State<B>, item: DiscoveryItem, t: Seq<Event<B>>)
    ensures
        ({
            let (n, r) = look_at(s, item, t);
            r is Candidate || r is Stale ==> n == s.hear(Event::Cancelled(s.due(t)->Cancelled_0))
        }),
{
    reveal(look_at);
    reveal(check_cancelled);
    reveal(unarmed);
}

/// One terminal batch is held at a time: a second one is refused and changes nothing. An item that
/// stays in play brings its batch with it, and a deadline half a second after its dequeue at the
/// latest.
pub proof fn lemma_taken_in<B>(
    s: State<B>,
    batch: Option<B>,
    after_ns: u64,
    item: DiscoveryItem,
    t: Seq<Event<B>>,
)
    ensures
        ({
            let (n, r) = take_in(s, batch, after_ns, item, t);
            &&& batch is Some && s.terminal_batch is Some ==> n == s && (r matches
                Admission::Settled(Err(fail)) && fail.lifecycle && (fail.required
                <==> s.policy is Always))
            &&& r is Candidate || r is Stale ==> {
                &&& batch is Some ==> n.terminal_batch == batch
                &&& batch is None ==> n.terminal_batch == s.terminal_batch
                &&& n.failure_deadline matches Some(due) && due <= after_ns + 500_000_000 && (
                s.failure_deadline matches Some(was) ==> due <= was)
            }
        }),
{
    reveal(take_in);
    reveal(take_stop_candidate);
    let held = if batch is Some {
        s.holding(batch)
    } else {
        s
    };
    let due = take_stop_candidate(held, t).due_by(bounded_cycle(after_ns));
    lemma_looked_at(due, item, t);
}

/// A cycle begins exactly where the word says that a pause was requested, unless a successor was
/// consumed before the child was resumed. It opens an attempt, takes the child for stopped and the
/// authorization for consumed, and forgets the epoch before. Any other word starts none, and it is
/// a fault where the authorization was known to be consumed.
pub proof fn lemma_epoch_opens<B>(s: State<B>, t: Seq<Event<B>>)
    ensures
        ({
            let (n, r) = open_epoch(s, t);
            let word = s.due(t)->Authorization_0;
            let requested = word == Ok::<Option<u64>, Text>(Some(2));
            let early = s.epoch.successor_installed && s.epoch.successor_unresolved
                && !s.epoch.resume_succeeded;
            &&& r is Begun <==> requested && !early
            &&& requested ==> n.may_be_stopped && n.attempt_open
            &&& r is Begun ==> n.epoch.authorization_consumed && !n.epoch.accepted
                && !n.epoch.rejected && !n.epoch.resume_attempted && !n.epoch.successor_installed
            &&& word is Err || requested && early ==> (r matches Epoch::Faulty(fault)
                && fault.lifecycle)
            &&& word is Ok && !requested && s.epoch.authorization_consumed ==> (
            r matches Epoch::Faulty(fault) && fault.lifecycle)
            &&& word is Ok && !requested && !s.epoch.authorization_consumed
                && s.epoch.zero_candidate && word != Ok::<Option<u64>, Text>(Some(1)) ==> (
            r matches Epoch::Faulty(fault) && !fault.lifecycle) && n.attempt_open
            &&& r is Settled ==> !n.may_be_stopped && !n.epoch.zero_candidate && n.trace.last()
                is Apply
        }),
{
    reveal(open_epoch);
    reveal(apply_unowned);
}

/// An authorization is taken for installed exactly where the exchange succeeded and its word read
/// back armed; its time is the clock before the exchange.
pub proof fn lemma_installed<B>(s: State<B>, t: Seq<Event<B>>)
    ensures
        ({
            let (n, r) = arm_exchange(s, t);
            let now = t[s.trace.len() as int]->Now_0;
            let armed = t[s.trace.len() as int + 1]->Arm_0;
            let word = t[s.trace.len() as int + 2]->Authorization_0;
            let stands = armed is Ok && word == Ok::<Option<u64>, Text>(Some(1));
            &&& stands ==> (r matches Ok(ArmResult::Armed)) && n.armed && (n.armed_at_ns
                == match now {
                Ok(now) => Some(now),
                Err(_) => None,
            })
            &&& !stands ==> !(r matches Ok(ArmResult::Armed))
        }),
{
    reveal(arm_exchange);
    reveal(arm_cleanup_failed);
}

/// When an authorization is asked for: never under a policy that never pauses, nor once a further
/// one is forbidden, nor while one stands; and then no call is made. Otherwise only for the pinned
/// child, against the ring loss of that moment.
pub proof fn lemma_arming<B>(s: State<B>, t: Seq<Event<B>>)
    ensures
        ({
            let (n, r) = arm(s, t);
            &&& s.policy is Never || !s.rearming_enabled ==> n == s && (r matches Ok(
                ArmResult::Disabled,
            ))
            &&& !(s.policy is Never) && s.rearming_enabled && s.armed ==> n == s && (r matches Ok(
                ArmResult::Armed,
            ))
            &&& !(s.policy is Never) && s.rearming_enabled && !s.armed ==> {
                let same = t[s.trace.len() as int]->SameGeneration_2;
                let loss = t[s.trace.len() as int + 1]->RingLoss_0;
                let asked = s.hear(Event::SameGeneration(s.pid, s.generation, same)).hear(
                    Event::RingLoss(loss),
                );
                &&& same == Ok::<bool, Text>(true) ==> (loss matches Ok(lost) ==> arm(s, t)
                    == arm_exchange(State { ring_loss_baseline: lost, ..asked }, t))
                &&& same != Ok::<bool, Text>(true) || loss is Err ==> !(r matches Ok(
                    ArmResult::Armed,
                ))
            }
        }),
{
    reveal(arm);
    reveal(arm_failed);
    reveal(arm_unread);
}

/// A service of an empty queue does nothing while no authorization stands, nor while one stands
/// untouched and the ring has lost nothing. A policy that never pauses is never served.
pub proof fn lemma_idle_service<B>(s: State<B>, t: Seq<Event<B>>)
    ensures
        s.policy is Never ==> service(s, t) == (s, Ok::<(), PauseFail>(())),
        ({
            let loss = t[s.trace.len() as int]->RingLoss_0;
            let word = t[s.trace.len() as int + 1]->Authorization_0;
            let (n, r) = serve_empty(s, t);
            &&& loss is Ok && !s.armed ==> r is Ok && n == s.hear(Event::RingLoss(loss))
            &&& s.armed && (loss matches Ok(lost) && lost <= s.ring_loss_baseline) && word
                == Ok::<Option<u64>, Text>(Some(1)) ==> r is Ok && n == s.hear(
                Event::RingLoss(loss),
            ).hear(Event::Authorization(word))
        }),
{
    reveal(service);
    reveal(serve_empty);
    reveal(serve_word);
}

/// What the word behind a record from before the live authorization means. It starts the service of
/// a request exactly where it says that one was made, before or after the record is applied. Only a
/// word that is armed before and after settles the record, and any other is a doubt.
pub proof fn lemma_stale_words<B>(s: State<B>, t: Seq<Event<B>>)
    ensures
        ({
            let (n, r) = stale_word(s, t);
            let word = s.due(t)->Authorization_0;
            &&& word == Ok::<Option<u64>, Text>(Some(2)) ==> (r matches StaleWord::Requested(due) && (
            s.failure_deadline matches Some(limit) ==> due == limit))
            &&& word != Ok::<Option<u64>, Text>(Some(2)) && word != Ok::<Option<u64>, Text>(Some(1))
                ==> (r matches StaleWord::Faulty(fault) && fault.lifecycle)
            &&& r is Settled ==> word == Ok::<Option<u64>, Text>(Some(1)) && n.trace.last()
                == Event::<B>::Authorization(Ok(Some(1))) && n.failure_deadline is None
        }),
{
    reveal(stale_word);
    reveal(stale_applied);
}

/// A revalidation is asked for as the owner exactly where this coordinator owns the queue. One that
/// is complete ends it, and so does one of which nothing is owned; one that gives an item that
/// nobody owns, or fails unowned, is a failure that the policy may require.
pub proof fn lemma_revalidations<B>(s: State<B>, t: Seq<Event<B>>)
    ensures
        ({
            let (n, r) = revalidate_turn(s, t);
            let reply = s.due(t)->Revalidate_1;
            let asked = s.hear(Event::Revalidate(s.active(), reply));
            &&& reply matches Ok(PauseRevalidationOutcome::Complete(outcome)) ==> (
            outcome.required_complete || !s.active() ==> r == Some(Ok::<(), PauseFail>(())) && n
                == asked)
            &&& !s.active() && !(reply matches Ok(PauseRevalidationOutcome::Complete(_))) ==> n
                == asked && (r matches Some(Err(fail)) && fail.lifecycle && (fail.required
                <==> s.policy is Always))
        }),
{
    reveal(revalidate_turn);
}

/// The latest hook time is that of the latest record.
pub proof fn lemma_latest<B>(next: TimedItem<B>, latest_ns: u64)
    ensures
        later(next, latest_ns) >= latest_ns,
        next.item matches DiscoveryItem::Record(record) ==> later(next, latest_ns)
            >= record.hook_ts_ns && (later(next, latest_ns) == latest_ns || later(next, latest_ns)
            == record.hook_ts_ns),
        next.item is Malformed ==> later(next, latest_ns) == latest_ns,
{
}

/// A failing pause has a deadline: no later than those that stand, and else one cycle from now, or
/// the end of the clock where that could not be read, which is told.
pub proof fn lemma_failure_has_a_deadline<B>(s: State<B>, errors: Seq<Text>, t: Seq<Event<B>>)
    ensures
        ({
            let (n, told, deadline) = failure_bound(s, errors, t);
            let none = s.active_deadline is None && s.failure_deadline is None;
            &&& n.failure_deadline == Some(deadline)
            &&& s.active_deadline matches Some(limit) ==> deadline <= limit
            &&& s.failure_deadline matches Some(limit) ==> deadline <= limit
            &&& !none ==> told == errors && n.trace == s.trace && (s.active_deadline == Some(
                deadline,
            ) || s.failure_deadline == Some(deadline))
            &&& none ==> (s.due(t)->Now_0 matches Ok(now) ==> told == errors && deadline <= now
                + 500_000_000 && (deadline == now + 500_000_000 || deadline == u64::MAX))
            &&& none ==> (s.due(t)->Now_0 matches Err(message) ==> told == errors.push(message)
                && deadline == u64::MAX)
        }),
{
    reveal(failure_bound);
}

/// A removal that fails is a doubt and leaves what is known; one that succeeds is read as the word
/// that it gave.
pub proof fn lemma_removals<B>(s: State<B>, t: Seq<Event<B>>)
    ensures
        ({
            let (n, r) = remove_and_account(s, t);
            let reply = s.due(t)->Remove_0;
            let asked = s.hear(Event::Remove(reply));
            &&& reply is Err ==> r is Err && n == asked
            &&& reply matches Ok(word) ==> n == asked.classified(
                word,
                s.disposition(),
                AuthorizationSource::Removal,
            ).0 && (r is Ok <==> asked.classified(
                word,
                s.disposition(),
                AuthorizationSource::Removal,
            ).1 is Ok)
            &&& r matches Err(fail) ==> fail.lifecycle && (fail.required <==> s.policy is Always)
        }),
{
    reveal(remove_and_account);
    reveal(State::classified_requested);
    reveal(State::classified_absent);
    reveal(State::classified_armed);
}

/// Whether a state goes on from another without a change of the records at hand.
pub open spec fn keeps_records<B>(a: State<B>, b: State<B>) -> bool {
    &&& a.trace.len() <= b.trace.len()
    &&& forall|j: int| 0 <= j < a.trace.len() ==> #[trigger] b.trace[j] == a.trace[j]
    &&& b.pending_records == a.pending_records
    &&& b.unvalidated_records == a.unvalidated_records
}

proof fn lemma_applied_in_cleanup<B>(
    s: State<B>,
    errors: Seq<Text>,
    required: bool,
    reply: Result<PauseBatchOutcome, BatchFault>,
)
    ensures
        ({
            let n = cleanup_applied(s, errors, required, reply).0;
            &&& n.trace == s.trace
            &&& n.terminal_batch == s.terminal_batch
            &&& keeps_records(s, n)
        }),
{
    reveal(cleanup_applied);
    reveal(State::annotating);
}

proof fn lemma_batch_in_cleanup<B>(
    s: State<B>,
    errors: Seq<Text>,
    deadline: u64,
    required: bool,
    t: Seq<Event<B>>,
)
    ensures
        keeps_records(s, cleanup_batch(s, errors, deadline, required, t).0),
{
    reveal(cleanup_batch);
    if s.terminal_batch is Some {
        let (a, reply) = call_apply(s, Seq::empty(), Some(deadline), false, s.active(), t);
        lemma_applied_in_cleanup(a, errors, required, reply);
    }
}

/// A cleanup hands over every kept record, once and without additions, and reports how many could
/// not be validated; it leaves none of either.
pub proof fn lemma_cleanup_hands_over<B>(
    s: State<B>,
    errors: Seq<Text>,
    deadline: u64,
    required: bool,
    t: Seq<Event<B>>,
)
    ensures
        ({
            let n = cleanup_records(s, errors, deadline, required, t).0;
            let i = s.trace.len() as int;
            &&& n.trace.len() > i
            &&& n.trace[i] matches Event::Apply {
                records,
                deadline: by,
                additions_allowed,
                pause_owned,
                ..
            } && records == s.pending_records && by == Some(deadline) && !additions_allowed
                && pause_owned == s.active()
            &&& n.pending_records.len() == 0
            &&& n.unvalidated_records == 0
            &&& s.unvalidated_records != 0 ==> n.trace.len() >= 2 && n.trace[n.trace.len() - 2]
                == Event::<B>::Unvalidated(s.unvalidated_records)
        }),
{
    reveal(cleanup_records);
    reveal(cleanup_unvalidated);
    reveal(take_stop_candidate);
    let cleared = State { unvalidated_records: 0, ..s };
    let (a, reply) = apply_pending(cleared, Some(deadline), false, cleared.active(), t);
    lemma_applied_in_cleanup(a, errors, required, reply);
    let (b, told) = cleanup_applied(a, errors, required, reply);
    lemma_batch_in_cleanup(b, told, deadline, required, t);
    assert(a.trace[s.trace.len() as int] is Apply);
}

/// A failing cycle hands over every kept record, with additions, and tells why where that fails.
pub proof fn lemma_failure_hands_over<B>(
    s: State<B>,
    errors: Seq<Text>,
    deadline: u64,
    t: Seq<Event<B>>,
)
    ensures
        ({
            let (n, told) = fail_apply(s, errors, deadline, t);
            let i = s.trace.len() as int;
            &&& n.trace.len() > i
            &&& n.trace[i] matches Event::Apply {
                records,
                deadline: by,
                additions_allowed,
                pause_owned,
                reply,
                ..
            } && records == s.pending_records && by == Some(deadline) && additions_allowed
                && pause_owned == s.active() && (reply is Ok ==> told == errors) && (
            reply matches Err(fault) ==> told == errors.push(fault.message))
            &&& n.pending_records.len() == 0
        }),
{
    reveal(fail_apply);
    reveal(take_stop_candidate);
}

/// Authority that is held outside is given up exactly where no batch is at hand; it is unresolved
/// where a batch is, or where it is still held.
pub proof fn lemma_authority<B>(s: State<B>, errors: Seq<Text>, t: Seq<Event<B>>)
    ensures
        ({
            let (n, told) = relinquish(s, errors, t);
            let held = t[s.trace.len() as int]->AuthorityPending_0;
            let reply = t[s.trace.len() as int + 1]->Discard_reply;
            &&& s.terminal_batch is Some ==> n == s && told == errors
            &&& s.terminal_batch is None && !held ==> n.trace.len() == s.trace.len() + 1 && told
                == errors
            &&& s.terminal_batch is None && held ==> n.trace.len() == s.trace.len() + 2
                && n.trace.last() is Discard && (reply is Ok ==> told == errors) && (
            reply matches Err(message) ==> told == errors.push(message))
            &&& unresolved(s, t).1 <==> s.terminal_batch is Some || held
        }),
{
    reveal(relinquish);
    reveal(unresolved);
}

/// A cleanup that leaves nothing open succeeds exactly where there is nothing to tell. It counts as
/// complete where it added no message, and otherwise the child is in doubt. What it tells is every
/// message, in order, the first with its reason where it is required.
pub proof fn lemma_cleanup_ends<B>(
    s: State<B>,
    errors: Seq<Text>,
    initiating: nat,
    required: bool,
    lifecycle: bool,
)
    requires
        initiating <= errors.len(),
    ensures
        ({
            let (n, r) = cleanup_closed(s, errors, initiating, required, lifecycle);
            &&& !n.cleaning
            &&& n.cleaned <==> errors.len() == initiating
            &&& r is Ok <==> errors.len() == 0
            &&& r matches Err(fail) ==> {
                &&& fail.required == required
                &&& fail.lifecycle <==> lifecycle || errors.len() > initiating
                &&& fail.messages.len() == errors.len()
                &&& forall|i: int| 1 <= i < errors.len() ==> #[trigger] fail.messages[i]
                    == errors[i]
                &&& !required ==> fail.messages == errors
            }
        }),
        ({
            let (n, r) = cleanup_open(s, errors, required);
            &&& !n.cleaning
            &&& n.cleaned == s.cleaned
            &&& r matches Err(fail) && fail.lifecycle && fail.required == required
                && fail.messages.len() == errors.len() + 1
        }),
{
    reveal(cleanup_closed);
    reveal(cleanup_open);
    reveal(State::annotating);
}

/// A record is from before the live authorization where it is of the child and older.
pub proof fn lemma_stale_items<B>(s: State<B>, record: DiscoveryRecord)
    ensures
        stale_item(s, DiscoveryItem::Record(record)) <==> record.pid() == s.pid && s.armed && (
        s.armed_at_ns matches Some(since) && record.hook_ts_ns < since),
        !stale_item(s, DiscoveryItem::Malformed),
{
}

/// A pause is prepared, unless it is never asked for, only of a child that may be signalled, has a
/// task and is still the pinned one. What is prepared has done nothing: it is not armed, owes
/// nothing, has counted nothing, and expects the tasks that were read.
pub proof fn lemma_preflights<B>(
    policy: PausePolicy,
    pid: u32,
    generation: u64,
    authority: Result<(), Text>,
    tasks: Result<Map<u32, u8>, Text>,
    still_the_same: bool,
)
    ensures
        ({
            let r = preflighted::<B>(policy, pid, generation, authority, tasks, still_the_same);
            &&& r is Ok <==> {
                ||| policy is Never
                ||| authority is Ok && still_the_same && (tasks matches Ok(states)
                    && states.dom().len() > 0)
            }
            &&& r matches Ok(s) ==> {
                &&& s.policy == policy
                &&& s.pid == pid
                &&& s.generation == generation
                &&& !(policy is Never) ==> tasks == Ok::<Map<u32, u8>, Text>(s.expected_tasks)
                &&& s.rearming_enabled <==> !(policy is Never)
                &&& !s.armed && !s.may_be_stopped && !s.attempt_open && !s.resume_debt()
                &&& s.counters.attempts == 0 && s.counters.confirmed == 0 && s.counters.partial == 0
                &&& s.trace.len() == 0
            }
            &&& r matches Err(fail) ==> fail.lifecycle && (fail.required <==> policy is Always)
        }),
{
}

/// The pinned child is still behind its process id where the pin says so. Otherwise it is not once
/// it was reaped, and before that it is where it has ended.
pub proof fn lemma_generations(
    still_the_same: bool,
    reaped: bool,
    original_exited: Result<bool, Text>,
)
    ensures
        ({
            let r = generation_retained(still_the_same, reaped, original_exited);
            &&& r matches Ok(kept) ==> (kept <==> still_the_same || (!reaped && original_exited
                == Ok::<bool, Text>(true)))
            &&& r is Err <==> !still_the_same && !reaped && original_exited is Err
        }),
{
}

} // verus!
