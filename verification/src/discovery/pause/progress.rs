//! A pause only goes on: whatever is asked of a coordinator, it stays the coordinator of the same
//! child under the same policy, its history and its counts only grow, and once it may not install
//! a further authorization, it never may again.

use crate::discovery::pause::cleanup::{
    cleanup_accounts, cleanup_applied, cleanup_authority, cleanup_batch, cleanup_closed,
    cleanup_end, cleanup_open, cleanup_records, cleanup_removal, cleanup_resume,
    cleanup_unvalidated, cleanup_word, drain, lemma_dequeue_keeps_budget, relinquish,
    terminal_cleanup, unresolved,
};
use crate::discovery::pause::cycle::{
    Winner, accepted_cycle, apply_frozen, arm_successor, attach_frozen, await_record,
    before_winner, causal_drain, check_cancelled, check_empty, check_marker, check_ring,
    check_stopped, coalesced_first, confirm_stopped, find_winner, freeze, hand_over,
    install_successor, judge_taken, judge_winner, later, release, resume_child,
    retire_authorization, ring_intact, seek_winner, still_quiet, thaw, wait_once,
};
use crate::discovery::pause::failure::{
    Refusal, fail_apply, fail_cycle, fail_reasoned, fail_removal, fail_resume, fail_softly,
    fail_word, fail_work, finish_nonconfirmed, reject_apply, reject_cycle, reject_drain,
    reject_end, reject_generation, reject_removal, reject_turn, reject_wait,
};
use crate::discovery::pause::io::{
    extends, group_history, lemma_extends_one, BatchFault, Event, PauseBatchOutcome, TimedItem,
};
use crate::discovery::pause::rules::MAX_FAILURE_ITEMS;
use crate::discovery::pause::service::{
    arm, arm_cleanup_failed, arm_exchange, arm_failed, arm_unread, await_request, cycle, look_at,
    open_epoch, requested_item, requested_turn, revalidate, revalidate_incomplete, revalidate_turn,
    seek_request, serve_candidate, serve_empty, serve_fresh, serve_stale, serve_word, service,
    service_deferred, service_received, service_requested, stale_applied, stale_word, take_in,
    unarmed,
};
use crate::discovery::pause::state::State;
use crate::discovery::pause::steps::FaultText;
use crate::discovery::pause::steps::{
    apply_unowned, check_ring_loss, close_dequeue, failure_bound, keep_dequeued, observe_resting,
    observe_resumed, observe_tasks, observe_turn, remove_and_account, sample_stopped,
    take_stop_candidate, timed_dequeue, within,
};
use crate::record::{DiscoveryItem, DiscoveryRecord};
use crate::text::Text;
use vstd::prelude::*;

verus! {

broadcast use {group_history, lemma_extends_one};

/// Whether `b` is a later state of the coordinator that was in state `a`.
#[verifier::opaque]
pub open spec fn goes_on<B>(a: State<B>, b: State<B>) -> bool {
    &&& b.policy == a.policy
    &&& b.pid == a.pid
    &&& b.generation == a.generation
    &&& b.expected_tasks == a.expected_tasks
    &&& b.rearming_enabled ==> a.rearming_enabled
    &&& a.counters.attempts <= b.counters.attempts
    &&& a.counters.confirmed <= b.counters.confirmed
    &&& a.counters.partial <= b.counters.partial
    &&& extends(b.trace, a.trace)
}

/// Whether every confirmed attempt, and the one that is open, is among the attempts that were
/// counted. A count that has reached its end tells nothing.
pub open spec fn counted<B>(s: State<B>) -> bool {
    s.counters.attempts == u64::MAX || s.counters.confirmed + (if s.attempt_open {
        1int
    } else {
        0int
    }) <= s.counters.attempts
}

/// Whether every attempt that was counted is open, confirmed or partial.
pub open spec fn remembered<B>(s: State<B>) -> bool {
    s.counters.attempts <= s.counters.confirmed + s.counters.partial + (if s.attempt_open {
        1int
    } else {
        0int
    })
}

/// The stage `close_dequeue` only goes on.
pub broadcast proof fn lemma_close_dequeue<B>(
    s: State<B>,
    before_ns: u64,
    item: Option<DiscoveryItem>,
    deadline: Option<u64>,
    t: Seq<Event<B>>,
)
    ensures
        goes_on(s, (#[trigger] close_dequeue(s, before_ns, item, deadline, t)).0),
        counted(s) ==> counted(close_dequeue(s, before_ns, item, deadline, t).0),
        remembered(s) ==> remembered(close_dequeue(s, before_ns, item, deadline, t).0),
        s.attempt_open ==> close_dequeue(s, before_ns, item, deadline, t).0.attempt_open,
        close_dequeue(s, before_ns, item, deadline, t).0.counters.confirmed == s.counters.confirmed,
{
    reveal(goes_on);
    reveal(close_dequeue);
}

/// The stage `keep_dequeued` only goes on.
pub broadcast proof fn lemma_keep_dequeued<B>(
    s: State<B>,
    before_ns: u64,
    item: Option<DiscoveryItem>,
    deadline: Option<u64>,
    t: Seq<Event<B>>,
)
    ensures
        goes_on(s, (#[trigger] keep_dequeued(s, before_ns, item, deadline, t)).0),
        counted(s) ==> counted(keep_dequeued(s, before_ns, item, deadline, t).0),
        remembered(s) ==> remembered(keep_dequeued(s, before_ns, item, deadline, t).0),
        s.attempt_open ==> keep_dequeued(s, before_ns, item, deadline, t).0.attempt_open,
        keep_dequeued(s, before_ns, item, deadline, t).0.counters.confirmed == s.counters.confirmed,
{
    broadcast use {lemma_close_dequeue};

    reveal(goes_on);
    reveal(keep_dequeued);
}

/// The stage `timed_dequeue` only goes on.
pub broadcast proof fn lemma_timed_dequeue<B>(s: State<B>, deadline: Option<u64>, t: Seq<Event<B>>)
    ensures
        goes_on(s, (#[trigger] timed_dequeue(s, deadline, t)).0),
        counted(s) ==> counted(timed_dequeue(s, deadline, t).0),
        remembered(s) ==> remembered(timed_dequeue(s, deadline, t).0),
        s.attempt_open ==> timed_dequeue(s, deadline, t).0.attempt_open,
        timed_dequeue(s, deadline, t).0.counters.confirmed == s.counters.confirmed,
{
    broadcast use {lemma_keep_dequeued};

    reveal(goes_on);
    reveal(timed_dequeue);
}

/// The stage `check_ring_loss` only goes on.
pub broadcast proof fn lemma_check_ring_loss<B>(s: State<B>, t: Seq<Event<B>>)
    ensures
        goes_on(s, (#[trigger] check_ring_loss(s, t)).0),
        counted(s) ==> counted(check_ring_loss(s, t).0),
        remembered(s) ==> remembered(check_ring_loss(s, t).0),
        s.attempt_open ==> check_ring_loss(s, t).0.attempt_open,
        check_ring_loss(s, t).0.counters.confirmed == s.counters.confirmed,
{
    reveal(goes_on);
    reveal(check_ring_loss);
}

/// The stage `remove_and_account` only goes on.
pub broadcast proof fn lemma_remove_and_account<B>(s: State<B>, t: Seq<Event<B>>)
    ensures
        goes_on(s, (#[trigger] remove_and_account(s, t)).0),
        counted(s) ==> counted(remove_and_account(s, t).0),
        remembered(s) ==> remembered(remove_and_account(s, t).0),
        s.attempt_open ==> remove_and_account(s, t).0.attempt_open,
        remove_and_account(s, t).0.counters.confirmed == s.counters.confirmed,
{
    reveal(goes_on);
    reveal(remove_and_account);
    reveal(State::classified_requested);
    reveal(State::classified_absent);
    reveal(State::classified_armed);
}

/// The stage `sample_stopped` only goes on.
pub broadcast proof fn lemma_sample_stopped<B>(s: State<B>, deadline: u64, t: Seq<Event<B>>)
    ensures
        goes_on(s, (#[trigger] sample_stopped(s, deadline, t)).0),
        counted(s) ==> counted(sample_stopped(s, deadline, t).0),
        remembered(s) ==> remembered(sample_stopped(s, deadline, t).0),
        s.attempt_open ==> sample_stopped(s, deadline, t).0.attempt_open,
        sample_stopped(s, deadline, t).0.counters.confirmed == s.counters.confirmed,
{
    reveal(goes_on);
    reveal(sample_stopped);
}

/// The stage `take_stop_candidate` only goes on.
pub broadcast proof fn lemma_take_stop_candidate<B>(s: State<B>, t: Seq<Event<B>>)
    ensures
        goes_on(s, (#[trigger] take_stop_candidate(s, t))),
        counted(s) ==> counted(take_stop_candidate(s, t)),
        remembered(s) ==> remembered(take_stop_candidate(s, t)),
        s.attempt_open ==> take_stop_candidate(s, t).attempt_open,
        take_stop_candidate(s, t).counters.confirmed == s.counters.confirmed,
{
    reveal(goes_on);
    reveal(take_stop_candidate);
}

/// The stage `apply_unowned` only goes on.
pub broadcast proof fn lemma_apply_unowned<B>(s: State<B>, deadline: Option<u64>, t: Seq<Event<B>>)
    ensures
        goes_on(s, (#[trigger] apply_unowned(s, deadline, t)).0),
        counted(s) ==> counted(apply_unowned(s, deadline, t).0),
        remembered(s) ==> remembered(apply_unowned(s, deadline, t).0),
        s.attempt_open ==> apply_unowned(s, deadline, t).0.attempt_open,
        apply_unowned(s, deadline, t).0.counters.confirmed == s.counters.confirmed,
{
    reveal(goes_on);
    reveal(apply_unowned);
}

/// The stage `failure_bound` only goes on.
pub broadcast proof fn lemma_failure_bound<B>(s: State<B>, errors: Seq<Text>, t: Seq<Event<B>>)
    ensures
        goes_on(s, (#[trigger] failure_bound(s, errors, t)).0),
        counted(s) ==> counted(failure_bound(s, errors, t).0),
        remembered(s) ==> remembered(failure_bound(s, errors, t).0),
        s.attempt_open ==> failure_bound(s, errors, t).0.attempt_open,
        failure_bound(s, errors, t).0.counters.confirmed == s.counters.confirmed,
{
    reveal(goes_on);
    reveal(failure_bound);
}

/// The stage `within` only goes on.
pub broadcast proof fn lemma_within<B>(s: State<B>, deadline: u64, t: Seq<Event<B>>)
    ensures
        goes_on(s, (#[trigger] within(s, deadline, t)).0),
        counted(s) ==> counted(within(s, deadline, t).0),
        remembered(s) ==> remembered(within(s, deadline, t).0),
        s.attempt_open ==> within(s, deadline, t).0.attempt_open,
        within(s, deadline, t).0.counters.confirmed == s.counters.confirmed,
{
    reveal(goes_on);
    reveal(within);
}

/// The stage `observe_tasks` only goes on.
pub broadcast proof fn lemma_observe_tasks<B>(s: State<B>, deadline: u64, t: Seq<Event<B>>)
    ensures
        goes_on(s, (#[trigger] observe_tasks(s, deadline, t)).0),
        counted(s) ==> counted(observe_tasks(s, deadline, t).0),
        remembered(s) ==> remembered(observe_tasks(s, deadline, t).0),
        s.attempt_open ==> observe_tasks(s, deadline, t).0.attempt_open,
        observe_tasks(s, deadline, t).0.counters.confirmed == s.counters.confirmed,
{
    reveal(goes_on);
    reveal(observe_tasks);
}

/// The stage `observe_resting` only goes on.
pub broadcast proof fn lemma_observe_resting<B>(s: State<B>, deadline: u64, t: Seq<Event<B>>)
    ensures
        goes_on(s, (#[trigger] observe_resting(s, deadline, t)).0),
        counted(s) ==> counted(observe_resting(s, deadline, t).0),
        remembered(s) ==> remembered(observe_resting(s, deadline, t).0),
        s.attempt_open ==> observe_resting(s, deadline, t).0.attempt_open,
        observe_resting(s, deadline, t).0.counters.confirmed == s.counters.confirmed,
{
    broadcast use {lemma_within, lemma_observe_tasks};

    reveal(goes_on);
    reveal(observe_resting);
}

/// The stage `observe_turn` only goes on.
pub broadcast proof fn lemma_observe_turn<B>(
    s: State<B>,
    deadline: u64,
    successor: bool,
    t: Seq<Event<B>>,
)
    ensures
        goes_on(s, (#[trigger] observe_turn(s, deadline, successor, t)).0),
        counted(s) ==> counted(observe_turn(s, deadline, successor, t).0),
        remembered(s) ==> remembered(observe_turn(s, deadline, successor, t).0),
        s.attempt_open ==> observe_turn(s, deadline, successor, t).0.attempt_open,
        observe_turn(s, deadline, successor, t).0.counters.confirmed == s.counters.confirmed,
{
    broadcast use {lemma_within, lemma_observe_resting};

    reveal(goes_on);
    reveal(observe_turn);
}

/// The stage `observe_resumed` only goes on.
pub broadcast proof fn lemma_observe_resumed<B>(
    s: State<B>,
    deadline: u64,
    successor: bool,
    turns: nat,
    t: Seq<Event<B>>,
)
    ensures
        goes_on(s, (#[trigger] observe_resumed(s, deadline, successor, turns, t)).0),
        counted(s) ==> counted(observe_resumed(s, deadline, successor, turns, t).0),
        remembered(s) ==> remembered(observe_resumed(s, deadline, successor, turns, t).0),
        s.attempt_open ==> observe_resumed(s, deadline, successor, turns, t).0.attempt_open,
        observe_resumed(s, deadline, successor, turns, t).0.counters.confirmed
            == s.counters.confirmed,
    decreases turns,
{
    broadcast use {lemma_observe_turn};

    reveal(goes_on);
    reveal(observe_resumed);
    if turns > 0 {
        let (next, _) = observe_turn(s, deadline, successor, t);
        lemma_observe_resumed(next, deadline, successor, (turns - 1) as nat, t);
    }
}

/// The stage `drain` only goes on.
pub broadcast proof fn lemma_drain<B>(
    s: State<B>,
    errors: Seq<Text>,
    deadline: u64,
    malformed: Text,
    t: Seq<Event<B>>,
)
    ensures
        goes_on(s, (#[trigger] drain(s, errors, deadline, malformed, t)).0),
        counted(s) ==> counted(drain(s, errors, deadline, malformed, t).0),
        remembered(s) ==> remembered(drain(s, errors, deadline, malformed, t).0),
        s.attempt_open ==> drain(s, errors, deadline, malformed, t).0.attempt_open,
        drain(s, errors, deadline, malformed, t).0.counters.confirmed == s.counters.confirmed,
    decreases MAX_FAILURE_ITEMS - s.failure_items,
{
    broadcast use {lemma_timed_dequeue};

    reveal(goes_on);
    reveal(drain);
    if s.failure_items < MAX_FAILURE_ITEMS {
        lemma_dequeue_keeps_budget(s, Some(deadline), t);
        let (next, item) = timed_dequeue(s, Some(deadline), t);
        lemma_drain(next.drained_one(), errors.push(malformed), deadline, malformed, t);
        lemma_drain(next.drained_one(), errors, deadline, malformed, t);
    }
}

/// The stage `relinquish` only goes on.
pub broadcast proof fn lemma_relinquish<B>(s: State<B>, errors: Seq<Text>, t: Seq<Event<B>>)
    ensures
        goes_on(s, (#[trigger] relinquish(s, errors, t)).0),
        counted(s) ==> counted(relinquish(s, errors, t).0),
        remembered(s) ==> remembered(relinquish(s, errors, t).0),
        s.attempt_open ==> relinquish(s, errors, t).0.attempt_open,
        relinquish(s, errors, t).0.counters.confirmed == s.counters.confirmed,
{
    reveal(goes_on);
    reveal(relinquish);
}

/// The stage `cleanup_authority` only goes on.
pub broadcast proof fn lemma_cleanup_authority<B>(s: State<B>, errors: Seq<Text>, t: Seq<Event<B>>)
    ensures
        goes_on(s, (#[trigger] cleanup_authority(s, errors, t)).0),
        counted(s) ==> counted(cleanup_authority(s, errors, t).0),
        remembered(s) ==> remembered(cleanup_authority(s, errors, t).0),
        s.attempt_open ==> cleanup_authority(s, errors, t).0.attempt_open,
        cleanup_authority(s, errors, t).0.counters.confirmed == s.counters.confirmed,
{
    broadcast use {lemma_relinquish};

    reveal(goes_on);
    reveal(cleanup_authority);
}

/// The stage `cleanup_applied` only goes on.
pub broadcast proof fn lemma_cleanup_applied<B>(
    s: State<B>,
    errors: Seq<Text>,
    required: bool,
    reply: Result<PauseBatchOutcome, BatchFault>,
)
    ensures
        goes_on(s, (#[trigger] cleanup_applied(s, errors, required, reply)).0),
        counted(s) ==> counted(cleanup_applied(s, errors, required, reply).0),
        remembered(s) ==> remembered(cleanup_applied(s, errors, required, reply).0),
        s.attempt_open ==> cleanup_applied(s, errors, required, reply).0.attempt_open,
        cleanup_applied(s, errors, required, reply).0.counters.confirmed == s.counters.confirmed,
{
    reveal(goes_on);
    reveal(cleanup_applied);
    reveal(State::annotating);
}

/// The stage `cleanup_batch` only goes on.
pub broadcast proof fn lemma_cleanup_batch<B>(
    s: State<B>,
    errors: Seq<Text>,
    deadline: u64,
    required: bool,
    t: Seq<Event<B>>,
)
    ensures
        goes_on(s, (#[trigger] cleanup_batch(s, errors, deadline, required, t)).0),
        counted(s) ==> counted(cleanup_batch(s, errors, deadline, required, t).0),
        remembered(s) ==> remembered(cleanup_batch(s, errors, deadline, required, t).0),
        s.attempt_open ==> cleanup_batch(s, errors, deadline, required, t).0.attempt_open,
        cleanup_batch(s, errors, deadline, required, t).0.counters.confirmed
            == s.counters.confirmed,
{
    broadcast use {lemma_cleanup_applied};

    reveal(goes_on);
    reveal(cleanup_batch);
}

/// The stage `cleanup_unvalidated` only goes on.
pub broadcast proof fn lemma_cleanup_unvalidated<B>(s: State<B>, count: u64)
    ensures
        goes_on(s, (#[trigger] cleanup_unvalidated(s, count))),
        counted(s) ==> counted(cleanup_unvalidated(s, count)),
        remembered(s) ==> remembered(cleanup_unvalidated(s, count)),
        s.attempt_open ==> cleanup_unvalidated(s, count).attempt_open,
        cleanup_unvalidated(s, count).counters.confirmed == s.counters.confirmed,
{
    reveal(goes_on);
    reveal(cleanup_unvalidated);
}

/// The stage `cleanup_records` only goes on.
pub broadcast proof fn lemma_cleanup_records<B>(
    s: State<B>,
    errors: Seq<Text>,
    deadline: u64,
    required: bool,
    t: Seq<Event<B>>,
)
    ensures
        goes_on(s, (#[trigger] cleanup_records(s, errors, deadline, required, t)).0),
        counted(s) ==> counted(cleanup_records(s, errors, deadline, required, t).0),
        remembered(s) ==> remembered(cleanup_records(s, errors, deadline, required, t).0),
        s.attempt_open ==> cleanup_records(s, errors, deadline, required, t).0.attempt_open,
        cleanup_records(s, errors, deadline, required, t).0.counters.confirmed
            == s.counters.confirmed,
{
    broadcast use {
        lemma_take_stop_candidate,
        lemma_cleanup_applied,
        lemma_cleanup_batch,
        lemma_cleanup_unvalidated,
    };

    reveal(goes_on);
    reveal(cleanup_records);
}

/// The stage `cleanup_word` only goes on.
pub broadcast proof fn lemma_cleanup_word<B>(s: State<B>, errors: Seq<Text>, t: Seq<Event<B>>)
    ensures
        goes_on(s, (#[trigger] cleanup_word(s, errors, t)).0),
        counted(s) ==> counted(cleanup_word(s, errors, t).0),
        remembered(s) ==> remembered(cleanup_word(s, errors, t).0),
        s.attempt_open ==> cleanup_word(s, errors, t).0.attempt_open,
        cleanup_word(s, errors, t).0.counters.confirmed == s.counters.confirmed,
{
    reveal(goes_on);
    reveal(cleanup_word);
    reveal(State::classified_requested);
    reveal(State::classified_absent);
    reveal(State::classified_armed);
}

/// The stage `cleanup_removal` only goes on.
pub broadcast proof fn lemma_cleanup_removal<B>(s: State<B>, errors: Seq<Text>, t: Seq<Event<B>>)
    ensures
        goes_on(s, (#[trigger] cleanup_removal(s, errors, t)).0),
        counted(s) ==> counted(cleanup_removal(s, errors, t).0),
        remembered(s) ==> remembered(cleanup_removal(s, errors, t).0),
        s.attempt_open ==> cleanup_removal(s, errors, t).0.attempt_open,
        cleanup_removal(s, errors, t).0.counters.confirmed == s.counters.confirmed,
{
    broadcast use {lemma_remove_and_account};

    reveal(goes_on);
    reveal(cleanup_removal);
}

/// The stage `cleanup_resume` only goes on.
pub broadcast proof fn lemma_cleanup_resume<B>(s: State<B>, errors: Seq<Text>, t: Seq<Event<B>>)
    ensures
        goes_on(s, (#[trigger] cleanup_resume(s, errors, t)).0),
        counted(s) ==> counted(cleanup_resume(s, errors, t).0),
        remembered(s) ==> remembered(cleanup_resume(s, errors, t).0),
        s.attempt_open ==> cleanup_resume(s, errors, t).0.attempt_open,
        cleanup_resume(s, errors, t).0.counters.confirmed == s.counters.confirmed,
{
    reveal(goes_on);
    reveal(cleanup_resume);
}

/// The stage `unresolved` only goes on.
pub broadcast proof fn lemma_unresolved<B>(s: State<B>, t: Seq<Event<B>>)
    ensures
        goes_on(s, (#[trigger] unresolved(s, t)).0),
        counted(s) ==> counted(unresolved(s, t).0),
        remembered(s) ==> remembered(unresolved(s, t).0),
        s.attempt_open ==> unresolved(s, t).0.attempt_open,
        unresolved(s, t).0.counters.confirmed == s.counters.confirmed,
{
    reveal(goes_on);
    reveal(unresolved);
}

/// The stage `cleanup_open` only goes on.
pub broadcast proof fn lemma_cleanup_open<B>(s: State<B>, errors: Seq<Text>, required: bool)
    ensures
        goes_on(s, (#[trigger] cleanup_open(s, errors, required)).0),
        counted(s) ==> counted(cleanup_open(s, errors, required).0),
        remembered(s) ==> remembered(cleanup_open(s, errors, required).0),
        s.attempt_open ==> cleanup_open(s, errors, required).0.attempt_open,
        cleanup_open(s, errors, required).0.counters.confirmed == s.counters.confirmed,
{
    reveal(goes_on);
    reveal(cleanup_open);
    reveal(State::annotating);
}

/// The stage `cleanup_closed` only goes on.
pub broadcast proof fn lemma_cleanup_closed<B>(
    s: State<B>,
    errors: Seq<Text>,
    initiating: nat,
    required: bool,
    lifecycle: bool,
)
    ensures
        goes_on(s, (#[trigger] cleanup_closed(s, errors, initiating, required, lifecycle)).0),
        counted(s) ==> counted(cleanup_closed(s, errors, initiating, required, lifecycle).0),
        remembered(s) ==> remembered(cleanup_closed(s, errors, initiating, required, lifecycle).0),
        s.attempt_open
            ==> cleanup_closed(s, errors, initiating, required, lifecycle).0.attempt_open,
        cleanup_closed(s, errors, initiating, required, lifecycle).0.counters.confirmed
            == s.counters.confirmed,
{
    reveal(goes_on);
    reveal(cleanup_closed);
    reveal(State::annotating);
}

/// The stage `cleanup_end` only goes on.
pub broadcast proof fn lemma_cleanup_end<B>(
    s: State<B>,
    errors: Seq<Text>,
    initiating: nat,
    required: bool,
    lifecycle: bool,
    t: Seq<Event<B>>,
)
    ensures
        goes_on(s, (#[trigger] cleanup_end(s, errors, initiating, required, lifecycle, t)).0),
        counted(s) ==> counted(cleanup_end(s, errors, initiating, required, lifecycle, t).0),
        remembered(s) ==> remembered(cleanup_end(s, errors, initiating, required, lifecycle, t).0),
        s.attempt_open
            ==> cleanup_end(s, errors, initiating, required, lifecycle, t).0.attempt_open,
        cleanup_end(s, errors, initiating, required, lifecycle, t).0.counters.confirmed
            == s.counters.confirmed,
{
    broadcast use {lemma_relinquish, lemma_unresolved, lemma_cleanup_open, lemma_cleanup_closed};

    reveal(goes_on);
    reveal(cleanup_end);
}

/// The stage `cleanup_accounts` only goes on.
pub broadcast proof fn lemma_cleanup_accounts<B>(
    s: State<B>,
    errors: Seq<Text>,
    required: bool,
    t: Seq<Event<B>>,
)
    ensures
        goes_on(s, (#[trigger] cleanup_accounts(s, errors, required, t)).0),
        counted(s) ==> counted(cleanup_accounts(s, errors, required, t).0),
        remembered(s) ==> remembered(cleanup_accounts(s, errors, required, t).0),
        s.attempt_open ==> cleanup_accounts(s, errors, required, t).0.attempt_open,
        cleanup_accounts(s, errors, required, t).0.counters.confirmed == s.counters.confirmed,
{
    broadcast use {lemma_failure_bound, lemma_drain, lemma_cleanup_records};

    reveal(goes_on);
    reveal(cleanup_accounts);
}

/// The stage `terminal_cleanup` only goes on.
pub broadcast proof fn lemma_terminal_cleanup<B>(
    s: State<B>,
    errors: Seq<Text>,
    required: bool,
    lifecycle: bool,
    t: Seq<Event<B>>,
)
    ensures
        goes_on(s, (#[trigger] terminal_cleanup(s, errors, required, lifecycle, t)).0),
        counted(s) ==> counted(terminal_cleanup(s, errors, required, lifecycle, t).0),
        remembered(s) ==> remembered(terminal_cleanup(s, errors, required, lifecycle, t).0),
        s.attempt_open ==> terminal_cleanup(s, errors, required, lifecycle, t).0.attempt_open,
        terminal_cleanup(s, errors, required, lifecycle, t).0.counters.confirmed
            == s.counters.confirmed,
{
    broadcast use {
        lemma_cleanup_authority,
        lemma_cleanup_word,
        lemma_cleanup_removal,
        lemma_cleanup_resume,
        lemma_cleanup_end,
        lemma_cleanup_accounts,
    };

    reveal(goes_on);
    reveal(terminal_cleanup);
}

/// The stage `finish_nonconfirmed` only goes on.
pub broadcast proof fn lemma_finish_nonconfirmed<B>(s: State<B>, message: Text)
    ensures
        goes_on(s, (#[trigger] finish_nonconfirmed(s, message)).0),
        counted(s) ==> counted(finish_nonconfirmed(s, message).0),
        remembered(s) ==> remembered(finish_nonconfirmed(s, message).0),
        finish_nonconfirmed(s, message).0.counters.confirmed == s.counters.confirmed,
{
    reveal(goes_on);
    reveal(finish_nonconfirmed);
}

/// The stage `fail_apply` only goes on.
pub broadcast proof fn lemma_fail_apply<B>(
    s: State<B>,
    errors: Seq<Text>,
    deadline: u64,
    t: Seq<Event<B>>,
)
    ensures
        goes_on(s, (#[trigger] fail_apply(s, errors, deadline, t)).0),
        counted(s) ==> counted(fail_apply(s, errors, deadline, t).0),
        remembered(s) ==> remembered(fail_apply(s, errors, deadline, t).0),
        s.attempt_open ==> fail_apply(s, errors, deadline, t).0.attempt_open,
        fail_apply(s, errors, deadline, t).0.counters.confirmed == s.counters.confirmed,
{
    broadcast use {lemma_take_stop_candidate};

    reveal(goes_on);
    reveal(fail_apply);
}

/// The stage `fail_word` only goes on.
pub broadcast proof fn lemma_fail_word<B>(s: State<B>, errors: Seq<Text>, t: Seq<Event<B>>)
    ensures
        goes_on(s, (#[trigger] fail_word(s, errors, t)).0),
        counted(s) ==> counted(fail_word(s, errors, t).0),
        remembered(s) ==> remembered(fail_word(s, errors, t).0),
        s.attempt_open ==> fail_word(s, errors, t).0.attempt_open,
        fail_word(s, errors, t).0.counters.confirmed == s.counters.confirmed,
{
    reveal(goes_on);
    reveal(fail_word);
    reveal(State::classified_requested);
    reveal(State::classified_absent);
    reveal(State::classified_armed);
}

/// The stage `fail_removal` only goes on.
pub broadcast proof fn lemma_fail_removal<B>(s: State<B>, errors: Seq<Text>, t: Seq<Event<B>>)
    ensures
        goes_on(s, (#[trigger] fail_removal(s, errors, t)).0),
        counted(s) ==> counted(fail_removal(s, errors, t).0),
        remembered(s) ==> remembered(fail_removal(s, errors, t).0),
        s.attempt_open ==> fail_removal(s, errors, t).0.attempt_open,
        fail_removal(s, errors, t).0.counters.confirmed == s.counters.confirmed,
{
    broadcast use {lemma_remove_and_account};

    reveal(goes_on);
    reveal(fail_removal);
}

/// The stage `fail_resume` only goes on.
pub broadcast proof fn lemma_fail_resume<B>(s: State<B>, errors: Seq<Text>, t: Seq<Event<B>>)
    ensures
        goes_on(s, (#[trigger] fail_resume(s, errors, t)).0),
        counted(s) ==> counted(fail_resume(s, errors, t).0),
        remembered(s) ==> remembered(fail_resume(s, errors, t).0),
        s.attempt_open ==> fail_resume(s, errors, t).0.attempt_open,
        fail_resume(s, errors, t).0.counters.confirmed == s.counters.confirmed,
{
    reveal(goes_on);
    reveal(fail_resume);
}

/// The stage `fail_work` only goes on.
pub broadcast proof fn lemma_fail_work<B>(s: State<B>, message: Text, t: Seq<Event<B>>)
    ensures
        goes_on(s, (#[trigger] fail_work(s, message, t)).0),
        counted(s) ==> counted(fail_work(s, message, t).0),
        remembered(s) ==> remembered(fail_work(s, message, t).0),
        s.attempt_open ==> fail_work(s, message, t).0.attempt_open,
        fail_work(s, message, t).0.counters.confirmed == s.counters.confirmed,
{
    broadcast use {
        lemma_failure_bound,
        lemma_drain,
        lemma_fail_apply,
        lemma_fail_word,
        lemma_fail_removal,
        lemma_fail_resume,
    };

    reveal(goes_on);
    reveal(fail_work);
}

/// The stage `fail_softly` only goes on.
pub broadcast proof fn lemma_fail_softly<B>(s: State<B>, message: Text, t: Seq<Event<B>>)
    ensures
        goes_on(s, (#[trigger] fail_softly(s, message, t)).0),
        counted(s) ==> counted(fail_softly(s, message, t).0),
        remembered(s) ==> remembered(fail_softly(s, message, t).0),
        fail_softly(s, message, t).0.counters.confirmed == s.counters.confirmed,
{
    broadcast use {lemma_terminal_cleanup, lemma_finish_nonconfirmed, lemma_fail_work};

    reveal(goes_on);
    reveal(fail_softly);
}

/// The stage `fail_reasoned` only goes on.
pub broadcast proof fn lemma_fail_reasoned<B>(s: State<B>, message: Text, lifecycle: bool)
    ensures
        goes_on(s, (#[trigger] fail_reasoned(s, message, lifecycle))),
        counted(s) ==> counted(fail_reasoned(s, message, lifecycle)),
        remembered(s) ==> remembered(fail_reasoned(s, message, lifecycle)),
        s.attempt_open ==> fail_reasoned(s, message, lifecycle).attempt_open,
        fail_reasoned(s, message, lifecycle).counters.confirmed == s.counters.confirmed,
{
    reveal(goes_on);
    reveal(fail_reasoned);
}

/// The stage `fail_cycle` only goes on.
pub broadcast proof fn lemma_fail_cycle<B>(
    s: State<B>,
    message: Text,
    lifecycle: bool,
    t: Seq<Event<B>>,
)
    ensures
        goes_on(s, (#[trigger] fail_cycle(s, message, lifecycle, t)).0),
        counted(s) ==> counted(fail_cycle(s, message, lifecycle, t).0),
        remembered(s) ==> remembered(fail_cycle(s, message, lifecycle, t).0),
        fail_cycle(s, message, lifecycle, t).0.counters.confirmed == s.counters.confirmed,
{
    broadcast use {lemma_terminal_cleanup, lemma_fail_softly, lemma_fail_reasoned};

    reveal(goes_on);
    reveal(fail_cycle);
}

/// The stage `reject_wait` only goes on.
pub broadcast proof fn lemma_reject_wait<B>(
    s: State<B>,
    f: Refusal,
    deadline: u64,
    t: Seq<Event<B>>,
)
    ensures
        goes_on(s, (#[trigger] reject_wait(s, f, deadline, t)).0),
        counted(s) ==> counted(reject_wait(s, f, deadline, t).0),
        remembered(s) ==> remembered(reject_wait(s, f, deadline, t).0),
        s.attempt_open ==> reject_wait(s, f, deadline, t).0.attempt_open,
        reject_wait(s, f, deadline, t).0.counters.confirmed == s.counters.confirmed,
{
    reveal(goes_on);
    reveal(reject_wait);
}

/// The stage `reject_turn` only goes on.
pub broadcast proof fn lemma_reject_turn<B>(
    s: State<B>,
    f: Refusal,
    deadline: u64,
    t: Seq<Event<B>>,
)
    ensures
        goes_on(s, (#[trigger] reject_turn(s, f, deadline, t)).0),
        counted(s) ==> counted(reject_turn(s, f, deadline, t).0),
        remembered(s) ==> remembered(reject_turn(s, f, deadline, t).0),
        s.attempt_open ==> reject_turn(s, f, deadline, t).0.attempt_open,
        reject_turn(s, f, deadline, t).0.counters.confirmed == s.counters.confirmed,
{
    broadcast use {lemma_timed_dequeue, lemma_reject_wait};

    reveal(goes_on);
    reveal(reject_turn);
}

/// The stage `reject_drain` only goes on.
pub broadcast proof fn lemma_reject_drain<B>(
    s: State<B>,
    f: Refusal,
    deadline: u64,
    turns: nat,
    t: Seq<Event<B>>,
)
    ensures
        goes_on(s, (#[trigger] reject_drain(s, f, deadline, turns, t)).0),
        counted(s) ==> counted(reject_drain(s, f, deadline, turns, t).0),
        remembered(s) ==> remembered(reject_drain(s, f, deadline, turns, t).0),
        s.attempt_open ==> reject_drain(s, f, deadline, turns, t).0.attempt_open,
        reject_drain(s, f, deadline, turns, t).0.counters.confirmed == s.counters.confirmed,
    decreases turns,
{
    broadcast use {lemma_reject_turn};

    reveal(goes_on);
    reveal(reject_drain);
    if turns > 0 {
        let (next, g, on) = reject_turn(s, f, deadline, t);
        lemma_reject_drain(next, g, deadline, (turns - 1) as nat, t);
    }
}

/// The stage `reject_generation` only goes on.
pub broadcast proof fn lemma_reject_generation<B>(s: State<B>, f: Refusal, t: Seq<Event<B>>)
    ensures
        goes_on(s, (#[trigger] reject_generation(s, f, t)).0),
        counted(s) ==> counted(reject_generation(s, f, t).0),
        remembered(s) ==> remembered(reject_generation(s, f, t).0),
        s.attempt_open ==> reject_generation(s, f, t).0.attempt_open,
        reject_generation(s, f, t).0.counters.confirmed == s.counters.confirmed,
{
    reveal(goes_on);
    reveal(reject_generation);
}

/// The stage `reject_apply` only goes on.
pub broadcast proof fn lemma_reject_apply<B>(
    s: State<B>,
    f: Refusal,
    deadline: u64,
    t: Seq<Event<B>>,
)
    ensures
        goes_on(s, (#[trigger] reject_apply(s, f, deadline, t)).0),
        counted(s) ==> counted(reject_apply(s, f, deadline, t).0),
        remembered(s) ==> remembered(reject_apply(s, f, deadline, t).0),
        s.attempt_open ==> reject_apply(s, f, deadline, t).0.attempt_open,
        reject_apply(s, f, deadline, t).0.counters.confirmed == s.counters.confirmed,
{
    broadcast use {lemma_reject_generation};

    reveal(goes_on);
    reveal(reject_apply);
}

/// The stage `reject_removal` only goes on.
pub broadcast proof fn lemma_reject_removal<B>(s: State<B>, t: Seq<Event<B>>)
    ensures
        goes_on(s, (#[trigger] reject_removal(s, t)).0),
        counted(s) ==> counted(reject_removal(s, t).0),
        remembered(s) ==> remembered(reject_removal(s, t).0),
        s.attempt_open ==> reject_removal(s, t).0.attempt_open,
        reject_removal(s, t).0.counters.confirmed == s.counters.confirmed,
{
    broadcast use {lemma_remove_and_account};

    reveal(goes_on);
    reveal(reject_removal);
}

/// The stage `reject_end` only goes on.
pub broadcast proof fn lemma_reject_end<B>(s: State<B>, f: Refusal, t: Seq<Event<B>>)
    ensures
        goes_on(s, (#[trigger] reject_end(s, f, t)).0),
        counted(s) ==> counted(reject_end(s, f, t).0),
        remembered(s) ==> remembered(reject_end(s, f, t).0),
        reject_end(s, f, t).0.counters.confirmed == s.counters.confirmed,
{
    broadcast use {lemma_terminal_cleanup, lemma_finish_nonconfirmed};

    reveal(goes_on);
    reveal(reject_end);
}

/// The stage `reject_cycle` only goes on.
pub broadcast proof fn lemma_reject_cycle<B>(s: State<B>, deadline: u64, t: Seq<Event<B>>)
    ensures
        goes_on(s, (#[trigger] reject_cycle(s, deadline, t)).0),
        counted(s) ==> counted(reject_cycle(s, deadline, t).0),
        remembered(s) ==> remembered(reject_cycle(s, deadline, t).0),
        reject_cycle(s, deadline, t).0.counters.confirmed == s.counters.confirmed,
{
    broadcast use {
        lemma_terminal_cleanup,
        lemma_reject_drain,
        lemma_reject_apply,
        lemma_reject_removal,
        lemma_reject_end,
    };

    reveal(goes_on);
    reveal(reject_cycle);
}

/// The stage `check_cancelled` only goes on.
pub broadcast proof fn lemma_check_cancelled<B>(s: State<B>, t: Seq<Event<B>>)
    ensures
        goes_on(s, (#[trigger] check_cancelled(s, t)).0),
        counted(s) ==> counted(check_cancelled(s, t).0),
        remembered(s) ==> remembered(check_cancelled(s, t).0),
        s.attempt_open ==> check_cancelled(s, t).0.attempt_open,
        check_cancelled(s, t).0.counters.confirmed == s.counters.confirmed,
{
    reveal(goes_on);
    reveal(check_cancelled);
}

/// The stage `wait_once` only goes on.
pub broadcast proof fn lemma_wait_once<B>(s: State<B>, t: Seq<Event<B>>)
    ensures
        goes_on(s, (#[trigger] wait_once(s, t)).0),
        counted(s) ==> counted(wait_once(s, t).0),
        remembered(s) ==> remembered(wait_once(s, t).0),
        s.attempt_open ==> wait_once(s, t).0.attempt_open,
        wait_once(s, t).0.counters.confirmed == s.counters.confirmed,
{
    reveal(goes_on);
    reveal(wait_once);
}

/// The stage `check_marker` only goes on.
pub broadcast proof fn lemma_check_marker<B>(s: State<B>, raced: Text, t: Seq<Event<B>>)
    ensures
        goes_on(s, (#[trigger] check_marker(s, raced, t)).0),
        counted(s) ==> counted(check_marker(s, raced, t).0),
        remembered(s) ==> remembered(check_marker(s, raced, t).0),
        s.attempt_open ==> check_marker(s, raced, t).0.attempt_open,
        check_marker(s, raced, t).0.counters.confirmed == s.counters.confirmed,
{
    reveal(goes_on);
    reveal(check_marker);
}

/// The stage `check_empty` only goes on.
pub broadcast proof fn lemma_check_empty<B>(
    s: State<B>,
    deadline: u64,
    found: FaultText,
    t: Seq<Event<B>>,
)
    ensures
        goes_on(s, (#[trigger] check_empty(s, deadline, found, t)).0),
        counted(s) ==> counted(check_empty(s, deadline, found, t).0),
        remembered(s) ==> remembered(check_empty(s, deadline, found, t).0),
        s.attempt_open ==> check_empty(s, deadline, found, t).0.attempt_open,
        check_empty(s, deadline, found, t).0.counters.confirmed == s.counters.confirmed,
{
    broadcast use {lemma_timed_dequeue};

    reveal(goes_on);
    reveal(check_empty);
}

/// The stage `check_stopped` only goes on.
pub broadcast proof fn lemma_check_stopped<B>(s: State<B>, deadline: u64, t: Seq<Event<B>>)
    ensures
        goes_on(s, (#[trigger] check_stopped(s, deadline, t)).0),
        counted(s) ==> counted(check_stopped(s, deadline, t).0),
        remembered(s) ==> remembered(check_stopped(s, deadline, t).0),
        s.attempt_open ==> check_stopped(s, deadline, t).0.attempt_open,
        check_stopped(s, deadline, t).0.counters.confirmed == s.counters.confirmed,
{
    broadcast use {lemma_sample_stopped};

    reveal(goes_on);
    reveal(check_stopped);
}

/// The stage `check_ring` only goes on.
pub broadcast proof fn lemma_check_ring<B>(s: State<B>, t: Seq<Event<B>>)
    ensures
        goes_on(s, (#[trigger] check_ring(s, t)).0),
        counted(s) ==> counted(check_ring(s, t).0),
        remembered(s) ==> remembered(check_ring(s, t).0),
        s.attempt_open ==> check_ring(s, t).0.attempt_open,
        check_ring(s, t).0.counters.confirmed == s.counters.confirmed,
{
    broadcast use {lemma_check_ring_loss};

    reveal(goes_on);
    reveal(check_ring);
}

/// The stage `await_record` only goes on.
pub broadcast proof fn lemma_await_record<B>(
    s: State<B>,
    deadline: u64,
    missing: Text,
    t: Seq<Event<B>>,
)
    ensures
        goes_on(s, (#[trigger] await_record(s, deadline, missing, t)).0),
        counted(s) ==> counted(await_record(s, deadline, missing, t).0),
        remembered(s) ==> remembered(await_record(s, deadline, missing, t).0),
        s.attempt_open ==> await_record(s, deadline, missing, t).0.attempt_open,
        await_record(s, deadline, missing, t).0.counters.confirmed == s.counters.confirmed,
{
    broadcast use {lemma_wait_once};

    reveal(goes_on);
    reveal(await_record);
}

/// The stage `before_winner` only goes on.
pub broadcast proof fn lemma_before_winner<B>(
    s: State<B>,
    next: TimedItem<B>,
    latest_ns: u64,
    deadline: u64,
)
    ensures
        goes_on(s, (#[trigger] before_winner(s, next, latest_ns, deadline)).0),
        counted(s) ==> counted(before_winner(s, next, latest_ns, deadline).0),
        remembered(s) ==> remembered(before_winner(s, next, latest_ns, deadline).0),
        s.attempt_open ==> before_winner(s, next, latest_ns, deadline).0.attempt_open,
        before_winner(s, next, latest_ns, deadline).0.counters.confirmed == s.counters.confirmed,
{
    reveal(goes_on);
    reveal(before_winner);
}

/// The stage `seek_winner` only goes on.
pub broadcast proof fn lemma_seek_winner<B>(
    s: State<B>,
    latest_ns: u64,
    deadline: u64,
    turns: nat,
    t: Seq<Event<B>>,
)
    ensures
        goes_on(s, (#[trigger] seek_winner(s, latest_ns, deadline, turns, t)).0),
        counted(s) ==> counted(seek_winner(s, latest_ns, deadline, turns, t).0),
        remembered(s) ==> remembered(seek_winner(s, latest_ns, deadline, turns, t).0),
        s.attempt_open ==> seek_winner(s, latest_ns, deadline, turns, t).0.attempt_open,
        seek_winner(s, latest_ns, deadline, turns, t).0.counters.confirmed == s.counters.confirmed,
    decreases turns,
{
    broadcast use {lemma_timed_dequeue, lemma_await_record, lemma_before_winner};

    reveal(goes_on);
    reveal(seek_winner);
    if turns > 0 {
        let (next, item) = timed_dequeue(s, Some(deadline), t);
        let (waited, _) = await_record(next, deadline, "coalesced record had no winner"@, t);
        lemma_seek_winner(waited, latest_ns, deadline, (turns - 1) as nat, t);
        if let Ok(Some(found)) = item {
            let (after, _) = before_winner(next, found, latest_ns, deadline);
            lemma_seek_winner(after, later(found, latest_ns), deadline, (turns - 1) as nat, t);
        }
    }
}

/// The stage `coalesced_first` only goes on.
pub broadcast proof fn lemma_coalesced_first<B>(
    s: State<B>,
    received: TimedItem<B>,
    first: DiscoveryRecord,
    t: Seq<Event<B>>,
)
    ensures
        goes_on(s, (#[trigger] coalesced_first(s, received, first, t)).0),
        counted(s) ==> counted(coalesced_first(s, received, first, t).0),
        remembered(s) ==> remembered(coalesced_first(s, received, first, t).0),
        s.attempt_open ==> coalesced_first(s, received, first, t).0.attempt_open,
        coalesced_first(s, received, first, t).0.counters.confirmed == s.counters.confirmed,
{
    broadcast use {lemma_seek_winner};

    reveal(goes_on);
    reveal(coalesced_first);
}

/// The stage `find_winner` only goes on.
pub broadcast proof fn lemma_find_winner<B>(
    s: State<B>,
    received: TimedItem<B>,
    first: DiscoveryRecord,
    t: Seq<Event<B>>,
)
    ensures
        goes_on(s, (#[trigger] find_winner(s, received, first, t)).0),
        counted(s) ==> counted(find_winner(s, received, first, t).0),
        remembered(s) ==> remembered(find_winner(s, received, first, t).0),
        s.attempt_open ==> find_winner(s, received, first, t).0.attempt_open,
        find_winner(s, received, first, t).0.counters.confirmed == s.counters.confirmed,
{
    broadcast use {lemma_coalesced_first};

    reveal(goes_on);
    reveal(find_winner);
}

/// The stage `judge_taken` only goes on.
pub broadcast proof fn lemma_judge_taken<B>(s: State<B>, w: Winner<B>)
    ensures
        goes_on(s, (#[trigger] judge_taken(s, w)).0),
        counted(s) ==> counted(judge_taken(s, w).0),
        remembered(s) ==> remembered(judge_taken(s, w).0),
        s.attempt_open ==> judge_taken(s, w).0.attempt_open,
        judge_taken(s, w).0.counters.confirmed == s.counters.confirmed,
{
    reveal(goes_on);
    reveal(judge_taken);
}

/// The stage `judge_winner` only goes on.
pub broadcast proof fn lemma_judge_winner<B>(s: State<B>, w: Winner<B>)
    ensures
        goes_on(s, (#[trigger] judge_winner(s, w)).0),
        counted(s) ==> counted(judge_winner(s, w).0),
        remembered(s) ==> remembered(judge_winner(s, w).0),
        s.attempt_open ==> judge_winner(s, w).0.attempt_open,
        judge_winner(s, w).0.counters.confirmed == s.counters.confirmed,
{
    broadcast use {lemma_judge_taken};

    reveal(goes_on);
    reveal(judge_winner);
}

/// The stage `ring_intact` only goes on.
pub broadcast proof fn lemma_ring_intact<B>(s: State<B>, t: Seq<Event<B>>)
    ensures
        goes_on(s, (#[trigger] ring_intact(s, t)).0),
        counted(s) ==> counted(ring_intact(s, t).0),
        remembered(s) ==> remembered(ring_intact(s, t).0),
        s.attempt_open ==> ring_intact(s, t).0.attempt_open,
        ring_intact(s, t).0.counters.confirmed == s.counters.confirmed,
{
    reveal(goes_on);
    reveal(ring_intact);
}

/// The stage `confirm_stopped` only goes on.
pub broadcast proof fn lemma_confirm_stopped<B>(s: State<B>, deadline: u64, t: Seq<Event<B>>)
    ensures
        goes_on(s, (#[trigger] confirm_stopped(s, deadline, t)).0),
        counted(s) ==> counted(confirm_stopped(s, deadline, t).0),
        remembered(s) ==> remembered(confirm_stopped(s, deadline, t).0),
        s.attempt_open ==> confirm_stopped(s, deadline, t).0.attempt_open,
        confirm_stopped(s, deadline, t).0.counters.confirmed == s.counters.confirmed,
{
    broadcast use {lemma_check_cancelled, lemma_wait_once, lemma_check_stopped};

    reveal(goes_on);
    reveal(confirm_stopped);
}

/// The stage `causal_drain` only goes on.
pub broadcast proof fn lemma_causal_drain<B>(
    s: State<B>,
    deadline: u64,
    turns: nat,
    t: Seq<Event<B>>,
)
    ensures
        goes_on(s, (#[trigger] causal_drain(s, deadline, turns, t)).0),
        counted(s) ==> counted(causal_drain(s, deadline, turns, t).0),
        remembered(s) ==> remembered(causal_drain(s, deadline, turns, t).0),
        s.attempt_open ==> causal_drain(s, deadline, turns, t).0.attempt_open,
        causal_drain(s, deadline, turns, t).0.counters.confirmed == s.counters.confirmed,
    decreases turns,
{
    broadcast use {lemma_timed_dequeue};

    reveal(goes_on);
    reveal(causal_drain);
    if turns > 0 {
        let (next, _) = timed_dequeue(s, Some(deadline), t);
        lemma_causal_drain(next, deadline, (turns - 1) as nat, t);
    }
}

/// The stage `apply_frozen` only goes on.
pub broadcast proof fn lemma_apply_frozen<B>(s: State<B>, deadline: u64, t: Seq<Event<B>>)
    ensures
        goes_on(s, (#[trigger] apply_frozen(s, deadline, t)).0),
        counted(s) ==> counted(apply_frozen(s, deadline, t).0),
        remembered(s) ==> remembered(apply_frozen(s, deadline, t).0),
        s.attempt_open ==> apply_frozen(s, deadline, t).0.attempt_open,
        apply_frozen(s, deadline, t).0.counters.confirmed == s.counters.confirmed,
{
    broadcast use {lemma_take_stop_candidate};

    reveal(goes_on);
    reveal(apply_frozen);
}

/// The stage `attach_frozen` only goes on.
pub broadcast proof fn lemma_attach_frozen<B>(s: State<B>, deadline: u64, t: Seq<Event<B>>)
    ensures
        goes_on(s, (#[trigger] attach_frozen(s, deadline, t)).0),
        counted(s) ==> counted(attach_frozen(s, deadline, t).0),
        remembered(s) ==> remembered(attach_frozen(s, deadline, t).0),
        s.attempt_open ==> attach_frozen(s, deadline, t).0.attempt_open,
        attach_frozen(s, deadline, t).0.counters.confirmed == s.counters.confirmed,
{
    broadcast use {lemma_check_marker, lemma_check_ring, lemma_causal_drain, lemma_apply_frozen};

    reveal(goes_on);
    reveal(attach_frozen);
}

/// The stage `still_quiet` only goes on.
pub broadcast proof fn lemma_still_quiet<B>(
    s: State<B>,
    deadline: u64,
    raced: Text,
    found: FaultText,
    t: Seq<Event<B>>,
)
    ensures
        goes_on(s, (#[trigger] still_quiet(s, deadline, raced, found, t)).0),
        counted(s) ==> counted(still_quiet(s, deadline, raced, found, t).0),
        remembered(s) ==> remembered(still_quiet(s, deadline, raced, found, t).0),
        s.attempt_open ==> still_quiet(s, deadline, raced, found, t).0.attempt_open,
        still_quiet(s, deadline, raced, found, t).0.counters.confirmed == s.counters.confirmed,
{
    broadcast use {lemma_wait_once, lemma_check_marker, lemma_check_empty, lemma_check_stopped};

    reveal(goes_on);
    reveal(still_quiet);
}

/// The stage `retire_authorization` only goes on.
pub broadcast proof fn lemma_retire_authorization<B>(s: State<B>, t: Seq<Event<B>>)
    ensures
        goes_on(s, (#[trigger] retire_authorization(s, t)).0),
        counted(s) ==> counted(retire_authorization(s, t).0),
        remembered(s) ==> remembered(retire_authorization(s, t).0),
        s.attempt_open ==> retire_authorization(s, t).0.attempt_open,
        retire_authorization(s, t).0.counters.confirmed == s.counters.confirmed,
{
    broadcast use {lemma_remove_and_account};

    reveal(goes_on);
    reveal(retire_authorization);
}

/// The stage `arm_successor` only goes on.
pub broadcast proof fn lemma_arm_successor<B>(s: State<B>, t: Seq<Event<B>>)
    ensures
        goes_on(s, (#[trigger] arm_successor(s, t)).0),
        counted(s) ==> counted(arm_successor(s, t).0),
        remembered(s) ==> remembered(arm_successor(s, t).0),
        s.attempt_open ==> arm_successor(s, t).0.attempt_open,
        arm_successor(s, t).0.counters.confirmed == s.counters.confirmed,
{
    reveal(goes_on);
    reveal(arm_successor);
}

/// The stage `install_successor` only goes on.
pub broadcast proof fn lemma_install_successor<B>(s: State<B>, deadline: u64, t: Seq<Event<B>>)
    ensures
        goes_on(s, (#[trigger] install_successor(s, deadline, t)).0),
        counted(s) ==> counted(install_successor(s, deadline, t).0),
        remembered(s) ==> remembered(install_successor(s, deadline, t).0),
        s.attempt_open ==> install_successor(s, deadline, t).0.attempt_open,
        install_successor(s, deadline, t).0.counters.confirmed == s.counters.confirmed,
{
    broadcast use {lemma_still_quiet, lemma_retire_authorization, lemma_arm_successor};

    reveal(goes_on);
    reveal(install_successor);
}

/// The stage `hand_over` only goes on.
pub broadcast proof fn lemma_hand_over<B>(
    s: State<B>,
    deadline: u64,
    successor: bool,
    t: Seq<Event<B>>,
)
    ensures
        goes_on(s, (#[trigger] hand_over(s, deadline, successor, t)).0),
        counted(s) ==> counted(hand_over(s, deadline, successor, t).0),
        remembered(s) ==> remembered(hand_over(s, deadline, successor, t).0),
        s.attempt_open ==> hand_over(s, deadline, successor, t).0.attempt_open,
        hand_over(s, deadline, successor, t).0.counters.confirmed == s.counters.confirmed,
{
    broadcast use {lemma_retire_authorization, lemma_install_successor};

    reveal(goes_on);
    reveal(hand_over);
}

/// The stage `resume_child` only goes on.
pub broadcast proof fn lemma_resume_child<B>(
    s: State<B>,
    deadline: u64,
    successor: bool,
    t: Seq<Event<B>>,
)
    ensures
        goes_on(s, (#[trigger] resume_child(s, deadline, successor, t)).0),
        counted(s) ==> counted(resume_child(s, deadline, successor, t).0),
        remembered(s) ==> remembered(resume_child(s, deadline, successor, t).0),
        s.attempt_open ==> resume_child(s, deadline, successor, t).0.attempt_open,
        resume_child(s, deadline, successor, t).0.counters.confirmed == s.counters.confirmed,
{
    broadcast use {lemma_observe_resumed};

    reveal(goes_on);
    reveal(resume_child);
}

/// The stage `release` only goes on.
pub broadcast proof fn lemma_release<B>(
    s: State<B>,
    deadline: u64,
    successor: bool,
    t: Seq<Event<B>>,
)
    ensures
        goes_on(s, (#[trigger] release(s, deadline, successor, t)).0),
        counted(s) ==> counted(release(s, deadline, successor, t).0),
        remembered(s) ==> remembered(release(s, deadline, successor, t).0),
        s.attempt_open ==> release(s, deadline, successor, t).0.attempt_open,
        release(s, deadline, successor, t).0.counters.confirmed == s.counters.confirmed,
{
    broadcast use {lemma_check_cancelled, lemma_check_ring, lemma_resume_child};

    reveal(goes_on);
    reveal(release);
}

/// The stage `freeze` only goes on.
pub broadcast proof fn lemma_freeze<B>(s: State<B>, deadline: u64, t: Seq<Event<B>>)
    ensures
        goes_on(s, (#[trigger] freeze(s, deadline, t)).0),
        counted(s) ==> counted(freeze(s, deadline, t).0),
        remembered(s) ==> remembered(freeze(s, deadline, t).0),
        s.attempt_open ==> freeze(s, deadline, t).0.attempt_open,
        freeze(s, deadline, t).0.counters.confirmed == s.counters.confirmed,
{
    broadcast use {
        lemma_ring_intact,
        lemma_confirm_stopped,
        lemma_attach_frozen,
        lemma_still_quiet,
    };

    reveal(goes_on);
    reveal(freeze);
}

/// The stage `thaw` only goes on.
pub broadcast proof fn lemma_thaw<B>(s: State<B>, deadline: u64, count: usize, t: Seq<Event<B>>)
    ensures
        goes_on(s, (#[trigger] thaw(s, deadline, count, t)).0),
        s.attempt_open && counted(s) ==> counted(thaw(s, deadline, count, t).0),
        remembered(s) ==> remembered(thaw(s, deadline, count, t).0),
        thaw(s, deadline, count, t).1 is Err ==> thaw(s, deadline, count, t).0.counters.confirmed
            == s.counters.confirmed,
{
    broadcast use {lemma_hand_over, lemma_release};

    reveal(goes_on);
    reveal(thaw);
}

/// The stage `accepted_cycle` only goes on.
pub broadcast proof fn lemma_accepted_cycle<B>(s: State<B>, deadline: u64, t: Seq<Event<B>>)
    ensures
        goes_on(s, (#[trigger] accepted_cycle(s, deadline, t)).0),
        s.attempt_open && counted(s) ==> counted(accepted_cycle(s, deadline, t).0),
        remembered(s) ==> remembered(accepted_cycle(s, deadline, t).0),
        accepted_cycle(s, deadline, t).1 is Err
            ==> accepted_cycle(s, deadline, t).0.counters.confirmed
            == s.counters.confirmed,
{
    broadcast use {lemma_freeze, lemma_thaw};

    reveal(goes_on);
    reveal(accepted_cycle);
}

/// The stage `unarmed` only goes on.
pub broadcast proof fn lemma_unarmed<B>(s: State<B>, first: DiscoveryRecord, t: Seq<Event<B>>)
    ensures
        goes_on(s, (#[trigger] unarmed(s, first, t)).0),
        counted(s) ==> counted(unarmed(s, first, t).0),
        remembered(s) ==> remembered(unarmed(s, first, t).0),
        s.attempt_open ==> unarmed(s, first, t).0.attempt_open,
        unarmed(s, first, t).0.counters.confirmed == s.counters.confirmed,
{
    broadcast use {lemma_apply_unowned};

    reveal(goes_on);
    reveal(unarmed);
}

/// The stage `look_at` only goes on.
pub broadcast proof fn lemma_look_at<B>(s: State<B>, item: DiscoveryItem, t: Seq<Event<B>>)
    ensures
        goes_on(s, (#[trigger] look_at(s, item, t)).0),
        counted(s) ==> counted(look_at(s, item, t).0),
        remembered(s) ==> remembered(look_at(s, item, t).0),
        s.attempt_open ==> look_at(s, item, t).0.attempt_open,
        look_at(s, item, t).0.counters.confirmed == s.counters.confirmed,
{
    broadcast use {lemma_check_cancelled, lemma_unarmed};

    reveal(goes_on);
    reveal(look_at);
}

/// The stage `take_in` only goes on.
pub broadcast proof fn lemma_take_in<B>(
    s: State<B>,
    batch: Option<B>,
    after_ns: u64,
    item: DiscoveryItem,
    t: Seq<Event<B>>,
)
    ensures
        goes_on(s, (#[trigger] take_in(s, batch, after_ns, item, t)).0),
        counted(s) ==> counted(take_in(s, batch, after_ns, item, t).0),
        remembered(s) ==> remembered(take_in(s, batch, after_ns, item, t).0),
        s.attempt_open ==> take_in(s, batch, after_ns, item, t).0.attempt_open,
        take_in(s, batch, after_ns, item, t).0.counters.confirmed == s.counters.confirmed,
{
    broadcast use {lemma_take_stop_candidate, lemma_look_at};

    reveal(goes_on);
    reveal(take_in);
}

/// The stage `open_epoch` only goes on.
pub broadcast proof fn lemma_open_epoch<B>(s: State<B>, t: Seq<Event<B>>)
    ensures
        goes_on(s, (#[trigger] open_epoch(s, t)).0),
        counted(s) ==> counted(open_epoch(s, t).0),
        remembered(s) ==> remembered(open_epoch(s, t).0),
        s.attempt_open ==> open_epoch(s, t).0.attempt_open,
        open_epoch(s, t).0.counters.confirmed == s.counters.confirmed,
        open_epoch(s, t).1 is Begun ==> open_epoch(s, t).0.attempt_open,
{
    broadcast use {lemma_apply_unowned};

    reveal(goes_on);
    reveal(open_epoch);
}

/// The stage `cycle` only goes on.
pub broadcast proof fn lemma_cycle<B>(
    s: State<B>,
    received: TimedItem<B>,
    first: DiscoveryRecord,
    t: Seq<Event<B>>,
)
    ensures
        goes_on(s, (#[trigger] cycle(s, received, first, t)).0),
        counted(s) ==> counted(cycle(s, received, first, t).0),
        remembered(s) ==> remembered(cycle(s, received, first, t).0),
{
    broadcast use {lemma_find_winner, lemma_judge_winner, lemma_accepted_cycle, lemma_open_epoch};

    reveal(goes_on);
    reveal(cycle);
}

/// The stage `serve_candidate` only goes on.
pub broadcast proof fn lemma_serve_candidate<B>(
    s: State<B>,
    received: TimedItem<B>,
    first: DiscoveryRecord,
    t: Seq<Event<B>>,
)
    ensures
        goes_on(s, (#[trigger] serve_candidate(s, received, first, t)).0),
        counted(s) ==> counted(serve_candidate(s, received, first, t).0),
        remembered(s) ==> remembered(serve_candidate(s, received, first, t).0),
{
    broadcast use {lemma_fail_cycle, lemma_reject_cycle, lemma_cycle};

    reveal(goes_on);
    reveal(serve_candidate);
}

/// The stage `stale_applied` only goes on.
pub broadcast proof fn lemma_stale_applied<B>(s: State<B>, deadline: u64, t: Seq<Event<B>>)
    ensures
        goes_on(s, (#[trigger] stale_applied(s, deadline, t)).0),
        counted(s) ==> counted(stale_applied(s, deadline, t).0),
        remembered(s) ==> remembered(stale_applied(s, deadline, t).0),
        s.attempt_open ==> stale_applied(s, deadline, t).0.attempt_open,
        stale_applied(s, deadline, t).0.counters.confirmed == s.counters.confirmed,
{
    reveal(goes_on);
    reveal(stale_applied);
}

/// The stage `stale_word` only goes on.
pub broadcast proof fn lemma_stale_word<B>(s: State<B>, t: Seq<Event<B>>)
    ensures
        goes_on(s, (#[trigger] stale_word(s, t)).0),
        counted(s) ==> counted(stale_word(s, t).0),
        remembered(s) ==> remembered(stale_word(s, t).0),
        s.attempt_open ==> stale_word(s, t).0.attempt_open,
        stale_word(s, t).0.counters.confirmed == s.counters.confirmed,
{
    broadcast use {lemma_apply_unowned, lemma_stale_applied};

    reveal(goes_on);
    reveal(stale_word);
}

/// The stage `requested_item` only goes on.
pub broadcast proof fn lemma_requested_item<B>(s: State<B>, deadline: u64, t: Seq<Event<B>>)
    ensures
        goes_on(s, (#[trigger] requested_item(s, deadline, t)).0),
        counted(s) ==> counted(requested_item(s, deadline, t).0),
        remembered(s) ==> remembered(requested_item(s, deadline, t).0),
        s.attempt_open ==> requested_item(s, deadline, t).0.attempt_open,
        requested_item(s, deadline, t).0.counters.confirmed == s.counters.confirmed,
{
    broadcast use {lemma_timed_dequeue, lemma_apply_unowned, lemma_await_record};

    reveal(goes_on);
    reveal(requested_item);
}

/// The stage `requested_turn` only goes on.
pub broadcast proof fn lemma_requested_turn<B>(s: State<B>, deadline: u64, t: Seq<Event<B>>)
    ensures
        goes_on(s, (#[trigger] requested_turn(s, deadline, t)).0),
        counted(s) ==> counted(requested_turn(s, deadline, t).0),
        remembered(s) ==> remembered(requested_turn(s, deadline, t).0),
        s.attempt_open ==> requested_turn(s, deadline, t).0.attempt_open,
        requested_turn(s, deadline, t).0.counters.confirmed == s.counters.confirmed,
{
    broadcast use {lemma_check_cancelled, lemma_check_ring, lemma_requested_item};

    reveal(goes_on);
    reveal(requested_turn);
}

/// The stage `await_request` only goes on.
pub broadcast proof fn lemma_await_request<B>(
    s: State<B>,
    deadline: u64,
    turns: nat,
    t: Seq<Event<B>>,
)
    ensures
        goes_on(s, (#[trigger] await_request(s, deadline, turns, t)).0),
        counted(s) ==> counted(await_request(s, deadline, turns, t).0),
        remembered(s) ==> remembered(await_request(s, deadline, turns, t).0),
        s.attempt_open ==> await_request(s, deadline, turns, t).0.attempt_open,
        await_request(s, deadline, turns, t).0.counters.confirmed == s.counters.confirmed,
    decreases turns,
{
    broadcast use {lemma_requested_turn};

    reveal(goes_on);
    reveal(await_request);
    if turns > 0 {
        let (next, _) = requested_turn(s, deadline, t);
        lemma_await_request(next, deadline, (turns - 1) as nat, t);
    }
}

/// The stage `seek_request` only goes on.
pub broadcast proof fn lemma_seek_request<B>(s: State<B>, fixed: u64, t: Seq<Event<B>>)
    ensures
        goes_on(s, (#[trigger] seek_request(s, fixed, t)).0),
        counted(s) ==> counted(seek_request(s, fixed, t).0),
        remembered(s) ==> remembered(seek_request(s, fixed, t).0),
        s.attempt_open ==> seek_request(s, fixed, t).0.attempt_open,
        seek_request(s, fixed, t).0.counters.confirmed == s.counters.confirmed,
{
    broadcast use {lemma_apply_unowned, lemma_await_request};

    reveal(goes_on);
    reveal(seek_request);
}

/// The stage `serve_fresh` only goes on.
pub broadcast proof fn lemma_serve_fresh<B>(s: State<B>, received: TimedItem<B>, t: Seq<Event<B>>)
    ensures
        goes_on(s, (#[trigger] serve_fresh(s, received, t)).0),
        counted(s) ==> counted(serve_fresh(s, received, t).0),
        remembered(s) ==> remembered(serve_fresh(s, received, t).0),
{
    broadcast use {lemma_fail_cycle, lemma_take_in, lemma_serve_candidate};

    reveal(goes_on);
    reveal(serve_fresh);
}

/// The stage `service_requested` only goes on.
pub broadcast proof fn lemma_service_requested<B>(s: State<B>, fixed: u64, t: Seq<Event<B>>)
    ensures
        goes_on(s, (#[trigger] service_requested(s, fixed, t)).0),
        counted(s) ==> counted(service_requested(s, fixed, t).0),
        remembered(s) ==> remembered(service_requested(s, fixed, t).0),
{
    broadcast use {lemma_fail_cycle, lemma_seek_request, lemma_serve_fresh};

    reveal(goes_on);
    reveal(service_requested);
}

/// The stage `serve_stale` only goes on.
pub broadcast proof fn lemma_serve_stale<B>(s: State<B>, t: Seq<Event<B>>)
    ensures
        goes_on(s, (#[trigger] serve_stale(s, t)).0),
        counted(s) ==> counted(serve_stale(s, t).0),
        remembered(s) ==> remembered(serve_stale(s, t).0),
{
    broadcast use {lemma_fail_cycle, lemma_stale_word, lemma_service_requested};

    reveal(goes_on);
    reveal(serve_stale);
}

/// The stage `service_received` only goes on.
pub broadcast proof fn lemma_service_received<B>(
    s: State<B>,
    received: TimedItem<B>,
    t: Seq<Event<B>>,
)
    ensures
        goes_on(s, (#[trigger] service_received(s, received, t)).0),
        counted(s) ==> counted(service_received(s, received, t).0),
        remembered(s) ==> remembered(service_received(s, received, t).0),
{
    broadcast use {lemma_fail_cycle, lemma_take_in, lemma_serve_candidate, lemma_serve_stale};

    reveal(goes_on);
    reveal(service_received);
}

/// The stage `serve_word` only goes on.
pub broadcast proof fn lemma_serve_word<B>(s: State<B>, t: Seq<Event<B>>)
    ensures
        goes_on(s, (#[trigger] serve_word(s, t)).0),
        counted(s) ==> counted(serve_word(s, t).0),
        remembered(s) ==> remembered(serve_word(s, t).0),
{
    broadcast use {lemma_fail_cycle, lemma_service_requested};

    reveal(goes_on);
    reveal(serve_word);
}

/// The stage `serve_empty` only goes on.
pub broadcast proof fn lemma_serve_empty<B>(s: State<B>, t: Seq<Event<B>>)
    ensures
        goes_on(s, (#[trigger] serve_empty(s, t)).0),
        counted(s) ==> counted(serve_empty(s, t).0),
        remembered(s) ==> remembered(serve_empty(s, t).0),
{
    broadcast use {lemma_fail_cycle, lemma_serve_word};

    reveal(goes_on);
    reveal(serve_empty);
}

/// The stage `service` only goes on.
pub broadcast proof fn lemma_service<B>(s: State<B>, t: Seq<Event<B>>)
    ensures
        goes_on(s, (#[trigger] service(s, t)).0),
        counted(s) ==> counted(service(s, t).0),
        remembered(s) ==> remembered(service(s, t).0),
{
    broadcast use {
        lemma_timed_dequeue,
        lemma_fail_cycle,
        lemma_service_received,
        lemma_serve_empty,
    };

    reveal(goes_on);
    reveal(service);
}

/// The stage `service_deferred` only goes on.
pub broadcast proof fn lemma_service_deferred<B>(
    s: State<B>,
    received: TimedItem<B>,
    t: Seq<Event<B>>,
)
    ensures
        goes_on(s, (#[trigger] service_deferred(s, received, t)).0),
        counted(s) ==> counted(service_deferred(s, received, t).0),
        remembered(s) ==> remembered(service_deferred(s, received, t).0),
{
    broadcast use {lemma_service_received};

    reveal(goes_on);
    reveal(service_deferred);
}

/// The stage `arm_failed` only goes on.
pub broadcast proof fn lemma_arm_failed<B>(s: State<B>, message: Text, t: Seq<Event<B>>)
    ensures
        goes_on(s, (#[trigger] arm_failed(s, message, t)).0),
        counted(s) ==> counted(arm_failed(s, message, t).0),
        remembered(s) ==> remembered(arm_failed(s, message, t).0),
        arm_failed(s, message, t).0.counters.confirmed == s.counters.confirmed,
{
    broadcast use {lemma_terminal_cleanup};

    reveal(goes_on);
    reveal(arm_failed);
}

/// The stage `arm_cleanup_failed` only goes on.
pub broadcast proof fn lemma_arm_cleanup_failed<B>(
    s: State<B>,
    message: Text,
    lifecycle: bool,
    t: Seq<Event<B>>,
)
    ensures
        goes_on(s, (#[trigger] arm_cleanup_failed(s, message, lifecycle, t)).0),
        counted(s) ==> counted(arm_cleanup_failed(s, message, lifecycle, t).0),
        remembered(s) ==> remembered(arm_cleanup_failed(s, message, lifecycle, t).0),
        arm_cleanup_failed(s, message, lifecycle, t).0.counters.confirmed == s.counters.confirmed,
{
    broadcast use {lemma_fail_cycle};

    reveal(goes_on);
    reveal(arm_cleanup_failed);
}

/// The stage `arm_unread` only goes on.
pub broadcast proof fn lemma_arm_unread<B>(s: State<B>, message: Text, t: Seq<Event<B>>)
    ensures
        goes_on(s, (#[trigger] arm_unread(s, message, t)).0),
        counted(s) ==> counted(arm_unread(s, message, t).0),
        remembered(s) ==> remembered(arm_unread(s, message, t).0),
        arm_unread(s, message, t).0.counters.confirmed == s.counters.confirmed,
{
    broadcast use {lemma_fail_cycle};

    reveal(goes_on);
    reveal(arm_unread);
}

/// The stage `arm_exchange` only goes on.
pub broadcast proof fn lemma_arm_exchange<B>(s: State<B>, t: Seq<Event<B>>)
    ensures
        goes_on(s, (#[trigger] arm_exchange(s, t)).0),
        counted(s) ==> counted(arm_exchange(s, t).0),
        remembered(s) ==> remembered(arm_exchange(s, t).0),
        arm_exchange(s, t).0.counters.confirmed == s.counters.confirmed,
{
    broadcast use {lemma_arm_cleanup_failed};

    reveal(goes_on);
    reveal(arm_exchange);
}

/// The stage `arm` only goes on.
pub broadcast proof fn lemma_arm<B>(s: State<B>, t: Seq<Event<B>>)
    ensures
        goes_on(s, (#[trigger] arm(s, t)).0),
        counted(s) ==> counted(arm(s, t).0),
        remembered(s) ==> remembered(arm(s, t).0),
        arm(s, t).0.counters.confirmed == s.counters.confirmed,
{
    broadcast use {lemma_arm_failed, lemma_arm_unread, lemma_arm_exchange};

    reveal(goes_on);
    reveal(arm);
}

/// The stage `revalidate_incomplete` only goes on.
pub broadcast proof fn lemma_revalidate_incomplete<B>(s: State<B>, t: Seq<Event<B>>)
    ensures
        goes_on(s, (#[trigger] revalidate_incomplete(s, t)).0),
        counted(s) ==> counted(revalidate_incomplete(s, t).0),
        remembered(s) ==> remembered(revalidate_incomplete(s, t).0),
        revalidate_incomplete(s, t).0.counters.confirmed == s.counters.confirmed,
{
    broadcast use {lemma_fail_cycle};

    reveal(goes_on);
    reveal(revalidate_incomplete);
}

/// The stage `revalidate_turn` only goes on.
pub broadcast proof fn lemma_revalidate_turn<B>(s: State<B>, t: Seq<Event<B>>)
    ensures
        goes_on(s, (#[trigger] revalidate_turn(s, t)).0),
        counted(s) ==> counted(revalidate_turn(s, t).0),
        remembered(s) ==> remembered(revalidate_turn(s, t).0),
{
    broadcast use {lemma_fail_cycle, lemma_service_deferred, lemma_revalidate_incomplete};

    reveal(goes_on);
    reveal(revalidate_turn);
}

/// The stage `revalidate` only goes on.
pub broadcast proof fn lemma_revalidate<B>(s: State<B>, turns: nat, t: Seq<Event<B>>)
    ensures
        goes_on(s, (#[trigger] revalidate(s, turns, t)).0),
        counted(s) ==> counted(revalidate(s, turns, t).0),
        remembered(s) ==> remembered(revalidate(s, turns, t).0),
    decreases turns,
{
    broadcast use {lemma_revalidate_turn};

    reveal(goes_on);
    reveal(revalidate);
    if turns > 0 {
        let (next, _) = revalidate_turn(s, t);
        lemma_revalidate(next, (turns - 1) as nat, t);
    }
}

pub broadcast group group_progress {
    lemma_close_dequeue,
    lemma_keep_dequeued,
    lemma_timed_dequeue,
    lemma_check_ring_loss,
    lemma_remove_and_account,
    lemma_sample_stopped,
    lemma_take_stop_candidate,
    lemma_apply_unowned,
    lemma_failure_bound,
    lemma_within,
    lemma_observe_tasks,
    lemma_observe_resting,
    lemma_observe_turn,
    lemma_observe_resumed,
    lemma_drain,
    lemma_relinquish,
    lemma_cleanup_authority,
    lemma_cleanup_applied,
    lemma_cleanup_batch,
    lemma_cleanup_unvalidated,
    lemma_cleanup_records,
    lemma_cleanup_word,
    lemma_cleanup_removal,
    lemma_cleanup_resume,
    lemma_unresolved,
    lemma_cleanup_open,
    lemma_cleanup_closed,
    lemma_cleanup_end,
    lemma_cleanup_accounts,
    lemma_terminal_cleanup,
    lemma_finish_nonconfirmed,
    lemma_fail_apply,
    lemma_fail_word,
    lemma_fail_removal,
    lemma_fail_resume,
    lemma_fail_work,
    lemma_fail_softly,
    lemma_fail_reasoned,
    lemma_fail_cycle,
    lemma_reject_wait,
    lemma_reject_turn,
    lemma_reject_drain,
    lemma_reject_generation,
    lemma_reject_apply,
    lemma_reject_removal,
    lemma_reject_end,
    lemma_reject_cycle,
    lemma_check_cancelled,
    lemma_wait_once,
    lemma_check_marker,
    lemma_check_empty,
    lemma_check_stopped,
    lemma_check_ring,
    lemma_await_record,
    lemma_before_winner,
    lemma_seek_winner,
    lemma_coalesced_first,
    lemma_find_winner,
    lemma_judge_taken,
    lemma_judge_winner,
    lemma_ring_intact,
    lemma_confirm_stopped,
    lemma_causal_drain,
    lemma_apply_frozen,
    lemma_attach_frozen,
    lemma_still_quiet,
    lemma_retire_authorization,
    lemma_arm_successor,
    lemma_install_successor,
    lemma_hand_over,
    lemma_resume_child,
    lemma_release,
    lemma_freeze,
    lemma_thaw,
    lemma_accepted_cycle,
    lemma_unarmed,
    lemma_look_at,
    lemma_take_in,
    lemma_open_epoch,
    lemma_cycle,
    lemma_serve_candidate,
    lemma_stale_applied,
    lemma_stale_word,
    lemma_requested_item,
    lemma_requested_turn,
    lemma_await_request,
    lemma_seek_request,
    lemma_serve_fresh,
    lemma_service_requested,
    lemma_serve_stale,
    lemma_service_received,
    lemma_serve_word,
    lemma_serve_empty,
    lemma_service,
    lemma_service_deferred,
    lemma_arm_failed,
    lemma_arm_cleanup_failed,
    lemma_arm_unread,
    lemma_arm_exchange,
    lemma_arm,
    lemma_revalidate_incomplete,
    lemma_revalidate_turn,
    lemma_revalidate,
}

} // verus!
