//! What the stages of a pause leave alone: which of them never resume the child, never see a
//! protected call run by, and neither apply records nor take any from the queue.

use crate::cli::PausePolicy;
use crate::discovery::pause::cleanup::{
    cleanup_accounts, cleanup_applied, cleanup_authority, cleanup_batch, cleanup_closed,
    cleanup_end, cleanup_open, cleanup_records, cleanup_removal, cleanup_resume,
    cleanup_unvalidated, cleanup_word, drain, lemma_dequeue_keeps_budget, relinquish,
    terminal_cleanup, unresolved,
};
use crate::discovery::pause::conduct::{group_conduct, kept, Grade};
use crate::discovery::pause::cycle::{
    apply_frozen, arm_successor, attach_frozen, await_record, before_winner, causal_drain,
    check_cancelled, check_empty, check_marker, check_ring, check_stopped, coalesced_first,
    confirm_stopped, find_winner, freeze, hand_over, install_successor, judge_taken, judge_winner,
    later, retire_authorization, ring_intact, seek_winner, still_quiet, wait_once, Winner,
};
use crate::discovery::pause::ending::lemma_cleanup_reports;
use crate::discovery::pause::failure::{
    finish_nonconfirmed, reject_apply, reject_cycle, reject_drain, reject_end, reject_generation,
    reject_removal, reject_turn, reject_wait, Refusal,
};
use crate::discovery::pause::io::{BatchFault, Event, PauseBatchOutcome, TimedItem};
use crate::discovery::pause::progress::{goes_on, group_progress};
use crate::discovery::pause::rules::{AuthorizationSource, RemovalDisposition, MAX_FAILURE_ITEMS};
use crate::discovery::pause::service::{
    await_request, look_at, open_epoch, requested_item, requested_turn, seek_request, stale_applied,
    stale_word, take_in, unarmed,
};
use crate::discovery::pause::state::{PauseEpoch, State};
use crate::discovery::pause::steps::{
    apply_unowned, check_ring_loss, close_dequeue, failure_bound, keep_dequeued, observe_resting,
    observe_resumed, observe_tasks, observe_turn, remove_and_account, sample_stopped,
    take_stop_candidate, timed_dequeue, within, FaultText,
};
use crate::record::{DiscoveryItem, DiscoveryRecord};
use crate::text::Text;
use vstd::prelude::*;

verus! {

broadcast use group_conduct;

/// Whether the epoch of a state is that of a request that the helper refused.
pub open spec fn declined<B>(s: State<B>) -> bool {
    s.epoch.rejected && !s.epoch.accepted
}

/// Whether nothing was counted between two states.
pub open spec fn as_counted<B>(a: State<B>, b: State<B>) -> bool {
    b.counters == a.counters && b.attempt_open == a.attempt_open
}

/// A requested word changes nothing of a refused request.
broadcast proof fn lemma_requested_word<B>(s: State<B>, disposition: RemovalDisposition)
    ensures
        (#[trigger] s.classified_requested(disposition)).trace == s.trace,
        s.classified_requested(disposition).armed == s.armed,
        disposition == RemovalDisposition::Rejected && declined(s) ==> declined(
            s.classified_requested(disposition),
        ) && as_counted(s, s.classified_requested(disposition)),
{
    reveal(State::classified_requested);
}

/// An absent word changes nothing of a refused request.
broadcast proof fn lemma_absent_word<B>(s: State<B>)
    ensures
        (#[trigger] s.classified_absent()).0.trace == s.trace,
        s.classified_absent().0.armed == s.armed,
        declined(s) ==> declined(s.classified_absent().0),
        as_counted(s, s.classified_absent().0),
{
    reveal(State::classified_absent);
    reveal(PauseEpoch::released);
}

/// An armed word changes nothing of a refused request.
broadcast proof fn lemma_armed_word<B>(s: State<B>, source: AuthorizationSource)
    ensures
        (#[trigger] s.classified_armed(source)).0.trace == s.trace,
        s.classified_armed(source).0.armed == s.armed,
        declined(s) ==> declined(s.classified_armed(source).0),
        as_counted(s, s.classified_armed(source).0),
{
    reveal(State::classified_armed);
    reveal(PauseEpoch::refuted);
    reveal(PauseEpoch::released);
}

/// What the stage `close_dequeue` leaves alone.
pub broadcast proof fn lemma_close_dequeue<B>(
    s: State<B>,
    before_ns: u64,
    item: Option<DiscoveryItem>,
    deadline: Option<u64>,
    t: Seq<Event<B>>,
)
    ensures
        kept(
            Grade::Still,
            s.trace,
            (#[trigger] close_dequeue(s, before_ns, item, deadline, t)).0.trace,
        ),
        declined(s) ==> declined(close_dequeue(s, before_ns, item, deadline, t).0),
        !s.armed ==> !close_dequeue(s, before_ns, item, deadline, t).0.armed,
        !s.epoch.accepted ==> !close_dequeue(s, before_ns, item, deadline, t).0.epoch.accepted,
        as_counted(s, close_dequeue(s, before_ns, item, deadline, t).0),
{
    reveal(close_dequeue);
}

/// What the stage `keep_dequeued` leaves alone.
pub broadcast proof fn lemma_keep_dequeued<B>(
    s: State<B>,
    before_ns: u64,
    item: Option<DiscoveryItem>,
    deadline: Option<u64>,
    t: Seq<Event<B>>,
)
    ensures
        kept(
            Grade::Still,
            s.trace,
            (#[trigger] keep_dequeued(s, before_ns, item, deadline, t)).0.trace,
        ),
        declined(s) ==> declined(keep_dequeued(s, before_ns, item, deadline, t).0),
        !s.armed ==> !keep_dequeued(s, before_ns, item, deadline, t).0.armed,
        !s.epoch.accepted ==> !keep_dequeued(s, before_ns, item, deadline, t).0.epoch.accepted,
        as_counted(s, keep_dequeued(s, before_ns, item, deadline, t).0),
{
    broadcast use {lemma_close_dequeue};

    reveal(keep_dequeued);
}

/// What the stage `timed_dequeue` leaves alone.
pub broadcast proof fn lemma_timed_dequeue<B>(s: State<B>, deadline: Option<u64>, t: Seq<Event<B>>)
    ensures
        kept(Grade::Idle, s.trace, (#[trigger] timed_dequeue(s, deadline, t)).0.trace),
        declined(s) ==> declined(timed_dequeue(s, deadline, t).0),
        !s.armed ==> !timed_dequeue(s, deadline, t).0.armed,
        !s.epoch.accepted ==> !timed_dequeue(s, deadline, t).0.epoch.accepted,
        as_counted(s, timed_dequeue(s, deadline, t).0),
{
    broadcast use {lemma_keep_dequeued};

    reveal(timed_dequeue);
}

/// What the stage `check_ring_loss` leaves alone.
pub broadcast proof fn lemma_check_ring_loss<B>(s: State<B>, t: Seq<Event<B>>)
    ensures
        kept(Grade::Still, s.trace, (#[trigger] check_ring_loss(s, t)).0.trace),
        declined(s) ==> declined(check_ring_loss(s, t).0),
        !s.armed ==> !check_ring_loss(s, t).0.armed,
{
    reveal(check_ring_loss);
}

/// What the stage `remove_and_account` leaves alone.
pub broadcast proof fn lemma_remove_and_account<B>(s: State<B>, t: Seq<Event<B>>)
    ensures
        kept(Grade::Still, s.trace, (#[trigger] remove_and_account(s, t)).0.trace),
        declined(s) ==> declined(remove_and_account(s, t).0),
        !s.armed ==> !remove_and_account(s, t).0.armed,
        declined(s) ==> as_counted(s, remove_and_account(s, t).0),
{
    reveal(remove_and_account);
    broadcast use {lemma_requested_word, lemma_absent_word, lemma_armed_word};
}

/// What the stage `sample_stopped` leaves alone.
pub broadcast proof fn lemma_sample_stopped<B>(s: State<B>, deadline: u64, t: Seq<Event<B>>)
    ensures
        kept(Grade::Still, s.trace, (#[trigger] sample_stopped(s, deadline, t)).0.trace),
{
    reveal(sample_stopped);
}

/// What the stage `take_stop_candidate` leaves alone.
pub broadcast proof fn lemma_take_stop_candidate<B>(s: State<B>, t: Seq<Event<B>>)
    ensures
        kept(Grade::Still, s.trace, (#[trigger] take_stop_candidate(s, t)).trace),
        declined(s) ==> declined(take_stop_candidate(s, t)),
        !s.armed ==> !take_stop_candidate(s, t).armed,
        as_counted(s, take_stop_candidate(s, t)),
{
    reveal(take_stop_candidate);
}

/// What the stage `apply_unowned` leaves alone.
pub broadcast proof fn lemma_apply_unowned<B>(s: State<B>, deadline: Option<u64>, t: Seq<Event<B>>)
    ensures
        kept(Grade::Calm, s.trace, (#[trigger] apply_unowned(s, deadline, t)).0.trace),
{
    reveal(apply_unowned);
}

/// What the stage `failure_bound` leaves alone.
pub broadcast proof fn lemma_failure_bound<B>(s: State<B>, errors: Seq<Text>, t: Seq<Event<B>>)
    ensures
        kept(Grade::Still, s.trace, (#[trigger] failure_bound(s, errors, t)).0.trace),
        declined(s) ==> declined(failure_bound(s, errors, t).0),
        !s.armed ==> !failure_bound(s, errors, t).0.armed,
{
    reveal(failure_bound);
}

/// What the stage `within` leaves alone.
pub broadcast proof fn lemma_within<B>(s: State<B>, deadline: u64, t: Seq<Event<B>>)
    ensures
        kept(Grade::Still, s.trace, (#[trigger] within(s, deadline, t)).0.trace),
{
    reveal(within);
}

/// What the stage `observe_tasks` leaves alone.
pub broadcast proof fn lemma_observe_tasks<B>(s: State<B>, deadline: u64, t: Seq<Event<B>>)
    ensures
        kept(Grade::Still, s.trace, (#[trigger] observe_tasks(s, deadline, t)).0.trace),
{
    reveal(observe_tasks);
}

/// What the stage `observe_resting` leaves alone.
pub broadcast proof fn lemma_observe_resting<B>(s: State<B>, deadline: u64, t: Seq<Event<B>>)
    ensures
        kept(Grade::Still, s.trace, (#[trigger] observe_resting(s, deadline, t)).0.trace),
{
    broadcast use {lemma_within, lemma_observe_tasks};

    reveal(observe_resting);
}

/// What the stage `observe_turn` leaves alone.
pub broadcast proof fn lemma_observe_turn<B>(
    s: State<B>,
    deadline: u64,
    successor: bool,
    t: Seq<Event<B>>,
)
    ensures
        kept(Grade::Still, s.trace, (#[trigger] observe_turn(s, deadline, successor, t)).0.trace),
{
    broadcast use {lemma_within, lemma_observe_resting};

    reveal(observe_turn);
}

/// What the stage `observe_resumed` leaves alone.
pub broadcast proof fn lemma_observe_resumed<B>(
    s: State<B>,
    deadline: u64,
    successor: bool,
    turns: nat,
    t: Seq<Event<B>>,
)
    ensures
        kept(
            Grade::Still,
            s.trace,
            (#[trigger] observe_resumed(s, deadline, successor, turns, t)).0.trace,
        ),
    decreases turns,
{
    broadcast use {lemma_observe_turn};

    reveal(observe_resumed);
    if turns > 0 {
        let (next, _) = observe_turn(s, deadline, successor, t);
        lemma_observe_resumed(next, deadline, successor, (turns - 1) as nat, t);
    }
}

/// What the stage `drain` leaves alone.
pub broadcast proof fn lemma_drain<B>(
    s: State<B>,
    errors: Seq<Text>,
    deadline: u64,
    malformed: Text,
    t: Seq<Event<B>>,
)
    ensures
        kept(Grade::Idle, s.trace, (#[trigger] drain(s, errors, deadline, malformed, t)).0.trace),
        declined(s) ==> declined(drain(s, errors, deadline, malformed, t).0),
        !s.armed ==> !drain(s, errors, deadline, malformed, t).0.armed,
    decreases MAX_FAILURE_ITEMS - s.failure_items,
{
    broadcast use {lemma_timed_dequeue};

    reveal(drain);
    if s.failure_items < MAX_FAILURE_ITEMS {
        lemma_dequeue_keeps_budget(s, Some(deadline), t);
        let (next, item) = timed_dequeue(s, Some(deadline), t);
        lemma_drain(next.drained_one(), errors.push(malformed), deadline, malformed, t);
        lemma_drain(next.drained_one(), errors, deadline, malformed, t);
    }
}

/// What the stage `relinquish` leaves alone.
pub broadcast proof fn lemma_relinquish<B>(s: State<B>, errors: Seq<Text>, t: Seq<Event<B>>)
    ensures
        kept(Grade::Still, s.trace, (#[trigger] relinquish(s, errors, t)).0.trace),
        declined(s) ==> declined(relinquish(s, errors, t).0),
        !s.armed ==> !relinquish(s, errors, t).0.armed,
{
    reveal(relinquish);
}

/// What the stage `cleanup_authority` leaves alone.
pub broadcast proof fn lemma_cleanup_authority<B>(s: State<B>, errors: Seq<Text>, t: Seq<Event<B>>)
    ensures
        kept(Grade::Still, s.trace, (#[trigger] cleanup_authority(s, errors, t)).0.trace),
        declined(s) ==> declined(cleanup_authority(s, errors, t).0),
        !s.armed ==> !cleanup_authority(s, errors, t).0.armed,
{
    broadcast use {lemma_relinquish};

    reveal(cleanup_authority);
}

/// What the stage `cleanup_applied` leaves alone.
pub broadcast proof fn lemma_cleanup_applied<B>(
    s: State<B>,
    errors: Seq<Text>,
    required: bool,
    reply: Result<PauseBatchOutcome, BatchFault>,
)
    ensures
        kept(
            Grade::Still,
            s.trace,
            (#[trigger] cleanup_applied(s, errors, required, reply)).0.trace,
        ),
        declined(s) ==> declined(cleanup_applied(s, errors, required, reply).0),
        !s.armed ==> !cleanup_applied(s, errors, required, reply).0.armed,
{
    reveal(cleanup_applied);
    reveal(State::annotating);
}

/// What the stage `cleanup_batch` leaves alone.
pub broadcast proof fn lemma_cleanup_batch<B>(
    s: State<B>,
    errors: Seq<Text>,
    deadline: u64,
    required: bool,
    t: Seq<Event<B>>,
)
    ensures
        kept(
            Grade::Calm,
            s.trace,
            (#[trigger] cleanup_batch(s, errors, deadline, required, t)).0.trace,
        ),
        declined(s) ==> declined(cleanup_batch(s, errors, deadline, required, t).0),
        !s.armed ==> !cleanup_batch(s, errors, deadline, required, t).0.armed,
{
    broadcast use {lemma_cleanup_applied};

    reveal(cleanup_batch);
}

/// What the stage `cleanup_unvalidated` leaves alone.
pub broadcast proof fn lemma_cleanup_unvalidated<B>(s: State<B>, count: u64)
    ensures
        kept(Grade::Still, s.trace, (#[trigger] cleanup_unvalidated(s, count)).trace),
        declined(s) ==> declined(cleanup_unvalidated(s, count)),
        !s.armed ==> !cleanup_unvalidated(s, count).armed,
{
    reveal(cleanup_unvalidated);
}

/// What the stage `cleanup_records` leaves alone.
pub broadcast proof fn lemma_cleanup_records<B>(
    s: State<B>,
    errors: Seq<Text>,
    deadline: u64,
    required: bool,
    t: Seq<Event<B>>,
)
    ensures
        kept(
            Grade::Calm,
            s.trace,
            (#[trigger] cleanup_records(s, errors, deadline, required, t)).0.trace,
        ),
        declined(s) ==> declined(cleanup_records(s, errors, deadline, required, t).0),
        !s.armed ==> !cleanup_records(s, errors, deadline, required, t).0.armed,
{
    broadcast use {
        lemma_take_stop_candidate,
        lemma_cleanup_applied,
        lemma_cleanup_batch,
        lemma_cleanup_unvalidated,
    };

    reveal(cleanup_records);
}

/// What the stage `cleanup_word` leaves alone.
pub broadcast proof fn lemma_cleanup_word<B>(s: State<B>, errors: Seq<Text>, t: Seq<Event<B>>)
    ensures
        kept(Grade::Still, s.trace, (#[trigger] cleanup_word(s, errors, t)).0.trace),
        declined(s) ==> declined(cleanup_word(s, errors, t).0),
        !s.armed ==> !cleanup_word(s, errors, t).0.armed,
{
    reveal(cleanup_word);
    broadcast use {lemma_requested_word, lemma_absent_word, lemma_armed_word};
}

/// What the stage `cleanup_removal` leaves alone.
pub broadcast proof fn lemma_cleanup_removal<B>(s: State<B>, errors: Seq<Text>, t: Seq<Event<B>>)
    ensures
        kept(Grade::Still, s.trace, (#[trigger] cleanup_removal(s, errors, t)).0.trace),
        declined(s) ==> declined(cleanup_removal(s, errors, t).0),
        !s.armed ==> !cleanup_removal(s, errors, t).0.armed,
{
    broadcast use {lemma_remove_and_account};

    reveal(cleanup_removal);
}

/// What the stage `cleanup_resume` leaves alone.
pub broadcast proof fn lemma_cleanup_resume<B>(s: State<B>, errors: Seq<Text>, t: Seq<Event<B>>)
    ensures
        declined(s)
            ==> kept(Grade::Calm, s.trace, (#[trigger] cleanup_resume(s, errors, t)).0.trace),
        declined(s) ==> declined(cleanup_resume(s, errors, t).0),
        !s.armed ==> !cleanup_resume(s, errors, t).0.armed,
{
    reveal(cleanup_resume);
}

/// What the stage `unresolved` leaves alone.
pub broadcast proof fn lemma_unresolved<B>(s: State<B>, t: Seq<Event<B>>)
    ensures
        kept(Grade::Still, s.trace, (#[trigger] unresolved(s, t)).0.trace),
        declined(s) ==> declined(unresolved(s, t).0),
        !s.armed ==> !unresolved(s, t).0.armed,
{
    reveal(unresolved);
}

/// What the stage `cleanup_open` leaves alone.
pub broadcast proof fn lemma_cleanup_open<B>(s: State<B>, errors: Seq<Text>, required: bool)
    ensures
        kept(Grade::Still, s.trace, (#[trigger] cleanup_open(s, errors, required)).0.trace),
        declined(s) ==> declined(cleanup_open(s, errors, required).0),
        !s.armed ==> !cleanup_open(s, errors, required).0.armed,
{
    reveal(cleanup_open);
    reveal(State::annotating);
}

/// What the stage `cleanup_closed` leaves alone.
pub broadcast proof fn lemma_cleanup_closed<B>(
    s: State<B>,
    errors: Seq<Text>,
    initiating: nat,
    required: bool,
    lifecycle: bool,
)
    ensures
        kept(
            Grade::Still,
            s.trace,
            (#[trigger] cleanup_closed(s, errors, initiating, required, lifecycle)).0.trace,
        ),
        declined(s) ==> declined(cleanup_closed(s, errors, initiating, required, lifecycle).0),
        !s.armed ==> !cleanup_closed(s, errors, initiating, required, lifecycle).0.armed,
{
    reveal(cleanup_closed);
    reveal(State::annotating);
}

/// What the stage `cleanup_end` leaves alone.
pub broadcast proof fn lemma_cleanup_end<B>(
    s: State<B>,
    errors: Seq<Text>,
    initiating: nat,
    required: bool,
    lifecycle: bool,
    t: Seq<Event<B>>,
)
    ensures
        kept(
            Grade::Still,
            s.trace,
            (#[trigger] cleanup_end(s, errors, initiating, required, lifecycle, t)).0.trace,
        ),
        declined(s) ==> declined(cleanup_end(s, errors, initiating, required, lifecycle, t).0),
        !s.armed ==> !cleanup_end(s, errors, initiating, required, lifecycle, t).0.armed,
{
    broadcast use {lemma_relinquish, lemma_unresolved, lemma_cleanup_open, lemma_cleanup_closed};

    reveal(cleanup_end);
}

/// What the stage `cleanup_accounts` leaves alone.
pub broadcast proof fn lemma_cleanup_accounts<B>(
    s: State<B>,
    errors: Seq<Text>,
    required: bool,
    t: Seq<Event<B>>,
)
    ensures
        kept(Grade::Calm, s.trace, (#[trigger] cleanup_accounts(s, errors, required, t)).0.trace),
        declined(s) ==> declined(cleanup_accounts(s, errors, required, t).0),
        !s.armed ==> !cleanup_accounts(s, errors, required, t).0.armed,
{
    broadcast use {lemma_failure_bound, lemma_drain, lemma_cleanup_records};

    reveal(cleanup_accounts);
}

/// What the stage `terminal_cleanup` leaves alone.
pub broadcast proof fn lemma_terminal_cleanup<B>(
    s: State<B>,
    errors: Seq<Text>,
    required: bool,
    lifecycle: bool,
    t: Seq<Event<B>>,
)
    ensures
        declined(s)
            ==> kept(
                Grade::Calm,
                s.trace,
                (#[trigger] terminal_cleanup(s, errors, required, lifecycle, t)).0.trace,
            ),
        declined(s) ==> declined(terminal_cleanup(s, errors, required, lifecycle, t).0),
        !s.armed ==> !terminal_cleanup(s, errors, required, lifecycle, t).0.armed,
{
    broadcast use {
        lemma_cleanup_authority,
        lemma_cleanup_word,
        lemma_cleanup_removal,
        lemma_cleanup_resume,
        lemma_cleanup_end,
        lemma_cleanup_accounts,
    };

    reveal(terminal_cleanup);
}

/// What the stage `finish_nonconfirmed` leaves alone.
pub broadcast proof fn lemma_finish_nonconfirmed<B>(s: State<B>, message: Text)
    ensures
        kept(Grade::Still, s.trace, (#[trigger] finish_nonconfirmed(s, message)).0.trace),
        !s.armed ==> !finish_nonconfirmed(s, message).0.armed,
{
    reveal(finish_nonconfirmed);
}

/// What the stage `reject_wait` leaves alone.
pub broadcast proof fn lemma_reject_wait<B>(
    s: State<B>,
    f: Refusal,
    deadline: u64,
    t: Seq<Event<B>>,
)
    ensures
        kept(Grade::Still, s.trace, (#[trigger] reject_wait(s, f, deadline, t)).0.trace),
        declined(s) ==> declined(reject_wait(s, f, deadline, t).0),
        !s.armed ==> !reject_wait(s, f, deadline, t).0.armed,
        as_counted(s, reject_wait(s, f, deadline, t).0),
{
    reveal(reject_wait);
}

/// What the stage `reject_turn` leaves alone.
pub broadcast proof fn lemma_reject_turn<B>(
    s: State<B>,
    f: Refusal,
    deadline: u64,
    t: Seq<Event<B>>,
)
    ensures
        kept(Grade::Idle, s.trace, (#[trigger] reject_turn(s, f, deadline, t)).0.trace),
        declined(s) ==> declined(reject_turn(s, f, deadline, t).0),
        !s.armed ==> !reject_turn(s, f, deadline, t).0.armed,
        as_counted(s, reject_turn(s, f, deadline, t).0),
{
    broadcast use {lemma_timed_dequeue, lemma_reject_wait};

    reveal(reject_turn);
}

/// What the stage `reject_drain` leaves alone.
pub broadcast proof fn lemma_reject_drain<B>(
    s: State<B>,
    f: Refusal,
    deadline: u64,
    turns: nat,
    t: Seq<Event<B>>,
)
    ensures
        kept(Grade::Idle, s.trace, (#[trigger] reject_drain(s, f, deadline, turns, t)).0.trace),
        declined(s) ==> declined(reject_drain(s, f, deadline, turns, t).0),
        !s.armed ==> !reject_drain(s, f, deadline, turns, t).0.armed,
        as_counted(s, reject_drain(s, f, deadline, turns, t).0),
    decreases turns,
{
    broadcast use {lemma_reject_turn};

    reveal(reject_drain);
    if turns > 0 {
        let (next, g, on) = reject_turn(s, f, deadline, t);
        lemma_reject_drain(next, g, deadline, (turns - 1) as nat, t);
    }
}

/// What the stage `reject_generation` leaves alone.
pub broadcast proof fn lemma_reject_generation<B>(s: State<B>, f: Refusal, t: Seq<Event<B>>)
    ensures
        kept(Grade::Still, s.trace, (#[trigger] reject_generation(s, f, t)).0.trace),
        declined(s) ==> declined(reject_generation(s, f, t).0),
        !s.armed ==> !reject_generation(s, f, t).0.armed,
        as_counted(s, reject_generation(s, f, t).0),
{
    reveal(reject_generation);
}

/// What the stage `reject_apply` leaves alone.
pub broadcast proof fn lemma_reject_apply<B>(
    s: State<B>,
    f: Refusal,
    deadline: u64,
    t: Seq<Event<B>>,
)
    ensures
        kept(Grade::Calm, s.trace, (#[trigger] reject_apply(s, f, deadline, t)).0.trace),
        declined(s) ==> declined(reject_apply(s, f, deadline, t).0),
        !s.armed ==> !reject_apply(s, f, deadline, t).0.armed,
        as_counted(s, reject_apply(s, f, deadline, t).0),
{
    broadcast use {lemma_reject_generation};

    reveal(reject_apply);
}

/// What the stage `reject_removal` leaves alone.
pub broadcast proof fn lemma_reject_removal<B>(s: State<B>, t: Seq<Event<B>>)
    ensures
        kept(Grade::Still, s.trace, (#[trigger] reject_removal(s, t)).0.trace),
        declined(s) ==> declined(reject_removal(s, t).0),
        !s.armed ==> !reject_removal(s, t).0.armed,
        declined(s) ==> as_counted(s, reject_removal(s, t).0),
{
    broadcast use {lemma_remove_and_account};

    reveal(reject_removal);
}

/// What the stage `reject_end` leaves alone.
pub broadcast proof fn lemma_reject_end<B>(s: State<B>, f: Refusal, t: Seq<Event<B>>)
    ensures
        declined(s) ==> kept(Grade::Calm, s.trace, (#[trigger] reject_end(s, f, t)).0.trace),
        declined(s) && s.policy == PausePolicy::Auto && reject_end(s, f, t).1 is Ok
            ==> reject_end(s, f, t).0.counters == s.partial().counters
                && !reject_end(s, f, t).0.attempt_open,
        declined(s) ==> !reject_end(s, f, t).0.armed && !reject_end(s, f, t).0.rearming_enabled,
{
    broadcast use {group_progress, lemma_terminal_cleanup, lemma_finish_nonconfirmed};

    reveal(reject_end);
    reveal(goes_on);
    reveal(finish_nonconfirmed);
    if f.doubts.len() > 0 {
        let ended = s.running().disarmed().unarmable().unbounded();
        lemma_cleanup_reports(ended, f.doubts, false, true, t);
    }
}

/// What the stage `reject_cycle` leaves alone.
pub broadcast proof fn lemma_reject_cycle<B>(s: State<B>, deadline: u64, t: Seq<Event<B>>)
    ensures
        declined(s)
            ==> kept(Grade::Calm, s.trace, (#[trigger] reject_cycle(s, deadline, t)).0.trace),
        declined(s) && s.policy == PausePolicy::Auto && reject_cycle(s, deadline, t).1 is Ok
            ==> reject_cycle(s, deadline, t).0.counters == s.partial().counters
                && !reject_cycle(s, deadline, t).0.attempt_open,
        declined(s) && s.policy != PausePolicy::Always
            ==> !reject_cycle(s, deadline, t).0.armed
                && !reject_cycle(s, deadline, t).0.rearming_enabled,
{
    broadcast use {
        group_progress,
        lemma_terminal_cleanup,
        lemma_reject_drain,
        lemma_reject_apply,
        lemma_reject_removal,
        lemma_reject_end,
    };

    reveal(reject_cycle);
    reveal(goes_on);
}

/// What the stage `check_cancelled` leaves alone.
pub broadcast proof fn lemma_check_cancelled<B>(s: State<B>, t: Seq<Event<B>>)
    ensures
        kept(Grade::Still, s.trace, (#[trigger] check_cancelled(s, t)).0.trace),
        !s.epoch.accepted ==> !check_cancelled(s, t).0.epoch.accepted,
        as_counted(s, check_cancelled(s, t).0),
{
    reveal(check_cancelled);
}

/// What the stage `wait_once` leaves alone.
pub broadcast proof fn lemma_wait_once<B>(s: State<B>, t: Seq<Event<B>>)
    ensures
        kept(Grade::Still, s.trace, (#[trigger] wait_once(s, t)).0.trace),
        !s.epoch.accepted ==> !wait_once(s, t).0.epoch.accepted,
        as_counted(s, wait_once(s, t).0),
{
    reveal(wait_once);
}

/// What the stage `check_marker` leaves alone.
pub broadcast proof fn lemma_check_marker<B>(s: State<B>, raced: Text, t: Seq<Event<B>>)
    ensures
        (#[trigger] check_marker(s, raced, t)).1 is Ok
            ==> kept(Grade::Still, s.trace, check_marker(s, raced, t).0.trace),
{
    reveal(check_marker);
}

/// What the stage `check_empty` leaves alone.
pub broadcast proof fn lemma_check_empty<B>(
    s: State<B>,
    deadline: u64,
    found: FaultText,
    t: Seq<Event<B>>,
)
    ensures
        kept(Grade::Idle, s.trace, (#[trigger] check_empty(s, deadline, found, t)).0.trace),
{
    broadcast use {lemma_timed_dequeue};

    reveal(check_empty);
}

/// What the stage `check_stopped` leaves alone.
pub broadcast proof fn lemma_check_stopped<B>(s: State<B>, deadline: u64, t: Seq<Event<B>>)
    ensures
        kept(Grade::Still, s.trace, (#[trigger] check_stopped(s, deadline, t)).0.trace),
{
    broadcast use {lemma_sample_stopped};

    reveal(check_stopped);
}

/// What the stage `check_ring` leaves alone.
pub broadcast proof fn lemma_check_ring<B>(s: State<B>, t: Seq<Event<B>>)
    ensures
        kept(Grade::Still, s.trace, (#[trigger] check_ring(s, t)).0.trace),
{
    broadcast use {lemma_check_ring_loss};

    reveal(check_ring);
}

/// What the stage `await_record` leaves alone.
pub broadcast proof fn lemma_await_record<B>(
    s: State<B>,
    deadline: u64,
    missing: Text,
    t: Seq<Event<B>>,
)
    ensures
        kept(Grade::Still, s.trace, (#[trigger] await_record(s, deadline, missing, t)).0.trace),
        !s.epoch.accepted ==> !await_record(s, deadline, missing, t).0.epoch.accepted,
        as_counted(s, await_record(s, deadline, missing, t).0),
{
    broadcast use {lemma_wait_once};

    reveal(await_record);
}

/// What the stage `before_winner` leaves alone.
pub broadcast proof fn lemma_before_winner<B>(
    s: State<B>,
    next: TimedItem<B>,
    latest_ns: u64,
    deadline: u64,
)
    ensures
        kept(
            Grade::Still,
            s.trace,
            (#[trigger] before_winner(s, next, latest_ns, deadline)).0.trace,
        ),
        !s.epoch.accepted ==> !before_winner(s, next, latest_ns, deadline).0.epoch.accepted,
        as_counted(s, before_winner(s, next, latest_ns, deadline).0),
{
    reveal(before_winner);
}

/// What the stage `seek_winner` leaves alone.
pub broadcast proof fn lemma_seek_winner<B>(
    s: State<B>,
    latest_ns: u64,
    deadline: u64,
    turns: nat,
    t: Seq<Event<B>>,
)
    ensures
        kept(
            Grade::Idle,
            s.trace,
            (#[trigger] seek_winner(s, latest_ns, deadline, turns, t)).0.trace,
        ),
        !s.epoch.accepted ==> !seek_winner(s, latest_ns, deadline, turns, t).0.epoch.accepted,
        as_counted(s, seek_winner(s, latest_ns, deadline, turns, t).0),
    decreases turns,
{
    broadcast use {lemma_timed_dequeue, lemma_await_record, lemma_before_winner};

    reveal(seek_winner);
    if turns > 0 {
        let (next, item) = timed_dequeue(s, Some(deadline), t);
        let (waited, _) = await_record(next, deadline, "coalesced record had no winner"@, t);
        lemma_seek_winner(waited, latest_ns, deadline, (turns - 1) as nat, t);
        if let Ok(Some(found)) = item {
            let (after, _) = before_winner(next, found, latest_ns, deadline);
            lemma_seek_winner(after, later(found, latest_ns), deadline, (turns - 1) as nat, t);
        }
    }
}

/// What the stage `coalesced_first` leaves alone.
pub broadcast proof fn lemma_coalesced_first<B>(
    s: State<B>,
    received: TimedItem<B>,
    first: DiscoveryRecord,
    t: Seq<Event<B>>,
)
    ensures
        kept(Grade::Idle, s.trace, (#[trigger] coalesced_first(s, received, first, t)).0.trace),
        !s.epoch.accepted ==> !coalesced_first(s, received, first, t).0.epoch.accepted,
        as_counted(s, coalesced_first(s, received, first, t).0),
{
    broadcast use {lemma_seek_winner};

    reveal(coalesced_first);
}

/// What the stage `find_winner` leaves alone.
pub broadcast proof fn lemma_find_winner<B>(
    s: State<B>,
    received: TimedItem<B>,
    first: DiscoveryRecord,
    t: Seq<Event<B>>,
)
    ensures
        kept(Grade::Idle, s.trace, (#[trigger] find_winner(s, received, first, t)).0.trace),
        !s.epoch.accepted ==> !find_winner(s, received, first, t).0.epoch.accepted,
        as_counted(s, find_winner(s, received, first, t).0),
{
    broadcast use {lemma_coalesced_first};

    reveal(find_winner);
}

/// What the stage `judge_taken` leaves alone.
pub broadcast proof fn lemma_judge_taken<B>(s: State<B>, w: Winner<B>)
    ensures
        kept(Grade::Still, s.trace, (#[trigger] judge_taken(s, w)).0.trace),
{
    reveal(judge_taken);
}

/// What the stage `judge_winner` leaves alone.
pub broadcast proof fn lemma_judge_winner<B>(s: State<B>, w: Winner<B>)
    ensures
        kept(Grade::Still, s.trace, (#[trigger] judge_winner(s, w)).0.trace),
{
    broadcast use {lemma_judge_taken};

    reveal(judge_winner);
}

/// What the stage `ring_intact` leaves alone.
pub broadcast proof fn lemma_ring_intact<B>(s: State<B>, t: Seq<Event<B>>)
    ensures
        kept(Grade::Still, s.trace, (#[trigger] ring_intact(s, t)).0.trace),
{
    reveal(ring_intact);
}

/// What the stage `confirm_stopped` leaves alone.
pub broadcast proof fn lemma_confirm_stopped<B>(s: State<B>, deadline: u64, t: Seq<Event<B>>)
    ensures
        kept(Grade::Still, s.trace, (#[trigger] confirm_stopped(s, deadline, t)).0.trace),
{
    broadcast use {lemma_check_cancelled, lemma_wait_once, lemma_check_stopped};

    reveal(confirm_stopped);
}

/// What the stage `causal_drain` leaves alone.
pub broadcast proof fn lemma_causal_drain<B>(
    s: State<B>,
    deadline: u64,
    turns: nat,
    t: Seq<Event<B>>,
)
    ensures
        kept(Grade::Idle, s.trace, (#[trigger] causal_drain(s, deadline, turns, t)).0.trace),
    decreases turns,
{
    broadcast use {lemma_timed_dequeue};

    reveal(causal_drain);
    if turns > 0 {
        let (next, _) = timed_dequeue(s, Some(deadline), t);
        lemma_causal_drain(next, deadline, (turns - 1) as nat, t);
    }
}

/// What the stage `apply_frozen` leaves alone.
pub broadcast proof fn lemma_apply_frozen<B>(s: State<B>, deadline: u64, t: Seq<Event<B>>)
    ensures
        kept(Grade::Calm, s.trace, (#[trigger] apply_frozen(s, deadline, t)).0.trace),
{
    broadcast use {lemma_take_stop_candidate};

    reveal(apply_frozen);
}

/// What the stage `attach_frozen` leaves alone.
pub broadcast proof fn lemma_attach_frozen<B>(s: State<B>, deadline: u64, t: Seq<Event<B>>)
    ensures
        (#[trigger] attach_frozen(s, deadline, t)).1 is Ok
            ==> kept(Grade::Calm, s.trace, attach_frozen(s, deadline, t).0.trace),
{
    broadcast use {lemma_check_marker, lemma_check_ring, lemma_causal_drain, lemma_apply_frozen};

    reveal(attach_frozen);
}

/// What the stage `still_quiet` leaves alone.
pub broadcast proof fn lemma_still_quiet<B>(
    s: State<B>,
    deadline: u64,
    raced: Text,
    found: FaultText,
    t: Seq<Event<B>>,
)
    ensures
        (#[trigger] still_quiet(s, deadline, raced, found, t)).1 is Ok
            ==> kept(Grade::Idle, s.trace, still_quiet(s, deadline, raced, found, t).0.trace),
{
    broadcast use {lemma_wait_once, lemma_check_marker, lemma_check_empty, lemma_check_stopped};

    reveal(still_quiet);
}

/// What the stage `retire_authorization` leaves alone.
pub broadcast proof fn lemma_retire_authorization<B>(s: State<B>, t: Seq<Event<B>>)
    ensures
        kept(Grade::Still, s.trace, (#[trigger] retire_authorization(s, t)).0.trace),
{
    broadcast use {lemma_remove_and_account};

    reveal(retire_authorization);
}

/// What the stage `arm_successor` leaves alone.
pub broadcast proof fn lemma_arm_successor<B>(s: State<B>, t: Seq<Event<B>>)
    ensures
        kept(Grade::Still, s.trace, (#[trigger] arm_successor(s, t)).0.trace),
{
    reveal(arm_successor);
}

/// What the stage `install_successor` leaves alone.
pub broadcast proof fn lemma_install_successor<B>(s: State<B>, deadline: u64, t: Seq<Event<B>>)
    ensures
        (#[trigger] install_successor(s, deadline, t)).1 is Ok
            ==> kept(Grade::Idle, s.trace, install_successor(s, deadline, t).0.trace),
{
    broadcast use {lemma_still_quiet, lemma_retire_authorization, lemma_arm_successor};

    reveal(install_successor);
}

/// What the stage `hand_over` leaves alone.
pub broadcast proof fn lemma_hand_over<B>(
    s: State<B>,
    deadline: u64,
    successor: bool,
    t: Seq<Event<B>>,
)
    ensures
        (#[trigger] hand_over(s, deadline, successor, t)).1 is Ok
            ==> kept(Grade::Idle, s.trace, hand_over(s, deadline, successor, t).0.trace),
{
    broadcast use {lemma_retire_authorization, lemma_install_successor};

    reveal(hand_over);
}

/// What the stage `freeze` leaves alone.
pub broadcast proof fn lemma_freeze<B>(s: State<B>, deadline: u64, t: Seq<Event<B>>)
    ensures
        (#[trigger] freeze(s, deadline, t)).1 is Ok
            ==> kept(Grade::Calm, s.trace, freeze(s, deadline, t).0.trace),
{
    broadcast use {
        lemma_ring_intact,
        lemma_confirm_stopped,
        lemma_attach_frozen,
        lemma_still_quiet,
    };

    reveal(freeze);
}

/// What the stage `unarmed` leaves alone.
pub broadcast proof fn lemma_unarmed<B>(s: State<B>, first: DiscoveryRecord, t: Seq<Event<B>>)
    ensures
        kept(Grade::Calm, s.trace, (#[trigger] unarmed(s, first, t)).0.trace),
{
    broadcast use {lemma_apply_unowned};

    reveal(unarmed);
}

/// What the stage `look_at` leaves alone.
pub broadcast proof fn lemma_look_at<B>(s: State<B>, item: DiscoveryItem, t: Seq<Event<B>>)
    ensures
        kept(Grade::Calm, s.trace, (#[trigger] look_at(s, item, t)).0.trace),
{
    broadcast use {lemma_check_cancelled, lemma_unarmed};

    reveal(look_at);
}

/// What the stage `take_in` leaves alone.
pub broadcast proof fn lemma_take_in<B>(
    s: State<B>,
    batch: Option<B>,
    after_ns: u64,
    item: DiscoveryItem,
    t: Seq<Event<B>>,
)
    ensures
        kept(Grade::Calm, s.trace, (#[trigger] take_in(s, batch, after_ns, item, t)).0.trace),
{
    broadcast use {lemma_take_stop_candidate, lemma_look_at};

    reveal(take_in);
}

/// What the stage `open_epoch` leaves alone.
pub broadcast proof fn lemma_open_epoch<B>(s: State<B>, t: Seq<Event<B>>)
    ensures
        kept(Grade::Calm, s.trace, (#[trigger] open_epoch(s, t)).0.trace),
{
    broadcast use {lemma_apply_unowned};

    reveal(open_epoch);
}

/// What the stage `stale_applied` leaves alone.
pub broadcast proof fn lemma_stale_applied<B>(s: State<B>, deadline: u64, t: Seq<Event<B>>)
    ensures
        kept(Grade::Still, s.trace, (#[trigger] stale_applied(s, deadline, t)).0.trace),
{
    reveal(stale_applied);
}

/// What the stage `stale_word` leaves alone.
pub broadcast proof fn lemma_stale_word<B>(s: State<B>, t: Seq<Event<B>>)
    ensures
        kept(Grade::Calm, s.trace, (#[trigger] stale_word(s, t)).0.trace),
{
    broadcast use {lemma_apply_unowned, lemma_stale_applied};

    reveal(stale_word);
}

/// What the stage `requested_item` leaves alone.
pub broadcast proof fn lemma_requested_item<B>(s: State<B>, deadline: u64, t: Seq<Event<B>>)
    ensures
        kept(Grade::Calm, s.trace, (#[trigger] requested_item(s, deadline, t)).0.trace),
{
    broadcast use {lemma_timed_dequeue, lemma_apply_unowned, lemma_await_record};

    reveal(requested_item);
}

/// What the stage `requested_turn` leaves alone.
pub broadcast proof fn lemma_requested_turn<B>(s: State<B>, deadline: u64, t: Seq<Event<B>>)
    ensures
        kept(Grade::Calm, s.trace, (#[trigger] requested_turn(s, deadline, t)).0.trace),
{
    broadcast use {lemma_check_cancelled, lemma_check_ring, lemma_requested_item};

    reveal(requested_turn);
}

/// What the stage `await_request` leaves alone.
pub broadcast proof fn lemma_await_request<B>(
    s: State<B>,
    deadline: u64,
    turns: nat,
    t: Seq<Event<B>>,
)
    ensures
        kept(Grade::Calm, s.trace, (#[trigger] await_request(s, deadline, turns, t)).0.trace),
    decreases turns,
{
    broadcast use {lemma_requested_turn};

    reveal(await_request);
    if turns > 0 {
        let (next, _) = requested_turn(s, deadline, t);
        lemma_await_request(next, deadline, (turns - 1) as nat, t);
    }
}

/// What the stage `seek_request` leaves alone.
pub broadcast proof fn lemma_seek_request<B>(s: State<B>, fixed: u64, t: Seq<Event<B>>)
    ensures
        kept(Grade::Calm, s.trace, (#[trigger] seek_request(s, fixed, t)).0.trace),
{
    broadcast use {lemma_apply_unowned, lemma_await_request};

    reveal(seek_request);
}

pub broadcast group group_restraint {
    lemma_close_dequeue,
    lemma_keep_dequeued,
    lemma_timed_dequeue,
    lemma_check_ring_loss,
    lemma_remove_and_account,
    lemma_sample_stopped,
    lemma_take_stop_candidate,
    lemma_apply_unowned,
    lemma_failure_bound,
    lemma_within,
    lemma_observe_tasks,
    lemma_observe_resting,
    lemma_observe_turn,
    lemma_observe_resumed,
    lemma_drain,
    lemma_relinquish,
    lemma_cleanup_authority,
    lemma_cleanup_applied,
    lemma_cleanup_batch,
    lemma_cleanup_unvalidated,
    lemma_cleanup_records,
    lemma_cleanup_word,
    lemma_cleanup_removal,
    lemma_cleanup_resume,
    lemma_unresolved,
    lemma_cleanup_open,
    lemma_cleanup_closed,
    lemma_cleanup_end,
    lemma_cleanup_accounts,
    lemma_terminal_cleanup,
    lemma_finish_nonconfirmed,
    lemma_reject_wait,
    lemma_reject_turn,
    lemma_reject_drain,
    lemma_reject_generation,
    lemma_reject_apply,
    lemma_reject_removal,
    lemma_reject_end,
    lemma_reject_cycle,
    lemma_check_cancelled,
    lemma_wait_once,
    lemma_check_marker,
    lemma_check_empty,
    lemma_check_stopped,
    lemma_check_ring,
    lemma_await_record,
    lemma_before_winner,
    lemma_seek_winner,
    lemma_coalesced_first,
    lemma_find_winner,
    lemma_judge_taken,
    lemma_judge_winner,
    lemma_ring_intact,
    lemma_confirm_stopped,
    lemma_causal_drain,
    lemma_apply_frozen,
    lemma_attach_frozen,
    lemma_still_quiet,
    lemma_retire_authorization,
    lemma_arm_successor,
    lemma_install_successor,
    lemma_hand_over,
    lemma_freeze,
    lemma_unarmed,
    lemma_look_at,
    lemma_take_in,
    lemma_open_epoch,
    lemma_stale_applied,
    lemma_stale_word,
    lemma_requested_item,
    lemma_requested_turn,
    lemma_await_request,
    lemma_seek_request,
}

} // verus!
