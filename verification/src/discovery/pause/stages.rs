//! What the stages of a cycle take from the calls that they make: which readings let a stage
//! succeed, and which end it.

use crate::discovery::pause::cleanup::drain;
use crate::discovery::pause::cycle::{
    apply_frozen, before_winner, causal_drain, check_cancelled, check_empty, check_marker,
    check_ring, check_stopped, confirm_stopped, follower, judge_taken, judge_winner, ring_intact,
    wait_once, Verdict, Winner,
};
use crate::discovery::pause::failure::{reject_drain, reject_turn, reject_wait, Refusal};
use crate::discovery::pause::io::{Event, TimedItem};
use crate::discovery::pause::rules::saturated;
use crate::discovery::pause::state::State;
use crate::discovery::pause::steps::{
    apply_unowned, check_ring_loss, close_dequeue, keep_dequeued, observe_resting, observe_tasks,
    observe_turn, sample_stopped, take_stop_candidate, timed_dequeue, within, FaultText,
};
use crate::discovery::pause::tasks::all_stopped;
use crate::record::{DiscoveryItem, DiscoveryRecord};
use crate::text::Text;
use vstd::prelude::*;

verus! {

/// Whether a dequeue has handed over an item.
pub open spec fn handed<B>(e: Event<B>, item: DiscoveryItem) -> bool {
    e matches Event::Dequeue(Ok(Some(given))) && given == item
}

/// A dequeue that succeeds stands between two reads of the clock that are not past its deadline,
/// and gives what the queue gave. A record of it is kept, the child being the pinned one. A
/// dequeue that fails without doubt has met its deadline.
pub proof fn lemma_dequeues<B>(s: State<B>, deadline: Option<u64>, t: Seq<Event<B>>)
    ensures
        ({
            let (n, r) = timed_dequeue(s, deadline, t);
            let i = s.trace.len() as int;
            let last = n.trace.last();
            &&& n.trace.len() > i
            &&& forall|j: int| 0 <= j < i ==> #[trigger] n.trace[j] == s.trace[j]
            &&& r matches Ok(None) ==> {
                &&& n.trace.len() == i + 3
                &&& n.trace[i] matches Event::Now(Ok(before)) && (deadline matches Some(limit)
                    ==> before <= limit)
                &&& n.trace[i + 1] == Event::<B>::Dequeue(Ok(None))
                &&& n.trace[i + 2] matches Event::Now(Ok(after)) && (deadline matches Some(limit)
                    ==> after <= limit)
                &&& n.pending_records == s.pending_records
            }
            &&& r matches Ok(Some(x)) ==> {
                &&& n.trace[i] == Event::<B>::Now(Ok(x.before_ns))
                &&& handed(n.trace[i + 1], x.item)
                &&& last == Event::<B>::Now(Ok(x.after_ns))
                &&& deadline matches Some(limit) ==> x.before_ns <= limit && x.after_ns <= limit
                &&& x.terminal_batch is None
                &&& x.item matches DiscoveryItem::Record(record) ==> n.pending_records
                    == s.pending_records.push(record) && n.trace[i + 2]
                    == Event::<B>::SameGeneration(s.pid, s.generation, Ok(true))
                &&& x.item is Malformed ==> n.pending_records == s.pending_records
            }
            &&& r matches Err(fault) ==> (!fault.lifecycle ==> (deadline matches Some(limit) && (
            last matches Event::Now(Ok(moment)) && moment > limit)))
        }),
{
    reveal(timed_dequeue);
    reveal(keep_dequeued);
    reveal(close_dequeue);
}

/// No record that left the queue is forgotten: it is kept, or it is counted as one that could not
/// be validated. One that may be the awaited stop is noted, whatever becomes of the dequeue; no
/// other item is taken for one.
pub proof fn lemma_no_record_is_forgotten<B>(
    s: State<B>,
    deadline: Option<u64>,
    record: DiscoveryRecord,
    t: Seq<Event<B>>,
)
    requires
        timed_dequeue(s, deadline, t).0.trace.len() > s.trace.len() + 1,
        handed(
            timed_dequeue(s, deadline, t).0.trace[s.trace.len() as int + 1],
            DiscoveryItem::Record(record),
        ),
    ensures
        ({
            let n = timed_dequeue(s, deadline, t).0;
            let awaited = s.active() && record.pid() == s.pid && record.send_signal_rc == 0
                && !s.predates(record);
            &&& {
                ||| n.pending_records == s.pending_records.push(record) && n.unvalidated_records
                    == s.unvalidated_records
                ||| n.pending_records == s.pending_records && n.unvalidated_records == saturated(
                    s.unvalidated_records,
                )
            }
            &&& awaited ==> n.may_be_stopped && n.epoch.zero_candidate
            &&& !awaited ==> n.may_be_stopped == s.may_be_stopped && n.epoch == s.epoch
        }),
{
    reveal(timed_dequeue);
    reveal(keep_dequeued);
    reveal(close_dequeue);
}

/// A sample is taken exactly where the tasks of the child were read, all of them stopped, with the
/// clock not past the deadline after it.
pub proof fn lemma_samples<B>(s: State<B>, deadline: u64, t: Seq<Event<B>>)
    ensures
        ({
            let (n, r) = sample_stopped(s, deadline, t);
            let i = s.trace.len() as int;
            &&& n.trace.len() > i
            &&& r is Ok <==> {
                &&& n.trace.len() == i + 2
                &&& n.trace[i] matches Event::Tasks(_, Ok(states)) && all_stopped(
                    states,
                    s.expected_tasks,
                )
                &&& n.trace[i + 1] matches Event::Now(Ok(now)) && now <= deadline
            }
            &&& n.trace[i] matches Event::Tasks(pid, _) && pid == s.pid
            &&& r matches Ok(now) ==> n.trace[i + 1] == Event::<B>::Now(Ok(now))
        }),
{
    reveal(sample_stopped);
}

/// A child is confirmed stopped exactly where two samples a millisecond apart, with a wait between
/// them, show it, both within the deadline, and the pause was not cancelled.
pub proof fn lemma_confirmed_stopped<B>(s: State<B>, deadline: u64, t: Seq<Event<B>>)
    ensures
        ({
            let (n, r) = confirm_stopped(s, deadline, t);
            let i = s.trace.len() as int;
            &&& r is Ok <==> {
                &&& n.trace.len() == i + 6
                &&& n.trace[i] matches Event::Tasks(_, Ok(states)) && all_stopped(
                    states,
                    s.expected_tasks,
                )
                &&& n.trace[i + 2] is Wait
                &&& n.trace[i + 3] matches Event::Tasks(_, Ok(states)) && all_stopped(
                    states,
                    s.expected_tasks,
                )
                &&& n.trace[i + 1] matches Event::Now(Ok(first)) && (n.trace[i
                    + 4] matches Event::Now(Ok(second)) && first <= deadline && second <= deadline
                    && second - first >= 1_000_000)
                &&& n.trace[i + 5] == Event::<B>::Cancelled(Ok(false))
            }
        }),
{
    reveal(confirm_stopped);
    reveal(check_stopped);
    reveal(sample_stopped);
    reveal(wait_once);
    reveal(check_cancelled);
}

/// The ring is whole exactly where its loss was read and has not grown. What could not be read is a
/// doubt before the child is known to be stopped.
pub proof fn lemma_whole_ring<B>(s: State<B>, t: Seq<Event<B>>)
    ensures
        ({
            let whole = s.due(t)->RingLoss_0 matches Ok(loss) && loss <= s.ring_loss_baseline;
            let heard = s.hear(Event::RingLoss(s.due(t)->RingLoss_0));
            &&& check_ring_loss(s, t).1 is Ok <==> whole
            &&& check_ring(s, t).1 is Ok <==> whole
            &&& ring_intact(s, t).1 is Ok <==> whole
            &&& check_ring_loss(s, t).0 == heard
            &&& check_ring(s, t).0 == heard
            &&& ring_intact(s, t).0 == heard
            &&& ring_intact(s, t).1 matches Err(fault) ==> (fault.lifecycle <==> s.due(
                t,
            )->RingLoss_0 is Err)
        }),
{
    reveal(check_ring_loss);
    reveal(check_ring);
    reveal(ring_intact);
}

/// The marker lets a stage go on exactly where it was read and unseen, and the cancellation where
/// it was read and not set. An empty queue is one whose dequeue gave nothing.
pub proof fn lemma_checks<B>(
    s: State<B>,
    raced: Text,
    deadline: u64,
    found: FaultText,
    t: Seq<Event<B>>,
)
    ensures
        check_marker(s, raced, t).1 is Ok <==> s.due(t)->Marker_0 == Ok::<bool, Text>(false),
        check_cancelled(s, t).1 is Ok <==> s.due(t)->Cancelled_0 == Ok::<bool, Text>(false),
        wait_once(s, t).1 is Ok <==> s.due(t)->Wait_0 is Ok,
        check_empty(s, deadline, found, t).1 is Ok <==> (timed_dequeue(
            s,
            Some(deadline),
            t,
        ).1 matches Ok(None)),
{
    reveal(check_marker);
    reveal(check_cancelled);
    reveal(wait_once);
    reveal(check_empty);
}

/// A record coalesced into the request of a process where its id pair names the process, the helper
/// was not called, and the lowest status bit says so.
pub proof fn lemma_coalesced(record: DiscoveryRecord, pid: u32)
    ensures
        record.coalesced_of(pid) <==> {
            &&& record.pid_tgid as int / 0x1_0000_0000 == pid
            &&& record.send_signal_rc == i64::MIN
            &&& record.status_flags % 2 == 1
        },
{
    let flags = record.status_flags;
    assert(flags & 1 != 0 <==> flags % 2 == 1) by (bit_vector);
}

/// Of what comes before the winner of a request: a record of the child for which the helper was
/// called is the winner, one that coalesced into the request in time is passed over, and anything
/// else is a fault. What is passed over counts against the budget.
pub proof fn lemma_before_the_winner<B>(
    s: State<B>,
    next: TimedItem<B>,
    latest_ns: u64,
    deadline: u64,
)
    ensures
        ({
            let (n, r) = before_winner(s, next, latest_ns, deadline);
            &&& r matches Ok(Some(w)) ==> next.item == DiscoveryItem::Record(w.record)
                && w.received == next && w.latest_ns == latest_ns && n == s
            &&& (r matches Ok(Some(_))) <==> (next.item matches DiscoveryItem::Record(record)
                && record.pid() == s.pid && record.send_signal_rc != i64::MIN)
            &&& (r matches Ok(None)) <==> (next.item matches DiscoveryItem::Record(record)
                && record.coalesced_of(s.pid) && next.before_ns <= next.after_ns
                && record.hook_ts_ns <= next.after_ns && next.after_ns <= deadline)
            &&& r matches Ok(None) ==> n == (State {
                failure_items: (s.failure_items + 1) as usize,
                ..s
            })
        }),
{
    reveal(before_winner);
}

/// What the winner of a request means. A negative result of the helper is a refusal, and nothing
/// else is: the child then runs. Only a zero result of an unmarked record that is in time is an
/// acceptance: the child is then taken for stopped. A zero result of an unmarked record proves that
/// the stop was accepted, in time or not.
pub proof fn lemma_judged<B>(s: State<B>, w: Winner<B>)
    ensures
        ({
            let (n, r) = judge_winner(s, w);
            let rc = w.record.send_signal_rc;
            let marked = w.record.status_flags % 2 == 1;
            &&& (r matches Ok(Verdict::Refused(_))) <==> rc < 0
            &&& rc < 0 ==> n.epoch.rejected && !n.may_be_stopped && !n.epoch.zero_candidate
            &&& rc == 0 && !marked ==> n.epoch.accepted
            &&& r matches Ok(Verdict::Accepted(deadline)) ==> {
                &&& rc == 0
                &&& !marked
                &&& n.may_be_stopped
                &&& n.epoch.accepted
                &&& w.record.hook_ts_ns <= w.received.after_ns <= deadline
                &&& w.received.before_ns <= w.received.after_ns
                &&& w.latest_ns <= deadline
                &&& deadline <= w.record.hook_ts_ns + 500_000_000
                &&& s.active_deadline matches Some(limit) ==> deadline <= limit
                &&& s.failure_deadline matches Some(limit) ==> deadline <= limit
                &&& n.active_deadline == Some(deadline)
            }
            &&& rc == 0 && !marked && s.active_deadline is None && s.failure_deadline is None
                && w.record.hook_ts_ns <= w.received.after_ns && w.received.before_ns
                <= w.received.after_ns && w.received.after_ns <= w.record.hook_ts_ns + 500_000_000
                && w.latest_ns <= w.record.hook_ts_ns + 500_000_000 && w.record.hook_ts_ns
                + 500_000_000 <= u64::MAX ==> r is Ok
        }),
{
    reveal(judge_winner);
    reveal(judge_taken);
    lemma_coalesced(w.record, 0);
    let flags = w.record.status_flags;
    assert(flags & 1 != 0 <==> flags % 2 == 1) by (bit_vector);
}

/// Only a record that coalesced into the request of the child, in time, may follow its winner.
pub proof fn lemma_followers<B>(pid: u32, next: TimedItem<B>, deadline: u64)
    ensures
        follower(pid, next, deadline) is Ok <==> (next.item matches DiscoveryItem::Record(record)
            && record.coalesced_of(pid) && next.before_ns <= next.after_ns && record.hook_ts_ns
            <= next.after_ns && next.after_ns <= deadline),
{
}

/// Whether a history ends with a dequeue that gave nothing, and a read of the clock.
pub open spec fn ends_empty<B>(trace: Seq<Event<B>>, deadline: u64) -> bool {
    &&& trace.len() >= 2
    &&& trace[trace.len() - 2] == Event::<B>::Dequeue(Ok(None))
    &&& trace.last() matches Event::Now(Ok(now)) && now <= deadline
}

/// Whether an event of a history is harmless after the winner: it hands over nothing, or a record
/// that coalesced into the request.
pub open spec fn only_coalesced<B>(e: Event<B>, pid: u32) -> bool {
    e matches Event::Dequeue(Ok(Some(item))) ==> (item matches DiscoveryItem::Record(record)
        && record.coalesced_of(pid))
}

/// What follows the winner is drained to the end: the drain succeeds only once the queue was seen
/// empty in time, and only records that coalesced into the request were met on the way.
pub proof fn lemma_followers_are_drained<B>(
    s: State<B>,
    deadline: u64,
    turns: nat,
    t: Seq<Event<B>>,
)
    ensures
        ({
            let (n, r) = causal_drain(s, deadline, turns, t);
            r is Ok ==> {
                &&& ends_empty(n.trace, deadline)
                &&& n.trace.len() >= s.trace.len()
                &&& forall|j: int| 0 <= j < s.trace.len() ==> #[trigger] n.trace[j] == s.trace[j]
                &&& forall|j: int|
                    s.trace.len() <= j < n.trace.len() ==> only_coalesced(
                        #[trigger] n.trace[j],
                        s.pid,
                    )
            }
        }),
    decreases turns,
{
    reveal(causal_drain);
    if turns > 0 {
        let (m, item) = timed_dequeue(s, Some(deadline), t);
        lemma_dequeues(s, Some(deadline), t);
        lemma_one_dequeue(s, Some(deadline), t);
        if let Ok(Some(next)) = item {
            if follower(m.pid, next, deadline) is Ok {
                lemma_followers_are_drained(m, deadline, (turns - 1) as nat, t);
                let (n, r) = causal_drain(m, deadline, (turns - 1) as nat, t);
                if r is Ok {
                    assert forall|j: int| s.trace.len() <= j < n.trace.len() implies only_coalesced(
                        #[trigger] n.trace[j],
                        s.pid,
                    ) by {
                        if j < m.trace.len() {
                            assert(n.trace[j] == m.trace[j]);
                        }
                    }
                    assert forall|j: int| 0 <= j < s.trace.len() implies #[trigger] n.trace[j]
                        == s.trace[j] by {
                        assert(m.trace[j] == s.trace[j]);
                    }
                }
            }
        }
    }
}

/// A dequeue asks the queue once, and leaves the child and its budget.
proof fn lemma_one_dequeue<B>(s: State<B>, deadline: Option<u64>, t: Seq<Event<B>>)
    ensures
        ({
            let (n, r) = timed_dequeue(s, deadline, t);
            let i = s.trace.len() as int;
            &&& n.pid == s.pid
            &&& n.failure_items == s.failure_items
            &&& forall|j: int|
                i <= j < n.trace.len() ==> (#[trigger] n.trace[j] is Dequeue ==> j == i + 1)
            &&& r matches Err(fault) ==> (deadline matches Some(limit) ==> gave_out(
                n.trace.last(),
                limit,
            ))
        }),
{
    reveal(timed_dequeue);
    reveal(keep_dequeued);
    reveal(close_dequeue);
}

/// Whether an event keeps a drain from going on: the clock, the queue or the child could not be
/// read, the clock is past the deadline, or the child is another one.
pub open spec fn gave_out<B>(e: Event<B>, deadline: u64) -> bool {
    ||| e matches Event::Now(Err(_))
    ||| e matches Event::Now(Ok(now)) && now > deadline
    ||| e matches Event::Dequeue(Err(_))
    ||| e matches Event::SameGeneration(_, _, Err(_))
    ||| e matches Event::SameGeneration(_, _, Ok(false))
}

/// A failing pause drains the queue until it is empty, its budget of 128 items is spent, or it can
/// not go on; the reason of that is the last message. No message before is dropped.
pub proof fn lemma_failing_drain<B>(
    s: State<B>,
    errors: Seq<Text>,
    deadline: u64,
    malformed: Text,
    t: Seq<Event<B>>,
)
    ensures
        ({
            let (n, told, doubtful) = drain(s, errors, deadline, malformed, t);
            &&& told.len() >= errors.len()
            &&& forall|j: int| 0 <= j < errors.len() ==> #[trigger] told[j] == errors[j]
            &&& {
                ||| n.failure_items >= 128
                ||| ends_empty(n.trace, deadline)
                ||| gave_out(n.trace.last(), deadline) && told.len() > errors.len()
            }
            &&& doubtful ==> told.len() > errors.len() && gave_out(n.trace.last(), deadline)
        }),
    decreases 128 - s.failure_items,
{
    reveal(drain);
    if s.failure_items < 128 {
        let (m, item) = timed_dequeue(s, Some(deadline), t);
        lemma_dequeues(s, Some(deadline), t);
        lemma_one_dequeue(s, Some(deadline), t);
        if let Ok(Some(timed)) = item {
            let errors2 = if timed.item == DiscoveryItem::Malformed {
                errors.push(malformed)
            } else {
                errors
            };
            lemma_failing_drain(m.drained_one(), errors2, deadline, malformed, t);
            let told = drain(m.drained_one(), errors2, deadline, malformed, t).1;
            assert forall|j: int| 0 <= j < errors.len() implies #[trigger] told[j] == errors[j] by {
                assert(told[j] == errors2[j]);
            }
        }
    }
}

/// A malformed item that a failing pause takes from the queue is told.
pub proof fn lemma_malformed_is_told<B>(
    s: State<B>,
    errors: Seq<Text>,
    deadline: u64,
    malformed: Text,
    t: Seq<Event<B>>,
)
    requires
        s.failure_items < 128,
        timed_dequeue(s, Some(deadline), t).1 matches Ok(Some(timed)) && timed.item is Malformed,
    ensures
        ({
            let told = drain(s, errors, deadline, malformed, t).1;
            &&& told.len() > errors.len()
            &&& told[errors.len() as int] == malformed
        }),
{
    reveal(drain);
    let m = timed_dequeue(s, Some(deadline), t).0;
    lemma_one_dequeue(s, Some(deadline), t);
    lemma_failing_drain(m.drained_one(), errors.push(malformed), deadline, malformed, t);
    assert(errors.push(malformed)[errors.len() as int] == malformed);
}

/// A refused pause stays at the queue until its deadline, unless its budget is spent or it can not
/// go on.
pub proof fn lemma_refused_drain<B>(
    s: State<B>,
    f: Refusal,
    deadline: u64,
    turns: nat,
    t: Seq<Event<B>>,
)
    ensures
        ({
            let (n, _) = reject_drain(s, f, deadline, turns, t);
            &&& n.trace.len() >= s.trace.len()
            &&& {
                ||| n.failure_items >= 128
                ||| n.trace.len() >= s.trace.len() + turns
                ||| gave_out(n.trace.last(), deadline)
                ||| n.trace.last() matches Event::Wait(Err(_))
                ||| n.trace.last() matches Event::Now(Ok(now)) && now >= deadline
            }
        }),
    decreases turns,
{
    reveal(reject_drain);
    if turns > 0 && s.failure_items < 128 {
        reveal(reject_turn);
        reveal(reject_wait);
        lemma_dequeues(s, Some(deadline), t);
        lemma_one_dequeue(s, Some(deadline), t);
        let (m, g, on) = reject_turn(s, f, deadline, t);
        if on {
            lemma_refused_drain(m, g, deadline, (turns - 1) as nat, t);
        }
    }
}

/// A refused pause keeps the first message and every doubt.
pub proof fn lemma_refusals(f: Refusal, a: Text, b: Text)
    ensures
        f.kept(a).kept(b) == f.kept(a),
        f.retained is None ==> f.kept(a).retained == Some(a),
        f.retained is Some ==> f.kept(a) == f,
        f.doubted(a).doubts == f.doubts.push(a),
        f.doubted(a).retained == f.retained,
{
}

/// A frozen application hands over every kept record, in order and once, for the owner. It succeeds
/// exactly where the reply says that everything required stands.
pub proof fn lemma_frozen_application<B>(s: State<B>, deadline: u64, t: Seq<Event<B>>)
    ensures
        ({
            let (n, r) = apply_frozen(s, deadline, t);
            let i = s.trace.len() as int;
            &&& n.trace.len() > i
            &&& n.trace[i] matches Event::Apply {
                records,
                deadline: by,
                additions_allowed,
                pause_owned,
                reply,
                ..
            } && records == s.pending_records && by == Some(deadline) && additions_allowed
                && pause_owned && (r is Ok <==> (reply matches Ok(outcome)
                && outcome.required_complete))
            &&& n.pending_records.len() == 0
        }),
{
    reveal(apply_frozen);
    reveal(take_stop_candidate);
}

/// An application of records that are not the pause's hands over every kept record too, not for the
/// owner; it succeeds exactly where the reply does, and its failure carries the message.
pub proof fn lemma_unowned_application<B>(s: State<B>, deadline: Option<u64>, t: Seq<Event<B>>)
    ensures
        ({
            let (n, r) = apply_unowned(s, deadline, t);
            let i = s.trace.len() as int;
            &&& n.trace.len() == i + 1
            &&& n.trace[i] matches Event::Apply {
                records,
                deadline: by,
                additions_allowed,
                pause_owned,
                reply,
                ..
            } && records == s.pending_records && by == deadline && additions_allowed
                && !pause_owned && (r is Ok <==> reply is Ok) && (reply matches Err(fault) ==> (
            r matches Err(fail) && fail.messages.len() == 1 && fail.messages[0] == fault.message))
            &&& n.pending_records.len() == 0
            &&& n.may_be_stopped == s.may_be_stopped
            &&& n.epoch == s.epoch
            &&& n.counters == s.counters
        }),
{
    reveal(apply_unowned);
}

/// A resumed child is seen to run at once: it is the pinned one, its authorization rests, and it
/// has ended, or a task of it is not stopped, within the deadline.
pub proof fn lemma_running_is_seen<B>(
    s: State<B>,
    deadline: u64,
    successor: bool,
    t: Seq<Event<B>>,
)
    ensures
        ({
            let (n, r) = observe_turn(s, deadline, successor, t);
            let i = s.trace.len() as int;
            let word = if successor { Some(1u64) } else { None };
            let rests = n.trace.len() > i + 2 && n.trace[i] == Event::<B>::SameGeneration(
                s.pid,
                s.generation,
                Ok(true),
            ) && n.trace[i + 1] == Event::<B>::Authorization(Ok(word));
            &&& rests && n.trace.len() == i + 4 && n.trace[i + 2] == Event::<B>::OriginalExited(
                Ok(true),
            ) && (n.trace[i + 3] matches Event::Now(Ok(now)) && now <= deadline) ==> r == Some(
                Ok::<(), Text>(()),
            )
            &&& rests && n.trace.len() == i + 5 && n.trace[i + 2] == Event::<B>::OriginalExited(
                Ok(false),
            ) && (n.trace[i + 3] matches Event::Tasks(_, Ok(states)) && !all_stopped(
                states,
                s.expected_tasks,
            )) && (n.trace[i + 4] matches Event::Now(Ok(now)) && now <= deadline) ==> r == Some(
                Ok::<(), Text>(()),
            )
            &&& r matches Some(Ok(_)) ==> n.trace[i] == Event::<B>::SameGeneration(
                s.pid,
                s.generation,
                Ok(true),
            ) && (n.trace.last() matches Event::Now(Ok(now)) && now <= deadline)
            &&& r is None ==> (n.trace.last() matches Event::Wait(Ok(_)))
        }),
{
    reveal(observe_turn);
    reveal(observe_resting);
    reveal(observe_tasks);
    reveal(within);
}

} // verus!
