//! What a drain of the discovery queue comes to, said of the calls that it made and of their
//! replies.

use crate::discovery::pause::retirement::{
    drain_close, drain_empty, drain_item, drain_settle, drain_turn, drained, Drain, DrainEvent,
    DrainTurn, Found,
};
use crate::record::{DiscoveryItem, DiscoveryRecord};
use crate::text::Text;
use vstd::prelude::*;

verus! {

/// Whether a time is not after a deadline, where there is one.
pub open spec fn in_time(now: u64, deadline: Option<u64>) -> bool {
    match deadline {
        None => true,
        Some(end) => now <= end,
    }
}

/// Whether a drain goes on after a call: it came in time, it gave a record, or the child is still
/// the pinned one.
pub open spec fn goes_on(event: DrainEvent, d: Drain) -> bool {
    match event {
        DrainEvent::Now(Ok(now)) => in_time(now, d.deadline),
        DrainEvent::Dequeue(Ok(Some(DiscoveryItem::Record(_)))) => true,
        DrainEvent::SameGeneration(Ok(true)) => true,
        _ => false,
    }
}

/// Whether a call was answered with a refusal.
pub open spec fn refused(event: DrainEvent, message: Text) -> bool {
    match event {
        DrainEvent::Now(Err(given)) => given == message,
        DrainEvent::Dequeue(Err(given)) => given == message,
        DrainEvent::SameGeneration(Err(given)) => given == message,
        _ => false,
    }
}

/// Whether a record may not be taken under a deadline: it comes from outside of the time between
/// two readings of the clock that end before the deadline, or it is no repeated stop of the child.
pub open spec fn out_of_place(
    record: DiscoveryRecord,
    before_ns: u64,
    after_ns: u64,
    deadline: u64,
    child_pid: u32,
) -> bool {
    ||| after_ns < before_ns
    ||| record.hook_ts_ns > after_ns
    ||| before_ns > deadline
    ||| after_ns > deadline
    ||| record.hook_ts_ns > deadline
    ||| !record.coalesced_of(child_pid)
}

/// Whether the last dequeue of a history found the queue empty.
pub open spec fn saw_empty(trace: Seq<DrainEvent>) -> bool {
    exists|i: int|
        0 <= i < trace.len() && #[trigger] trace[i] == DrainEvent::Dequeue(
            Ok::<Option<DiscoveryItem>, Text>(None),
        ) && forall|j: int| i < j < trace.len() ==> !((#[trigger] trace[j]) is Dequeue)
}

/// Whether a record that may have stopped the child left the queue.
pub open spec fn candidate_left(trace: Seq<DrainEvent>, d: Drain) -> bool {
    exists|i: int| 0 <= i < trace.len() && is_candidate(#[trigger] trace[i], d)
}

/// Whether a call took a record from the queue that may have stopped the child, inside of a pause.
pub open spec fn is_candidate(event: DrainEvent, d: Drain) -> bool {
    match event {
        DrainEvent::Dequeue(Ok(Some(DiscoveryItem::Record(record)))) => d.pause_owned
            && record.pid() == d.child_pid && record.send_signal_rc == 0,
        _ => false,
    }
}

/// Whether a record that four calls took was in its place, where there is a deadline.
pub open spec fn in_place(trace: Seq<DrainEvent>, i: int, d: Drain) -> bool {
    (trace[i] matches DrainEvent::Now(Ok(before_ns)) && (trace[i + 1] matches DrainEvent::Dequeue(
        Ok(Some(DiscoveryItem::Record(record))),
    ) && (trace[i + 3] matches DrainEvent::Now(Ok(after_ns)) && (d.deadline matches Some(deadline)
        && out_of_place(record, before_ns, after_ns, deadline, d.child_pid))))) ==> false
}

/// Whether a drain may still go on: nothing stood in its way so far.
pub open spec fn undisturbed(f: Found, d: Drain) -> bool {
    &&& forall|i: int| 0 <= i < f.trace.len() ==> goes_on(#[trigger] f.trace[i], d)
    &&& f.trace.len() == 0 || (f.trace.len() >= 4 && f.trace[f.trace.len() - 2] is SameGeneration
        && f.trace[f.trace.len() - 1] is Now)
    &&& forall|i: int| 0 <= i && i + 4 <= f.trace.len() ==> #[trigger] in_place(f.trace, i, d)
    &&& f.malformed == 0
    &&& !f.nested_deadline
    &&& f.stop_candidate_seen == candidate_left(f.trace, d)
}

/// Whether the end of a drain is the one that its calls give. It is done where the queue was empty
/// or held a malformed item, it failed where a call was refused, the child changed, the deadline
/// was crossed or a record was out of place, and it hands on a record that is the pause owner's.
pub open spec fn ends_rightly(g: Found, turn: DrainTurn, d: Drain) -> bool {
    let n = g.trace.len() as int;
    let last = g.trace[n - 1];
    match turn {
        DrainTurn::More => false,
        DrainTurn::Done => {
            &&& goes_on(last, d) && last is Now
            &&& if g.malformed == 0 {
                n >= 3 && g.trace[n - 2] == DrainEvent::Dequeue(
                    Ok::<Option<DiscoveryItem>, Text>(None),
                )
            } else {
                n >= 4 && g.trace[n - 3] == DrainEvent::Dequeue(
                    Ok::<Option<DiscoveryItem>, Text>(Some(DiscoveryItem::Malformed)),
                ) && g.trace[n - 2] == DrainEvent::SameGeneration(Ok::<bool, Text>(true))
            }
        },
        DrainTurn::Failed(message) => {
            ||| n >= 1 && refused(last, message)
            ||| n >= 1 && last == DrainEvent::SameGeneration(Ok::<bool, Text>(false))
            ||| n >= 1 && (last matches DrainEvent::Now(Ok(now)) && !in_time(now, d.deadline))
            ||| n >= 4 && (g.trace[n - 4] matches DrainEvent::Now(Ok(before_ns)) && (
            g.trace[n - 3] matches DrainEvent::Dequeue(Ok(Some(DiscoveryItem::Record(record)))) && (
            last matches DrainEvent::Now(Ok(after_ns)) && (d.deadline matches Some(deadline)
                && out_of_place(record, before_ns, after_ns, deadline, d.child_pid)))))
        },
        DrainTurn::Deferred(deferred) => {
            &&& d.pause_owned && d.deadline is None
            &&& n >= 4 && deferred.item is Record
            &&& g.trace[n - 4] == DrainEvent::Now(Ok::<u64, Text>(deferred.before_ns))
            &&& g.trace[n - 3] == DrainEvent::Dequeue(
                Ok::<Option<DiscoveryItem>, Text>(Some(deferred.item)),
            )
            &&& g.trace[n - 2] == DrainEvent::SameGeneration(Ok::<bool, Text>(true))
            &&& last == DrainEvent::Now(Ok::<u64, Text>(deferred.after_ns))
        },
    }
}

/// What is known of a drain at its end.
pub open spec fn settled(g: Found, turn: DrainTurn, d: Drain) -> bool {
    let n = g.trace.len() as int;
    &&& ends_rightly(g, turn, d)
    &&& forall|i: int| 0 <= i < n - 3 ==> goes_on(#[trigger] g.trace[i], d)
    &&& forall|i: int| 0 <= i && i + 4 < n ==> #[trigger] in_place(g.trace, i, d)
    &&& turn is Done || turn is Deferred ==> forall|i: int|
        0 <= i && i + 4 <= n ==> #[trigger] in_place(g.trace, i, d)
    &&& forall|i: int, message: Text|
        0 <= i < n && #[trigger] refused(g.trace[i], message) ==> i == n - 1 && turn
            == DrainTurn::Failed(message)
    &&& g.stop_candidate_seen == candidate_left(g.trace, d)
    &&& g.nested_deadline == (g.trace[n - 1] matches DrainEvent::Now(Ok(now)) && !in_time(
        now,
        d.deadline,
    ))
}

/// One turn keeps a drain undisturbed, or ends it as its calls say.
proof fn lemma_turn_settles(f: Found, d: Drain, t: Seq<DrainEvent>)
    requires
        undisturbed(f, d),
    ensures
        ({
            let (g, turn) = drain_turn(f, d, t);
            &&& turn is More ==> undisturbed(g, d) && g.trace.len() == f.trace.len() + 4 && !(
            d.pause_owned && d.deadline is None)
            &&& !(turn is More) ==> settled(g, turn, d)
        }),
{
    reveal(drain_turn);
    reveal(drain_empty);
    reveal(drain_item);
    reveal(drain_close);
    reveal(drain_settle);
    let (g, turn) = drain_turn(f, d, t);
    let n = f.trace.len() as int;
    assert(forall|i: int| 0 <= i < n ==> g.trace[i] == f.trace[i]);
    assert forall|i: int| 0 <= i && i + 4 <= g.trace.len() && (i != n || !(
    turn is Failed)) implies #[trigger] in_place(g.trace, i, d) by {
        if i + 4 <= n {
            assert(in_place(f.trace, i, d));
        }
    }
    assert forall|i: int| n <= i < g.trace.len() && i != n + 1 implies !is_candidate(
        #[trigger] g.trace[i],
        d,
    ) by {
    }
    if candidate_left(f.trace, d) {
        let i = choose|i: int| 0 <= i < f.trace.len() && is_candidate(#[trigger] f.trace[i], d);
        assert(is_candidate(g.trace[i], d));
    }
    if candidate_left(g.trace, d) && !candidate_left(f.trace, d) {
        let i = choose|i: int| 0 <= i < g.trace.len() && is_candidate(#[trigger] g.trace[i], d);
        if i < n {
            assert(is_candidate(f.trace[i], d));
        }
        assert(i == n + 1);
    }
    if g.trace.len() > n + 1 && is_candidate(g.trace[n + 1], d) {
        assert(candidate_left(g.trace, d));
    }
}

/// A drain that ends well without a malformed item saw the queue empty, every refusal ends it and
/// is what it reports, and it fails, crosses its deadline, hands an item on or counts a stop of the
/// child only where its calls show that.
pub proof fn lemma_drain_ends_rightly(f: Found, d: Drain, turns: nat, t: Seq<DrainEvent>)
    requires
        undisturbed(f, d),
    ensures
        ({
            let (g, turn) = drained(f, d, turns, t);
            settled(g, turn, d) || (undisturbed(g, d) && turn is Failed && g.trace.len()
                == f.trace.len() + 4 * turns)
        }),
    decreases turns,
{
    reveal(drained);
    if turns > 0 {
        lemma_turn_settles(f, d, t);
        let (g, turn) = drain_turn(f, d, t);
        if turn is More {
            lemma_drain_ends_rightly(g, d, (turns - 1) as nat, t);
        }
    }
}

/// A drain that is done without a malformed item left nothing in the queue: its last dequeue found
/// none.
pub proof fn lemma_done_is_empty(d: Drain, turns: nat, t: Seq<DrainEvent>)
    ensures
        ({
            let (g, turn) = drained(Found::nothing(), d, turns, t);
            turn is Done && g.malformed == 0 ==> saw_empty(g.trace)
        }),
{
    lemma_drain_ends_rightly(Found::nothing(), d, turns, t);
    let (g, turn) = drained(Found::nothing(), d, turns, t);
    if turn is Done && g.malformed == 0 {
        let i = g.trace.len() - 2;
        assert(g.trace[i] == DrainEvent::Dequeue(Ok::<Option<DiscoveryItem>, Text>(None)));
    }
}

} // verus!
