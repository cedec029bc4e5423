//! How a cycle runs its course: how its winner is found, what it takes to attach and to hand over,
//! when the child is released, and what is done where the course is broken off.

use crate::discovery::pause::cleanup::{cleanup_removal, cleanup_word, noted};
use crate::discovery::pause::cycle::{
    apply_frozen, arm_successor, attach_frozen, await_record, before_winner, check_cancelled,
    check_empty, check_marker, check_ring, check_stopped, coalesced_first, find_winner, later,
    release, resume_child, seek_winner, still_quiet, wait_once,
};
use crate::discovery::pause::diagnostic::{diagnostic_line, PauseDiagnostic};
use crate::discovery::pause::ending::lemma_cleanup_reports;
use crate::discovery::pause::failure::{
    fail_cycle, fail_reasoned, fail_removal, fail_word, finish_nonconfirmed, reject_apply,
    reject_end, reject_generation, reject_removal, Refusal,
};
use crate::discovery::pause::io::{Event, TimedItem};
use crate::discovery::pause::rules::PauseFail;
use crate::discovery::pause::service::{
    arm_failed, disabled, requested_item, service_deferred, service_received,
};
use crate::discovery::pause::stages::{ends_empty, lemma_dequeues};
use crate::discovery::pause::state::{ArmResult, State};
use crate::discovery::pause::steps::{
    apply_unowned, check_ring_loss, close_dequeue, keep_dequeued, remove_and_account,
    sample_stopped, take_stop_candidate, timed_dequeue, FaultText, TURNS,
};
use crate::discovery::pause::tasks::all_stopped;
use crate::record::{DiscoveryItem, DiscoveryRecord};
use crate::text::Text;
use vstd::prelude::*;

verus! {

/// The tightest of the deadlines that stand and a candidate: no later than any of them, and one of
/// them.
pub proof fn lemma_tightest<B>(s: State<B>, candidate: u64)
    ensures
        s.bound(candidate) <= candidate,
        s.active_deadline matches Some(limit) ==> s.bound(candidate) <= limit,
        s.failure_deadline matches Some(limit) ==> s.bound(candidate) <= limit,
        s.bound(candidate) == candidate || s.active_deadline == Some(s.bound(candidate))
            || s.failure_deadline == Some(s.bound(candidate)),
        s.bounded(candidate).active_deadline == Some(s.bound(candidate)),
{
}

proof fn lemma_sought<B>(s: State<B>, latest_ns: u64, deadline: u64, turns: nat, t: Seq<Event<B>>)
    ensures
        seek_winner(s, latest_ns, deadline, turns, t).1 matches Ok(w) ==> {
            &&& w.received.item == DiscoveryItem::Record(w.record)
            &&& w.record.pid() == s.pid
            &&& w.record.send_signal_rc != i64::MIN
            &&& w.latest_ns >= latest_ns
            &&& w.received.before_ns <= deadline
            &&& w.received.after_ns <= deadline
        },
    decreases turns,
{
    reveal(seek_winner);
    if turns > 0 {
        let (a, item) = timed_dequeue(s, Some(deadline), t);
        lemma_dequeues(s, Some(deadline), t);
        assert(a.pid == s.pid) by {
            reveal(timed_dequeue);
            reveal(keep_dequeued);
            reveal(close_dequeue);
        }
        match item {
            Ok(None) => {
                let b = await_record(a, deadline, "coalesced record had no winner"@, t).0;
                assert(b.pid == a.pid) by {
                    reveal(await_record);
                    reveal(wait_once);
                }
                lemma_sought(b, latest_ns, deadline, (turns - 1) as nat, t);
            },
            Ok(Some(next)) => {
                reveal(before_winner);
                let b = before_winner(a, next, latest_ns, deadline).0;
                lemma_sought(
                    b,
                    later(next, latest_ns),
                    deadline,
                    (turns - 1) as nat,
                    t,
                );
            },
            Err(_) => {},
        }
    }
}

/// The winner of a request is a record of the child for which the helper was called. The first
/// record is the winner where it is one. Where it coalesced into the request, the winner was
/// dequeued after it, in time, and remembers the latest hook among those before it.
pub proof fn lemma_winners<B>(
    s: State<B>,
    received: TimedItem<B>,
    first: DiscoveryRecord,
    t: Seq<Event<B>>,
)
    ensures
        ({
            let (n, r) = find_winner(s, received, first, t);
            &&& first.send_signal_rc != i64::MIN ==> n == s && (r matches Ok(w) && w.record == first
                && w.received == received && w.latest_ns == 0)
            &&& first.send_signal_rc == i64::MIN ==> (r matches Ok(w) ==> {
                &&& w.record.pid() == s.pid
                &&& w.record.send_signal_rc != i64::MIN
                &&& w.received.item == DiscoveryItem::Record(w.record)
                &&& w.latest_ns >= first.hook_ts_ns
                &&& w.received.after_ns <= first.hook_ts_ns + 500_000_000
                &&& first.marked_coalesced()
            })
        }),
{
    reveal(find_winner);
    reveal(coalesced_first);
    if first.send_signal_rc == i64::MIN && first.hook_ts_ns + 500_000_000 <= u64::MAX {
        let candidate = (first.hook_ts_ns + 500_000_000) as u64;
        let deadline = s.counting().bound(candidate);
        lemma_tightest(s.counting(), candidate);
        lemma_sought(
            s.counting().bounded(candidate),
            first.hook_ts_ns,
            deadline,
            TURNS as nat,
            t,
        );
    }
}

/// The child is quiet exactly where, after a wait, all of its tasks are stopped in time, the marker
/// is unseen, and the queue is empty.
pub proof fn lemma_quiet_children<B>(
    s: State<B>,
    deadline: u64,
    raced: Text,
    found: FaultText,
    t: Seq<Event<B>>,
)
    ensures
        ({
            let (n, r) = still_quiet(s, deadline, raced, found, t);
            let i = s.trace.len() as int;
            &&& r is Ok ==> {
                &&& n.trace.len() == i + 7
                &&& n.trace[i] is Wait
                &&& n.trace[i + 1] matches Event::Tasks(_, Ok(states)) && all_stopped(
                    states,
                    s.expected_tasks,
                )
                &&& n.trace[i + 2] matches Event::Now(Ok(now)) && now <= deadline
                &&& n.trace[i + 3] == Event::<B>::Marker(Ok(false))
                &&& ends_empty(n.trace, deadline)
            }
            &&& n.trace.len() == i + 7 && n.trace[i + 5] == Event::<B>::Dequeue(Ok(None)) && (
            n.trace[i + 4] matches Event::Now(Ok(now)) && now <= deadline) && (n.trace[i
                + 6] matches Event::Now(Ok(now)) && now <= deadline) ==> r is Ok
        }),
{
    reveal(still_quiet);
    reveal(wait_once);
    reveal(check_stopped);
    reveal(sample_stopped);
    reveal(check_marker);
    reveal(check_empty);
    reveal(timed_dequeue);
    reveal(keep_dequeued);
    reveal(close_dequeue);
}

/// What was frozen is attached only with a whole ring and an unseen marker, and the number that is
/// given is that of the records that were handed over.
pub proof fn lemma_attached<B>(s: State<B>, deadline: u64, t: Seq<Event<B>>)
    ensures
        ({
            let (n, r) = attach_frozen(s, deadline, t);
            r matches Ok(count) ==> {
                let k = n.trace.len() as int;
                &&& k >= 3
                &&& n.trace[k - 1] matches Event::Apply { records, reply: Ok(outcome), .. }
                    && outcome.required_complete && records.len() as usize == count
                &&& n.trace[k - 2] == Event::<B>::Marker(Ok(false))
                &&& n.trace[k - 3] matches Event::RingLoss(Ok(_))
                &&& n.pending_records.len() == 0
            }
        }),
{
    reveal(attach_frozen);
    reveal(check_ring);
    reveal(check_ring_loss);
    reveal(check_marker);
    reveal(apply_frozen);
    reveal(take_stop_candidate);
}

/// A successor stands exactly where its exchange succeeded, its word read back armed and the ring
/// loss could be read. Its fate is then open, and its time is the clock before the exchange.
pub proof fn lemma_successors<B>(s: State<B>, t: Seq<Event<B>>)
    ensures
        ({
            let (n, r) = arm_successor(s, t);
            let i = s.trace.len() as int;
            let now = t[i]->Now_0;
            let armed = t[i + 1]->Arm_0;
            let word = t[i + 2]->Authorization_0;
            let loss = t[i + 3]->RingLoss_0;
            &&& r is Ok <==> armed is Ok && word == Ok::<Option<u64>, Text>(Some(1)) && loss is Ok
            &&& r matches Ok(baseline) ==> loss == Ok::<u64, Text>(baseline)
                && n.epoch.successor_installed && n.epoch.successor_unresolved && (n.armed_at_ns
                == match now {
                Ok(now) => Some(now),
                Err(_) => None,
            })
            &&& r matches Err(fault) ==> fault.lifecycle && n.epoch == s.epoch
        }),
{
    reveal(arm_successor);
}

/// The child is released only where the pause was not cancelled and the ring is whole; otherwise no
/// resume is made. The resume is noted before it is made.
pub proof fn lemma_releases<B>(s: State<B>, deadline: u64, successor: bool, t: Seq<Event<B>>)
    ensures
        ({
            let (n, r) = release(s, deadline, successor, t);
            let i = s.trace.len() as int;
            let cancelled = t[i]->Cancelled_0;
            let loss = t[i + 1]->RingLoss_0;
            let whole = loss matches Ok(lost) && lost <= s.ring_loss_baseline;
            &&& cancelled != Ok::<bool, Text>(false) ==> r is Err && n == s.hear(
                Event::Cancelled(cancelled),
            )
            &&& cancelled == Ok::<bool, Text>(false) && !whole ==> r is Err && n == s.hear(
                Event::Cancelled(cancelled),
            ).hear(Event::RingLoss(loss))
            &&& cancelled == Ok::<bool, Text>(false) && whole ==> release(s, deadline, successor, t)
                == resume_child(
                s.hear(Event::Cancelled(cancelled)).hear(Event::RingLoss(loss)),
                deadline,
                successor,
                t,
            )
        }),
        ({
            let (n, r) = resume_child(s, deadline, successor, t);
            let reply = s.due(t)->Resume_0;
            &&& reply is Err ==> (r matches Err(fault) && fault.lifecycle)
                && n.epoch.resume_attempted && !(!s.epoch.resume_succeeded
                && n.epoch.resume_succeeded) && n.trace == s.trace.push(Event::Resume(reply))
        }),
{
    reveal(release);
    reveal(check_cancelled);
    reveal(check_ring);
    reveal(check_ring_loss);
    reveal(resume_child);
}

/// A message is added to a list exactly where a reply failed.
pub proof fn lemma_noted(errors: Seq<Text>, reply: Result<(), Text>)
    ensures
        reply is Ok ==> noted(errors, reply) == errors,
        reply matches Err(message) ==> noted(errors, reply) == errors.push(message),
{
}

/// A word that cannot be read leaves a child that may be stopped wherever a resume may be owed.
/// Every fault of the word is told, and none where it raises no doubt.
pub proof fn lemma_words_of_a_failure<B>(s: State<B>, errors: Seq<Text>, t: Seq<Event<B>>)
    ensures
        ({
            let (n, told, sound) = fail_word(s, errors, t);
            let (m, listed) = cleanup_word(s, errors, t);
            let word = s.due(t)->Authorization_0;
            &&& word is Err ==> !sound
            &&& word is Err && s.resume_debt() ==> n.may_be_stopped && m.may_be_stopped
            &&& word is Err && s.may_be_stopped ==> n.may_be_stopped && m.may_be_stopped
            &&& word is Err && !s.may_be_stopped && !s.resume_debt() ==> !n.may_be_stopped
                && !m.may_be_stopped
            &&& sound ==> told == errors
            &&& !sound ==> told.len() == errors.len() + 1 && told.drop_last() == errors
            &&& listed == errors || listed.len() == errors.len() + 1 && listed.drop_last()
                == errors
            &&& word matches Err(message) ==> told == errors.push(message) && listed
                == errors.push(message)
            &&& word == Ok::<Option<u64>, Text>(Some(2)) ==> sound && n.may_be_stopped
                && n.attempt_open
        }),
{
    reveal(fail_word);
    reveal(cleanup_word);
    reveal(State::classified_requested);
    reveal(State::classified_absent);
    reveal(State::classified_armed);
    let word = s.due(t)->Authorization_0;
    let (n, told, sound) = fail_word(s, errors, t);
    let (m, listed) = cleanup_word(s, errors, t);
    if told.len() == errors.len() + 1 {
        assert(told.drop_last() =~= errors);
    }
    if listed.len() == errors.len() + 1 {
        assert(listed.drop_last() =~= errors);
    }
}

/// An authorization whose removal raised no doubt is gone, and no further one is installed after a
/// failure. A removal that did is told. A cleanup and a refusal take it for gone in any case.
pub proof fn lemma_removal_of_a_failure<B>(s: State<B>, errors: Seq<Text>, t: Seq<Event<B>>)
    ensures
        ({
            let (n, told, sound) = fail_removal(s, errors, t);
            let (m, listed) = cleanup_removal(s, errors, t);
            let (k, f) = reject_removal(s, t);
            let removed = remove_and_account(s, t).1;
            &&& sound <==> removed is Ok
            &&& sound ==> !n.armed && !n.rearming_enabled && told == errors
            &&& !sound ==> told.len() == errors.len() + 1 && n.armed == remove_and_account(
                s,
                t,
            ).0.armed
            &&& !m.armed
            &&& listed.len() == if removed is Ok {
                errors.len()
            } else {
                errors.len() + 1
            }
            &&& !k.armed
            &&& f.retained is None
            &&& f.doubts.len() == if removed is Ok {
                0nat
            } else {
                1
            }
        }),
{
    reveal(fail_removal);
    reveal(cleanup_removal);
    reveal(reject_removal);
}

/// A refused pause hands over every kept record as the owner. A failure of that is kept, and a
/// child that is not the pinned one, or of which that cannot be told, is a doubt.
pub proof fn lemma_refused_application<B>(
    s: State<B>,
    f: Refusal,
    deadline: u64,
    t: Seq<Event<B>>,
)
    ensures
        ({
            let (n, g) = reject_apply(s, f, deadline, t);
            let i = s.trace.len() as int;
            let same = t[i + 1]->SameGeneration_2;
            &&& n.trace.len() == i + 2
            &&& n.trace[i] matches Event::Apply {
                records,
                additions_allowed,
                pause_owned,
                reply,
                ..
            } && records == s.pending_records && additions_allowed && pause_owned && (reply is Ok
                ==> g.retained == f.retained) && (reply matches Err(fault) ==> g.retained == Some(
                match f.retained {
                    Some(first) => first,
                    None => fault.message,
                },
            ))
            &&& n.trace[i + 1] == Event::<B>::SameGeneration(s.pid, s.generation, same)
            &&& same == Ok::<bool, Text>(true) ==> g.doubts == f.doubts
            &&& same != Ok::<bool, Text>(true) ==> g.doubts.len() == f.doubts.len() + 1
            &&& n.pending_records.len() == 0
        }),
{
    reveal(reject_apply);
    reveal(reject_generation);
}

/// A refused pause that nothing puts in doubt ends: no authorization stands, no further one is
/// installed, the child is known to run, and one partial attempt is counted under an automatic
/// policy, which goes on.
pub proof fn lemma_refusal_ends<B>(s: State<B>, f: Refusal, t: Seq<Event<B>>)
    requires
        f.doubts.len() == 0,
    ensures
        ({
            let (n, r) = reject_end(s, f, t);
            &&& !n.armed && !n.rearming_enabled && !n.may_be_stopped
            &&& !n.epoch.debt() && !n.epoch.successor()
            &&& n.trace == s.trace
            &&& s.policy is Auto ==> r is Ok && !n.attempt_open && n.notices.len()
                == s.notices.len() + 1
            &&& s.policy is Auto && s.counters.partial < u64::MAX ==> n.counters.partial
                == s.counters.partial + 1
            &&& s.policy is Always ==> r is Err
        }),
{
    reveal(reject_end);
    reveal(finish_nonconfirmed);
}

/// A cycle that fails ends well only without doubt about the child, under a policy that does not
/// require the pause, and with every record validated.
pub proof fn lemma_when_a_failure_is_soft<B>(
    s: State<B>,
    message: Text,
    lifecycle: bool,
    t: Seq<Event<B>>,
)
    ensures
        fail_cycle(s, message, lifecycle, t).1 is Ok ==> !lifecycle && !(s.policy is Always)
            && s.unvalidated_records == 0,
{
    reveal(fail_cycle);
    reveal(fail_reasoned);
    let a = fail_reasoned(s, message, lifecycle);
    lemma_cleanup_reports(a, seq![message], false, true, t);
    lemma_cleanup_reports(a, seq![message], true, false, t);
    lemma_cleanup_reports(a, seq![message], false, false, t);
}

/// An arm that fails before an authorization was installed installs none again. Under an automatic
/// policy one partial attempt is counted and its reason is told; a policy that never pauses has no
/// such attempt to tell.
pub proof fn lemma_failed_arm<B>(s: State<B>, message: Text, t: Seq<Event<B>>)
    ensures
        ({
            let (n, r) = arm_failed(s, message, t);
            &&& s.policy is Auto ==> {
                &&& r matches Ok(ArmResult::Disabled)
                &&& !n.rearming_enabled
                &&& !n.attempt_open
                &&& s.counters.partial < u64::MAX ==> n.counters.partial == s.counters.partial + 1
                &&& !s.attempt_open && s.counters.attempts < u64::MAX ==> n.counters.attempts
                    == s.counters.attempts + 1
                &&& n.counters.confirmed == s.counters.confirmed
                &&& n.trace == s.trace
                &&& !s.attempt_open ==> n.notices == s.notices.push(
                    diagnostic_line(PauseDiagnostic::ArmFailedBeforeEpoch),
                )
            }
            &&& !(r matches Ok(ArmResult::Armed))
        }),
{
    reveal(arm_failed);
}

/// What waits for the record of a request: a record from before the live authorization is applied
/// and passed over, an empty queue is waited for, and any other item is given.
pub proof fn lemma_awaited<B>(s: State<B>, deadline: u64, t: Seq<Event<B>>)
    ensures
        ({
            let (a, item) = timed_dequeue(s, Some(deadline), t);
            let (n, r) = requested_item(s, deadline, t);
            &&& item is Err ==> r is Err
            &&& item matches Ok(Some(given)) ==> {
                let old = given.item matches DiscoveryItem::Record(record) && record.pid() == a.pid
                    && a.armed && (a.armed_at_ns matches Some(since) && record.hook_ts_ns < since);
                &&& !old ==> n == a && (r matches Ok(Some(x)) && x == given)
                &&& old ==> !(r matches Ok(Some(_))) && n.pending_records.len() == 0
                    && n.trace.last() is Apply
            }
            &&& item matches Ok(None) ==> !(r matches Ok(Some(_))) && n.pending_records
                == a.pending_records
        }),
{
    reveal(requested_item);
    reveal(apply_unowned);
    reveal(await_record);
    reveal(wait_once);
}

/// An item that a revalidation met is served as one from the queue, its record among those that are
/// kept.
pub proof fn lemma_deferred<B>(s: State<B>, received: TimedItem<B>, t: Seq<Event<B>>)
    ensures
        received.item matches DiscoveryItem::Record(record) ==> service_deferred(s, received, t)
            == service_received(
            State { pending_records: s.pending_records.push(record), ..s },
            received,
            t,
        ),
        received.item is Malformed ==> service_deferred(s, received, t) == service_received(
            s,
            received,
            t,
        ),
{
    reveal(service_deferred);
}

/// A result that leaves the coordinator disabled never says that it is armed, and hides no failure.
pub proof fn lemma_disabled(r: Result<(), PauseFail>)
    ensures
        r is Ok <==> disabled(r) is Ok,
        disabled(r) matches Ok(result) ==> result is Disabled,
        r matches Err(fail) ==> disabled(r) == Err::<ArmResult, PauseFail>(fail),
{
}

} // verus!
