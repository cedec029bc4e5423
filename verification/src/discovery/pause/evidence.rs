//! What a confirmed pause rests on: the child was seen stopped twice, everything that is required
//! was attached while it was, it was seen stopped again with nothing left in the queue, its
//! authorization was removed, and it was resumed once and seen to run.

use crate::discovery::pause::calls::{
    call_authorization, call_now, call_resume, call_revalidate, call_ring_loss,
};
use crate::discovery::pause::conduct::{fits, group_conduct, kept, Grade};
use crate::discovery::pause::cycle::{
    accepted_cycle, apply_frozen, arm_successor, attach_frozen, causal_drain, check_cancelled,
    check_empty, check_marker, check_ring, check_stopped, confirm_stopped, freeze, hand_over,
    install_successor, release, resume_child, retire_authorization, ring_intact, still_quiet, thaw,
    wait_once,
};
use crate::discovery::pause::io::{
    extends, group_history, lemma_extends_one, tied, Event, TimedItem,
};
use crate::discovery::pause::progress::{goes_on, group_progress};
use crate::discovery::pause::restraint::group_restraint;
use crate::discovery::pause::service::{
    cycle, revalidate, revalidate_turn, serve_candidate, serve_empty, serve_fresh, serve_stale,
    serve_word, service, service_deferred, service_received, service_requested,
};
use crate::discovery::pause::state::State;
use crate::discovery::pause::steps::{
    close_dequeue, doubt, keep_dequeued, miss, observe_resting, observe_resumed, observe_tasks,
    observe_turn, remove_and_account, sample_stopped, timed_dequeue, within, FaultText, TURNS,
};
use crate::discovery::pause::tasks::all_stopped;
use crate::record::{DiscoveryItem, DiscoveryRecord, PAUSE_REQUESTED};
use crate::text::Text;
use vstd::prelude::*;

verus! {

broadcast use {group_history, lemma_extends_one, group_conduct};

/// Whether every task of the child was seen stopped.
pub open spec fn stopped_at<B>(s: State<B>, e: Event<B>) -> bool {
    e matches Event::Tasks(pid, Ok(states)) && pid == s.pid && all_stopped(
        states,
        s.expected_tasks,
    )
}

/// Whether records were applied by the owner, and everything that is required stands.
pub open spec fn attached_at<B>(e: Event<B>) -> bool {
    e matches Event::Apply { pause_owned: true, reply: Ok(outcome), .. }
        && outcome.required_complete
}

/// Whether the authorization was removed.
pub open spec fn removed_at<B>(e: Event<B>) -> bool {
    e matches Event::Remove(Ok(_))
}

/// Whether the child was resumed.
pub open spec fn resumed_at<B>(e: Event<B>) -> bool {
    e matches Event::Resume(Ok(_))
}

/// Whether the child was seen to run: it had ended, a task of it was not stopped, or a hook of it
/// had asked for the next pause.
pub open spec fn running_at<B>(s: State<B>, e: Event<B>) -> bool {
    ||| e matches Event::OriginalExited(Ok(true))
    ||| e matches Event::Tasks(pid, Ok(states)) && pid == s.pid && !all_stopped(
        states,
        s.expected_tasks,
    )
    ||| e matches Event::Authorization(Ok(Some(word))) && word == PAUSE_REQUESTED
}

/// Where a history shows the parts of a confirmed pause.
pub struct Course {
    /// The child is stopped.
    pub first: int,
    /// The child is stopped still.
    pub second: int,
    /// Everything that is required is attached.
    pub attached: int,
    /// The child is stopped after the attachment.
    pub third: int,
    /// The queue is empty.
    pub emptied: int,
    /// The authorization is removed.
    pub removed: int,
    /// The child is resumed.
    pub resumed: int,
    /// The child runs.
    pub running: int,
}

/// Whether a history shows a confirmed pause between two positions: the child stopped twice, then
/// the attachment, then the child stopped again, then the queue empty and the authorization
/// removed, then the resume and the running child. The child is resumed at no other time, no
/// marker of a protected call is seen, nothing is applied after the attachment, and nothing is
/// asked of the queue once it was empty.
pub open spec fn shows<B>(
    s: State<B>,
    trace: Seq<Event<B>>,
    from: int,
    to: int,
    at: Course,
) -> bool {
    &&& 0 <= from <= at.first < at.second < at.attached < at.third < at.emptied < at.resumed
    &&& at.third < at.removed < at.resumed < at.running < to <= trace.len()
    &&& stopped_at(s, trace[at.first])
    &&& stopped_at(s, trace[at.second])
    &&& attached_at(trace[at.attached])
    &&& stopped_at(s, trace[at.third])
    &&& trace[at.emptied] == Event::<B>::Dequeue(Ok(None))
    &&& removed_at(trace[at.removed])
    &&& resumed_at(trace[at.resumed])
    &&& running_at(s, trace[at.running])
    &&& forall|i: int|
        from <= i < to ==> {
            &&& #[trigger] trace[i] is Resume ==> i == at.resumed
            &&& trace[i] != Event::<B>::Marker(Ok(true))
            &&& trace[i] is Apply ==> i <= at.attached
            &&& trace[i] is Dequeue ==> i <= at.emptied
        }
}

/// Whether a pause that was confirmed between two states is all that happened between them.
#[verifier::opaque]
pub open spec fn sole<B>(a: State<B>, b: State<B>) -> bool {
    a.counters.confirmed < b.counters.confirmed ==> exists|at: Course| #[trigger]
        shows(a, b.trace, a.trace.len() as int, b.trace.len() as int, at)
}

/// Whether a pause that was confirmed between two states is evident from the history between
/// them.
#[verifier::opaque]
pub open spec fn evident<B>(a: State<B>, b: State<B>) -> bool {
    a.counters.confirmed < b.counters.confirmed ==> exists|from: int, to: int, at: Course|
        a.trace.len() <= from && #[trigger] shows(a, b.trace, from, to, at)
}

/// An event stays where it is.
proof fn lemma_stays<E>(a: Seq<E>, b: Seq<E>, i: int)
    requires
        extends(b, a),
        0 <= i < a.len(),
    ensures
        a.len() <= b.len(),
        b[i] == a[i],
{
    reveal(extends);
}

/// Without a further confirmed attempt nothing has to be evident.
broadcast proof fn lemma_sole_idle<B>(a: State<B>, b: State<B>)
    requires
        #[trigger] goes_on(a, b),
        a.counters.confirmed == b.counters.confirmed,
    ensures
        sole(a, b),
{
    reveal(sole);
}

/// A pause stays the only one after a stage that leaves the child alone.
broadcast proof fn lemma_sole_after<B>(a: State<B>, b: State<B>, c: State<B>)
    requires
        #[trigger] goes_on(a, b),
        a.counters.confirmed == b.counters.confirmed,
        kept(Grade::Calm, a.trace, b.trace),
        goes_on(b, c),
        #[trigger] sole(b, c),
    ensures
        sole(a, c),
{
    reveal(sole);
    reveal(goes_on);
    if a.counters.confirmed < c.counters.confirmed {
        let n = c.trace.len() as int;
        let at = choose|at: Course| #[trigger] shows(b, c.trace, b.trace.len() as int, n, at);
        lemma_earlier(b, c.trace, a.trace, b.trace, at);
        assert(shows(a, c.trace, a.trace.len() as int, n, at));
    }
}

/// A pause is shown from an earlier position too where the calls in between leave the child alone.
proof fn lemma_earlier<B>(
    s: State<B>,
    trace: Seq<Event<B>>,
    a: Seq<Event<B>>,
    b: Seq<Event<B>>,
    at: Course,
)
    requires
        kept(Grade::Calm, a, b),
        extends(trace, b),
        shows(s, trace, b.len() as int, trace.len() as int, at),
    ensures
        shows(s, trace, a.len() as int, trace.len() as int, at),
{
    reveal(kept);
    reveal(extends);
    assert forall|i: int| a.len() <= i < b.len() implies fits(Grade::Calm, #[trigger] trace[i]) by {
        assert(trace[i] == b[i]);
    }
}

/// The only pause is an evident one.
broadcast proof fn lemma_sole_is_evident<B>(a: State<B>, b: State<B>)
    requires
        #[trigger] sole(a, b),
    ensures
        evident(a, b),
{
    reveal(sole);
    reveal(evident);
}

/// What is evident at each of two stages is evident at both.
broadcast proof fn lemma_evident_next<B>(a: State<B>, b: State<B>, c: State<B>)
    requires
        #[trigger] evident(a, b),
        #[trigger] evident(b, c),
        goes_on(a, b),
        goes_on(b, c),
    ensures
        evident(a, c),
{
    reveal(evident);
    reveal(goes_on);
    reveal(extends);
    if a.counters.confirmed < c.counters.confirmed {
        if a.counters.confirmed < b.counters.confirmed {
            let (from, to, at) = choose|from: int, to: int, at: Course|
                a.trace.len() <= from && #[trigger] shows(a, b.trace, from, to, at);
            assert forall|i: int| 0 <= i < b.trace.len() implies #[trigger] c.trace[i]
                == b.trace[i] by {}
            assert(shows(a, c.trace, from, to, at));
        } else {
            let (from, to, at) = choose|from: int, to: int, at: Course|
                b.trace.len() <= from && #[trigger] shows(b, c.trace, from, to, at);
            assert(shows(a, c.trace, from, to, at));
        }
    }
}

/// A snapshot by which the child is stopped.
proof fn lemma_check_stopped<B>(s: State<B>, deadline: u64, t: Seq<Event<B>>)
    requires
        check_stopped(s, deadline, t).1 is Ok,
    ensures
        s.trace.len() < check_stopped(s, deadline, t).0.trace.len(),
        stopped_at(s, check_stopped(s, deadline, t).0.trace[s.trace.len() as int]),
{
    reveal(check_stopped);
    reveal(sample_stopped);
}

/// A confirmed stop was seen twice.
proof fn lemma_confirm_stopped<B>(s: State<B>, deadline: u64, t: Seq<Event<B>>) -> (at: (int, int))
    requires
        confirm_stopped(s, deadline, t).1 is Ok,
    ensures
        ({
            let after = confirm_stopped(s, deadline, t).0;
            &&& goes_on(s, after)
            &&& s.trace.len() <= at.0 < at.1 < after.trace.len()
            &&& stopped_at(s, after.trace[at.0])
            &&& stopped_at(s, after.trace[at.1])
        }),
{
    broadcast use group_progress;

    reveal(confirm_stopped);
    reveal(goes_on);
    let after = confirm_stopped(s, deadline, t).0;
    let (s1, first) = check_stopped(s, deadline, t);
    lemma_check_stopped(s, deadline, t);
    let (s2, waited) = wait_once(s1, t);
    let (s3, second) = check_stopped(s2, deadline, t);
    lemma_check_stopped(s2, deadline, t);
    let a = s.trace.len() as int;
    let b = s2.trace.len() as int;
    assert(extends(s2.trace, s1.trace));
    assert(extends(s3.trace, s2.trace));
    assert(extends(after.trace, s3.trace));
    lemma_stays(s1.trace, s2.trace, a);
    lemma_stays(s2.trace, s3.trace, a);
    lemma_stays(s3.trace, after.trace, a);
    lemma_stays(s3.trace, after.trace, b);
    (a, b)
}

/// The frozen records were applied, and everything that is required stands.
proof fn lemma_attach_frozen<B>(s: State<B>, deadline: u64, t: Seq<Event<B>>) -> (at: int)
    requires
        attach_frozen(s, deadline, t).1 is Ok,
    ensures
        goes_on(s, attach_frozen(s, deadline, t).0),
        kept(Grade::Calm, s.trace, attach_frozen(s, deadline, t).0.trace),
        s.trace.len() <= at,
        attach_frozen(s, deadline, t).0.trace.len() == at + 1,
        attached_at(attach_frozen(s, deadline, t).0.trace[at]),
{
    broadcast use {group_progress, group_restraint};

    reveal(attach_frozen);
    reveal(apply_frozen);
    reveal(goes_on);
    let (s1, drained) = causal_drain(
        s,
        deadline,
        TURNS as nat,
        t,
    );
    let (s2, ring) = check_ring(s1, t);
    let (s3, marker) = check_marker(
        s2,
        "protected marker preceded attachment"@,
        t,
    );
    let (s4, applied) = apply_frozen(s3, deadline, t);
    reveal(extends);
    assert(s.trace.len() <= s1.trace.len() <= s2.trace.len() <= s3.trace.len());
    assert(attach_frozen(s, deadline, t).0 == s4);
    assert(attached_at(s4.trace[s3.trace.len() as int]));
    s3.trace.len() as int
}

/// The authorization was removed.
proof fn lemma_retire<B>(s: State<B>, t: Seq<Event<B>>)
    requires
        retire_authorization(s, t).1 is Ok,
    ensures
        s.trace.len() < retire_authorization(s, t).0.trace.len(),
        removed_at(retire_authorization(s, t).0.trace[s.trace.len() as int]),
{
    reveal(retire_authorization);
    reveal(remove_and_account);
    reveal(State::classified_requested);
    reveal(State::classified_absent);
    reveal(State::classified_armed);
}

/// Whether a queue that was found empty is left alone from then on.
pub open spec fn left_empty<B>(a: Seq<Event<B>>, b: Seq<Event<B>>, at: int) -> bool {
    &&& a.len() <= at < b.len()
    &&& b[at] == Event::<B>::Dequeue(Ok(None))
    &&& forall|i: int| at < i < b.len() ==> fits(Grade::Still, #[trigger] b[i])
}

/// The queue is still left alone.
proof fn lemma_left_empty<B>(a: Seq<Event<B>>, b: Seq<Event<B>>, c: Seq<Event<B>>, at: int)
    requires
        left_empty(a, b, at),
        kept(Grade::Still, b, c),
    ensures
        left_empty(a, c, at),
{
    reveal(kept);
    reveal(extends);
    assert forall|i: int| at < i < c.len() implies fits(Grade::Still, #[trigger] c[i]) by {
        if i < b.len() {
            assert(c[i] == b[i]);
        }
    }
}

/// The queue was empty.
proof fn lemma_check_empty<B>(s: State<B>, deadline: u64, found: FaultText, t: Seq<Event<B>>)
    requires
        check_empty(s, deadline, found, t).1 is Ok,
    ensures
        left_empty(
            s.trace,
            check_empty(s, deadline, found, t).0.trace,
            (s.trace.len() + 1) as int,
        ),
{
    reveal(check_empty);
    reveal(timed_dequeue);
    reveal(keep_dequeued);
    reveal(close_dequeue);
}

/// The child was stopped, and the queue was empty.
proof fn lemma_still_quiet<B>(
    s: State<B>,
    deadline: u64,
    raced: Text,
    found: FaultText,
    t: Seq<Event<B>>,
) -> (at: (int, int))
    requires
        still_quiet(s, deadline, raced, found, t).1 is Ok,
    ensures
        ({
            let after = still_quiet(s, deadline, raced, found, t).0;
            &&& goes_on(s, after)
            &&& kept(Grade::Idle, s.trace, after.trace)
            &&& s.trace.len() <= at.0 < at.1
            &&& stopped_at(s, after.trace[at.0])
            &&& left_empty(s.trace, after.trace, at.1)
        }),
{
    broadcast use {group_progress, group_restraint};

    reveal(still_quiet);
    reveal(goes_on);
    let after = still_quiet(s, deadline, raced, found, t).0;
    let (s1, _) = wait_once(s, t);
    let (s2, _) = check_stopped(s1, deadline, t);
    lemma_check_stopped(s1, deadline, t);
    let (s3, _) = check_marker(s2, raced, t);
    lemma_check_empty(s3, deadline, found, t);
    let a = s1.trace.len() as int;
    assert(extends(s3.trace, s2.trace));
    assert(extends(after.trace, s3.trace));
    lemma_stays(s2.trace, s3.trace, a);
    lemma_stays(s3.trace, after.trace, a);
    reveal(extends);
    (a, (s3.trace.len() + 1) as int)
}

/// The authorization was removed before it was handed over. Where a successor was installed, the
/// queue was found empty once more.
proof fn lemma_hand_over<B>(
    s: State<B>,
    deadline: u64,
    successor: bool,
    t: Seq<Event<B>>,
) -> (at: int)
    requires
        hand_over(s, deadline, successor, t).1 is Ok,
    ensures
        ({
            let after = hand_over(s, deadline, successor, t).0;
            &&& goes_on(s, after)
            &&& s.trace.len() < after.trace.len()
            &&& removed_at(after.trace[s.trace.len() as int])
            &&& kept(Grade::Idle, s.trace, after.trace)
            &&& if successor {
                left_empty(s.trace, after.trace, at)
            } else {
                kept(Grade::Still, s.trace, after.trace)
            }
        }),
{
    broadcast use {group_progress, group_restraint};

    reveal(hand_over);
    reveal(install_successor);
    reveal(goes_on);
    lemma_retire(s, t);
    let s1 = retire_authorization(s, t).0;
    let after = hand_over(s, deadline, successor, t).0;
    assert(extends(after.trace, s1.trace));
    lemma_stays(s1.trace, after.trace, s.trace.len() as int);
    if successor {
        let s2 = arm_successor(s1, t).0;
        let at = lemma_still_quiet(
            s2,
            deadline,
            "marker raced successor pre-arm"@,
            doubt("successor was consumed before prior resume"@),
            t,
        );
        reveal(extends);
        at.1
    } else {
        0
    }
}

/// The child was seen to run.
proof fn lemma_observe_resumed<B>(
    s: State<B>,
    deadline: u64,
    successor: bool,
    turns: nat,
    t: Seq<Event<B>>,
) -> (at: int)
    requires
        observe_resumed(s, deadline, successor, turns, t).1 is Ok,
    ensures
        s.trace.len() <= at < observe_resumed(s, deadline, successor, turns, t).0.trace.len(),
        running_at(s, observe_resumed(s, deadline, successor, turns, t).0.trace[at]),
    decreases turns,
{
    broadcast use group_progress;

    reveal(observe_resumed);
    reveal(goes_on);
    let (s1, r) = observe_turn(s, deadline, successor, t);
    if r is None {
        reveal(extends);
        lemma_observe_resumed(s1, deadline, successor, (turns - 1) as nat, t)
    } else {
        reveal(observe_turn);
        reveal(observe_resting);
        reveal(observe_tasks);
        reveal(within);
        let n = s.trace.len() as int;
        if running_at(s, s1.trace[n + 1]) {
            n + 1
        } else if running_at(s, s1.trace[n + 2]) {
            n + 2
        } else {
            n + 3
        }
    }
}

/// The child was resumed and seen to run.
proof fn lemma_release<B>(s: State<B>, deadline: u64, successor: bool, t: Seq<Event<B>>) -> (at: (
    int,
    int,
))
    requires
        release(s, deadline, successor, t).1 is Ok,
    ensures
        ({
            let after = release(s, deadline, successor, t).0;
            &&& goes_on(s, after)
            &&& s.trace.len() <= at.0 < at.1 < after.trace.len()
            &&& resumed_at(after.trace[at.0])
            &&& running_at(s, after.trace[at.1])
            &&& forall|i: int|
                s.trace.len() <= i < after.trace.len() && i != at.0 ==> fits(
                    Grade::Still,
                    #[trigger] after.trace[i],
                )
        }),
{
    broadcast use {group_progress, group_restraint};

    reveal(release);
    reveal(resume_child);
    reveal(goes_on);
    let (s1, _) = check_cancelled(s, t);
    let (s2, _) = check_ring(s1, t);
    let (s3, _) = call_resume(s2.resuming(), t);
    let s4 = if successor {
        s3.resumed().passed_on()
    } else {
        s3.resumed()
    };
    let turns = TURNS as nat;
    let n = lemma_observe_resumed(s4, deadline, successor, turns, t);
    let after = observe_resumed(s4, deadline, successor, turns, t).0;
    let c = s2.trace.len() as int;
    assert(resumed_at(s4.trace[c]));
    assert(extends(after.trace, s4.trace));
    lemma_stays(s4.trace, after.trace, c);
    assert(release(s, deadline, successor, t).0 == after);
    assert(kept(Grade::Still, s.trace, s2.trace));
    assert(kept(Grade::Still, s4.trace, after.trace));
    reveal(extends);
    reveal(kept);
    assert(s4.trace.len() == c + 1);
    assert forall|i: int| s.trace.len() <= i < after.trace.len() && i != c implies fits(
        Grade::Still,
        #[trigger] after.trace[i],
    ) by {
        if i < c {
            assert(after.trace[i] == s4.trace[i]);
            assert(s4.trace[i] == s2.trace[i]);
        }
    }
    (c, n)
}

/// The parts of an accepted cycle that ends well make up its course.
proof fn lemma_course<B>(
    s: State<B>,
    freezing: Seq<Event<B>>,
    frozen: Seq<Event<B>>,
    handed: Seq<Event<B>>,
    trace: Seq<Event<B>>,
    at: Course,
)
    requires
        kept(Grade::Calm, s.trace, freezing),
        freezing.len() == at.attached + 1,
        kept(Grade::Idle, freezing, frozen),
        kept(Grade::Idle, frozen, handed),
        extends(trace, handed),
        s.trace.len() <= at.first < at.second < at.attached < at.third < at.emptied,
        at.third < at.removed < handed.len(),
        left_empty(s.trace, handed, at.emptied),
        handed.len() <= at.resumed < at.running < trace.len(),
        stopped_at(s, freezing[at.first]),
        stopped_at(s, freezing[at.second]),
        attached_at(freezing[at.attached]),
        stopped_at(s, handed[at.third]),
        removed_at(handed[at.removed]),
        resumed_at(trace[at.resumed]),
        running_at(s, trace[at.running]),
        forall|i: int|
            handed.len() <= i < trace.len() && i != at.resumed ==> fits(
                Grade::Still,
                #[trigger] trace[i],
            ),
    ensures
        shows(s, trace, s.trace.len() as int, trace.len() as int, at),
{
    reveal(kept);
    reveal(extends);
    assert forall|i: int| 0 <= i < handed.len() implies #[trigger] trace[i] == handed[i] by {}
    assert forall|i: int| 0 <= i < frozen.len() implies #[trigger] handed[i] == frozen[i] by {}
    assert forall|i: int| 0 <= i < freezing.len() implies #[trigger] frozen[i] == freezing[i] by {}
    assert forall|i: int| s.trace.len() <= i < handed.len() implies fits(
        Grade::Calm,
        #[trigger] trace[i],
    ) && (i > at.attached ==> fits(Grade::Idle, trace[i])) by {
        if i < freezing.len() {
            assert(trace[i] == freezing[i]);
        } else if i < frozen.len() {
            assert(trace[i] == frozen[i]);
        }
    }
    assert forall|i: int| at.emptied < i < handed.len() implies fits(
        Grade::Still,
        #[trigger] trace[i],
    ) by {
        assert(fits(Grade::Still, handed[i]));
    }
}

/// An accepted cycle that ends well is the only pause that it confirms.
broadcast proof fn lemma_accepted_cycle<B>(s: State<B>, deadline: u64, t: Seq<Event<B>>)
    ensures
        sole(s, (#[trigger] accepted_cycle(s, deadline, t)).0),
{
    broadcast use {group_progress, group_restraint};

    let (after, r) = accepted_cycle(s, deadline, t);
    if r is Err {
        lemma_sole_idle(s, after);
    } else {
        reveal(goes_on);
        reveal(accepted_cycle);
        reveal(freeze);
        reveal(thaw);
        let (s1, _) = ring_intact(s, t);
        let (s2, _) = confirm_stopped(s1, deadline, t);
        let stops = lemma_confirm_stopped(s1, deadline, t);
        let (s3, attached) = attach_frozen(s2, deadline, t);
        let k = lemma_attach_frozen(s2, deadline, t);
        let (s4, _) = freeze(s, deadline, t);
        let quiet = lemma_still_quiet(
            s3,
            deadline,
            "protected marker raced attachment"@,
            miss("queue was not empty before resume"@),
            t,
        );
        let count = attached->Ok_0;
        let successor = count == 1 && s4.cycles == 0 && s4.rearming_enabled;
        let (s5, _) = hand_over(s4, deadline, successor, t);
        let again = lemma_hand_over(s4, deadline, successor, t);
        let (s6, _) = release(s5, deadline, successor, t);
        let ends = lemma_release(s5, deadline, successor, t);
        let emptied = if successor {
            again
        } else {
            quiet.1
        };
        let at = Course {
            first: stops.0,
            second: stops.1,
            attached: k,
            third: quiet.0,
            emptied,
            removed: s4.trace.len() as int,
            resumed: ends.0,
            running: ends.1,
        };
        assert(after.trace == s6.trace);
        assert(extends(s3.trace, s2.trace));
        assert(extends(s5.trace, s4.trace));
        assert(extends(s6.trace, s5.trace));
        lemma_stays(s2.trace, s3.trace, stops.0);
        lemma_stays(s2.trace, s3.trace, stops.1);
        lemma_stays(s4.trace, s5.trace, quiet.0);
        if !successor {
            lemma_left_empty(s3.trace, s4.trace, s5.trace, emptied);
        }
        reveal(extends);
        assert(left_empty(s.trace, s5.trace, emptied));
        lemma_course(s, s3.trace, s4.trace, s5.trace, s6.trace, at);
        reveal(sole);
    }
}

/// What the stage `cycle` confirms is one pause.
broadcast proof fn lemma_cycle<B>(
    s: State<B>,
    received: TimedItem<B>,
    first: DiscoveryRecord,
    t: Seq<Event<B>>,
)
    ensures
        sole(s, (#[trigger] cycle(s, received, first, t)).0),
        !(cycle(s, received, first, t).1 is Settled) ==> cycle(
            s,
            received,
            first,
            t,
        ).0.counters.confirmed == s.counters.confirmed,
{
    broadcast use {
        group_progress,
        group_restraint,
        lemma_sole_idle,
        lemma_sole_after,
        lemma_accepted_cycle,
    };

    reveal(goes_on);
    reveal(cycle);
}

/// What the stage `serve_candidate` confirms is one pause.
broadcast proof fn lemma_serve_candidate<B>(
    s: State<B>,
    received: TimedItem<B>,
    first: DiscoveryRecord,
    t: Seq<Event<B>>,
)
    ensures
        sole(s, (#[trigger] serve_candidate(s, received, first, t)).0),
{
    broadcast use {group_progress, group_restraint, lemma_sole_idle, lemma_sole_after, lemma_cycle};

    reveal(goes_on);
    reveal(serve_candidate);
}

/// What the stage `serve_fresh` confirms is one pause.
broadcast proof fn lemma_serve_fresh<B>(s: State<B>, received: TimedItem<B>, t: Seq<Event<B>>)
    ensures
        sole(s, (#[trigger] serve_fresh(s, received, t)).0),
{
    broadcast use {
        group_progress,
        group_restraint,
        lemma_sole_idle,
        lemma_sole_after,
        lemma_serve_candidate,
    };

    reveal(goes_on);
    reveal(serve_fresh);
}

/// What the stage `service_requested` confirms is one pause.
broadcast proof fn lemma_service_requested<B>(s: State<B>, fixed: u64, t: Seq<Event<B>>)
    ensures
        sole(s, (#[trigger] service_requested(s, fixed, t)).0),
{
    broadcast use {
        group_progress,
        group_restraint,
        lemma_sole_idle,
        lemma_sole_after,
        lemma_serve_fresh,
    };

    reveal(goes_on);
    reveal(service_requested);
}

/// What the stage `serve_stale` confirms is one pause.
broadcast proof fn lemma_serve_stale<B>(s: State<B>, t: Seq<Event<B>>)
    ensures
        sole(s, (#[trigger] serve_stale(s, t)).0),
{
    broadcast use {
        group_progress,
        group_restraint,
        lemma_sole_idle,
        lemma_sole_after,
        lemma_service_requested,
    };

    reveal(goes_on);
    reveal(serve_stale);
}

/// What the stage `service_received` confirms is one pause.
broadcast proof fn lemma_service_received<B>(s: State<B>, received: TimedItem<B>, t: Seq<Event<B>>)
    ensures
        sole(s, (#[trigger] service_received(s, received, t)).0),
{
    broadcast use {
        group_progress,
        group_restraint,
        lemma_sole_idle,
        lemma_sole_after,
        lemma_serve_candidate,
        lemma_serve_stale,
    };

    reveal(goes_on);
    reveal(service_received);
}

/// What the stage `serve_word` confirms is one pause.
broadcast proof fn lemma_serve_word<B>(s: State<B>, t: Seq<Event<B>>)
    ensures
        sole(s, (#[trigger] serve_word(s, t)).0),
{
    broadcast use {
        group_progress,
        group_restraint,
        lemma_sole_idle,
        lemma_sole_after,
        lemma_service_requested,
    };

    reveal(goes_on);
    reveal(serve_word);
    let s1 = call_authorization(s, t).0;
    assert(goes_on(s, s1));
    let s2 = call_now(s1, t).0;
    assert(goes_on(s, s2));
}

/// What the stage `serve_empty` confirms is one pause.
broadcast proof fn lemma_serve_empty<B>(s: State<B>, t: Seq<Event<B>>)
    ensures
        sole(s, (#[trigger] serve_empty(s, t)).0),
{
    broadcast use {
        group_progress,
        group_restraint,
        lemma_sole_idle,
        lemma_sole_after,
        lemma_serve_word,
    };

    reveal(goes_on);
    reveal(serve_empty);
    let s1 = call_ring_loss(s, t).0;
    assert(goes_on(s, s1));
    assert(goes_on(s, s1.attempting()));
}

/// What the stage `service` confirms is one pause.
broadcast proof fn lemma_service<B>(s: State<B>, t: Seq<Event<B>>)
    ensures
        sole(s, (#[trigger] service(s, t)).0),
{
    broadcast use {
        group_progress,
        group_restraint,
        lemma_sole_idle,
        lemma_sole_after,
        lemma_service_received,
        lemma_serve_empty,
    };

    reveal(goes_on);
    reveal(service);
}

/// What the stage `service_deferred` confirms is one pause.
broadcast proof fn lemma_service_deferred<B>(s: State<B>, received: TimedItem<B>, t: Seq<Event<B>>)
    ensures
        sole(s, (#[trigger] service_deferred(s, received, t)).0),
{
    broadcast use {
        group_progress,
        group_restraint,
        lemma_sole_idle,
        lemma_sole_after,
        lemma_service_received,
    };

    reveal(goes_on);
    reveal(service_deferred);
    if let DiscoveryItem::Record(record) = received.item {
        assert(goes_on(s, s.kept(record)));
    }
}

/// What the stage `revalidate_turn` confirms is evident.
broadcast proof fn lemma_revalidate_turn<B>(s: State<B>, t: Seq<Event<B>>)
    ensures
        evident(s, (#[trigger] revalidate_turn(s, t)).0),
{
    broadcast use {
        group_progress,
        lemma_sole_idle,
        lemma_sole_is_evident,
        lemma_evident_next,
        lemma_service_deferred,
    };

    reveal(goes_on);
    reveal(revalidate_turn);
    let s1 = call_revalidate(s, s.active(), t).0;
    assert(goes_on(s, s1));
    assert(goes_on(s, s1.attempting()));
}

/// What the stage `revalidate` confirms is evident.
broadcast proof fn lemma_revalidate<B>(s: State<B>, turns: nat, t: Seq<Event<B>>)
    ensures
        evident(s, (#[trigger] revalidate(s, turns, t)).0),
    decreases turns,
{
    broadcast use {
        group_progress,
        lemma_sole_idle,
        lemma_sole_is_evident,
        lemma_evident_next,
        lemma_revalidate_turn,
    };

    reveal(goes_on);
    reveal(revalidate);
    if turns > 0 {
        let (next, _) = revalidate_turn(s, t);
        lemma_revalidate(next, (turns - 1) as nat, t);
    }
}

/// A pause is confirmed only on evidence. Whenever a service of a received item counts an attempt as
/// confirmed, its own calls show, and show once: the child stopped twice, then everything that is
/// required attached, then the child stopped again, then the queue empty and the authorization
/// removed, then the child resumed, and then the child running. The child is resumed exactly once
/// and no marker of a protected call is seen.
pub proof fn lemma_received_on_evidence<B>(s: State<B>, received: TimedItem<B>, t: Seq<Event<B>>)
    ensures
        sole(s, service_received(s, received, t).0),
{
    lemma_service_received(s, received, t);
}

/// The same holds of a service of the queue.
pub proof fn lemma_service_on_evidence<B>(s: State<B>, t: Seq<Event<B>>)
    ensures
        sole(s, service(s, t).0),
{
    lemma_service(s, t);
}

/// The revalidation after the release of the child may run several services; where it counts an
/// attempt as confirmed, a part of its calls shows the same.
pub proof fn lemma_revalidation_on_evidence<B>(s: State<B>, turns: nat, t: Seq<Event<B>>)
    ensures
        evident(s, revalidate(s, turns, t).0),
{
    lemma_revalidate(s, turns, t);
}

/// Whether the calls that a log shows more than it did are those of one confirmed pause.
pub open spec fn confirms<B>(s: State<B>, log: Seq<Event<B>>, now: Seq<Event<B>>) -> bool {
    exists|at: Course| #[trigger] shows(s, now, log.len() as int, now.len() as int, at)
}

/// What the history of a coordinator shows of a confirmed pause, the log of its calls shows.
pub proof fn lemma_log_confirms<B>(
    a: State<B>,
    b: State<B>,
    log: Seq<Event<B>>,
    now: Seq<Event<B>>,
)
    requires
        sole(a, b),
        tied(a.trace, b.trace, log, now),
        a.counters.confirmed < b.counters.confirmed,
    ensures
        confirms(a, log, now),
{
    reveal(sole);
    reveal(tied);
    reveal(extends);
    let from = a.trace.len() as int;
    let at = choose|at: Course| #[trigger] shows(a, b.trace, from, b.trace.len() as int, at);
    let by = log.len() - from;
    let there = Course {
        first: at.first + by,
        second: at.second + by,
        attached: at.attached + by,
        third: at.third + by,
        emptied: at.emptied + by,
        removed: at.removed + by,
        resumed: at.resumed + by,
        running: at.running + by,
    };
    assert forall|i: int| log.len() <= i < now.len() implies #[trigger] now[i] == b.trace[i
        - by] by {}
    assert(shows(a, now, log.len() as int, now.len() as int, there));
}

} // verus!
