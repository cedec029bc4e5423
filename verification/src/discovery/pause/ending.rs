//! The end of a pause: a cleanup makes its calls in order, and what started it is never forgotten.

use crate::cli::PausePolicy;
use crate::discovery::pause::calls::call_detach;
use crate::discovery::pause::cleanup::{
    cleanup_accounts, cleanup_applied, cleanup_authority, cleanup_batch, cleanup_closed,
    cleanup_end, cleanup_open, cleanup_records, cleanup_removal, cleanup_resume,
    cleanup_unvalidated, cleanup_word, drain, lemma_dequeue_keeps_budget, noted, relinquish,
    terminal_cleanup, unresolved,
};
use crate::discovery::pause::failure::{fail_cycle, fail_reasoned};
use crate::discovery::pause::io::{extends, tied, BatchFault, Event, PauseBatchOutcome};
use crate::discovery::pause::rules::MAX_FAILURE_ITEMS;
use crate::discovery::pause::state::State;
use crate::discovery::pause::steps::{
    apply_pending, close_dequeue, failure_bound, keep_dequeued, remove_and_account,
    take_stop_candidate, timed_dequeue,
};
use crate::record::DiscoveryItem;
use crate::text::Text;
use vstd::prelude::*;

verus! {

/// The phases of a cleanup, by the calls that are made in no other.
#[derive(Clone, Copy, Debug, PartialEq, Eq, Structural)]
pub enum Phase {
    /// None of these calls.
    Bare,
    /// Items are taken from the queue.
    Queue,
    /// Records are applied, without additions.
    Records,
}

/// Whether a call may be made in a phase of a cleanup.
pub open spec fn belongs<B>(phase: Phase, e: Event<B>) -> bool {
    match e {
        Event::Detach(_) => false,
        Event::Authorization(_) => false,
        Event::Remove(_) => false,
        Event::Resume(_) => false,
        Event::Dequeue(_) => phase == Phase::Queue,
        Event::Apply { additions_allowed, .. } => phase == Phase::Records && !additions_allowed,
        _ => true,
    }
}

/// Whether every call between two histories belongs to a phase.
#[verifier::opaque]
pub open spec fn keeps_to<B>(phase: Phase, before: Seq<Event<B>>, after: Seq<Event<B>>) -> bool {
    &&& extends(after, before)
    &&& forall|i: int| before.len() <= i < after.len() ==> belongs(phase, #[trigger] after[i])
}

/// One more call that belongs to a phase keeps to it.
broadcast proof fn lemma_phase_one<B>(a: Seq<Event<B>>, e: Event<B>)
    ensures
        belongs(Phase::Bare, e) ==> keeps_to(Phase::Bare, a, #[trigger] a.push(e)),
        belongs(Phase::Queue, e) ==> keeps_to(Phase::Queue, a, a.push(e)),
        belongs(Phase::Records, e) ==> keeps_to(Phase::Records, a, a.push(e)),
{
    reveal(keeps_to);
    reveal(extends);
}

/// No call keeps to every phase.
broadcast proof fn lemma_phase_none<B>(phase: Phase, a: Seq<Event<B>>)
    ensures
        #[trigger] keeps_to(phase, a, a),
{
    reveal(keeps_to);
    reveal(extends);
}

/// A call that belongs to no phase in particular belongs to each.
broadcast proof fn lemma_phase_bare<B>(a: Seq<Event<B>>, b: Seq<Event<B>>)
    requires
        #[trigger] keeps_to(Phase::Bare, a, b),
    ensures
        keeps_to(Phase::Queue, a, b),
        keeps_to(Phase::Records, a, b),
{
    reveal(keeps_to);
}

/// A phase goes on.
broadcast proof fn lemma_phase_transitive<B>(
    phase: Phase,
    a: Seq<Event<B>>,
    b: Seq<Event<B>>,
    c: Seq<Event<B>>,
)
    requires
        #[trigger] keeps_to(phase, a, b),
        #[trigger] keeps_to(phase, b, c),
    ensures
        keeps_to(phase, a, c),
{
    reveal(keeps_to);
    reveal(extends);
    assert forall|i: int| a.len() <= i < c.len() implies belongs(phase, #[trigger] c[i]) by {
        if i < b.len() {
            assert(c[i] == b[i]);
        }
    }
}

broadcast group group_phase {
    lemma_phase_one,
    lemma_phase_none,
    lemma_phase_bare,
    lemma_phase_transitive,
}

/// The stage `close_dequeue` keeps to its phase, and drops no message.
broadcast proof fn lemma_close_dequeue<B>(
    s: State<B>,
    before_ns: u64,
    item: Option<DiscoveryItem>,
    deadline: Option<u64>,
    t: Seq<Event<B>>,
)
    ensures
        keeps_to(
            Phase::Bare,
            s.trace,
            (#[trigger] close_dequeue(s, before_ns, item, deadline, t)).0.trace,
        ),
{
    broadcast use group_phase;

    reveal(close_dequeue);
}

/// The stage `keep_dequeued` keeps to its phase, and drops no message.
broadcast proof fn lemma_keep_dequeued<B>(
    s: State<B>,
    before_ns: u64,
    item: Option<DiscoveryItem>,
    deadline: Option<u64>,
    t: Seq<Event<B>>,
)
    ensures
        keeps_to(
            Phase::Bare,
            s.trace,
            (#[trigger] keep_dequeued(s, before_ns, item, deadline, t)).0.trace,
        ),
{
    broadcast use {group_phase, lemma_close_dequeue};

    reveal(keep_dequeued);
}

/// The stage `timed_dequeue` keeps to its phase, and drops no message.
broadcast proof fn lemma_timed_dequeue<B>(s: State<B>, deadline: Option<u64>, t: Seq<Event<B>>)
    ensures
        keeps_to(Phase::Queue, s.trace, (#[trigger] timed_dequeue(s, deadline, t)).0.trace),
{
    broadcast use {group_phase, lemma_keep_dequeued};

    reveal(timed_dequeue);
}

/// The stage `failure_bound` keeps to its phase, and drops no message.
broadcast proof fn lemma_failure_bound<B>(s: State<B>, errors: Seq<Text>, t: Seq<Event<B>>)
    ensures
        keeps_to(Phase::Bare, s.trace, (#[trigger] failure_bound(s, errors, t)).0.trace),
        errors.len() <= failure_bound(s, errors, t).1.len(),
{
    broadcast use group_phase;

    reveal(failure_bound);
}

/// The stage `drain` keeps to its phase, and drops no message.
broadcast proof fn lemma_drain<B>(
    s: State<B>,
    errors: Seq<Text>,
    deadline: u64,
    malformed: Text,
    t: Seq<Event<B>>,
)
    ensures
        keeps_to(
            Phase::Queue,
            s.trace,
            (#[trigger] drain(s, errors, deadline, malformed, t)).0.trace,
        ),
        errors.len() <= drain(s, errors, deadline, malformed, t).1.len(),
        s.failure_items <= MAX_FAILURE_ITEMS
            ==> drain(s, errors, deadline, malformed, t).0.failure_items
            <= MAX_FAILURE_ITEMS,
    decreases MAX_FAILURE_ITEMS - s.failure_items,
{
    broadcast use {group_phase, lemma_timed_dequeue};

    reveal(drain);
    if s.failure_items < MAX_FAILURE_ITEMS {
        lemma_dequeue_keeps_budget(s, Some(deadline), t);
        let (next, item) = timed_dequeue(s, Some(deadline), t);
        lemma_drain(next.drained_one(), errors.push(malformed), deadline, malformed, t);
        lemma_drain(next.drained_one(), errors, deadline, malformed, t);
    }
}

/// The stage `relinquish` keeps to its phase, and drops no message.
broadcast proof fn lemma_relinquish<B>(s: State<B>, errors: Seq<Text>, t: Seq<Event<B>>)
    ensures
        keeps_to(Phase::Bare, s.trace, (#[trigger] relinquish(s, errors, t)).0.trace),
        errors.len() <= relinquish(s, errors, t).1.len(),
{
    broadcast use group_phase;

    reveal(relinquish);
}

/// The stage `cleanup_authority` keeps to its phase, and drops no message.
broadcast proof fn lemma_cleanup_authority<B>(s: State<B>, errors: Seq<Text>, t: Seq<Event<B>>)
    ensures
        keeps_to(Phase::Bare, s.trace, (#[trigger] cleanup_authority(s, errors, t)).0.trace),
        errors.len() <= cleanup_authority(s, errors, t).1.len(),
{
    broadcast use {group_phase, lemma_relinquish};

    reveal(cleanup_authority);
}

/// The stage `cleanup_applied` keeps to its phase, and drops no message.
broadcast proof fn lemma_cleanup_applied<B>(
    s: State<B>,
    errors: Seq<Text>,
    required: bool,
    reply: Result<PauseBatchOutcome, BatchFault>,
)
    ensures
        keeps_to(
            Phase::Bare,
            s.trace,
            (#[trigger] cleanup_applied(s, errors, required, reply)).0.trace,
        ),
        errors.len() <= cleanup_applied(s, errors, required, reply).1.len(),
{
    broadcast use group_phase;

    reveal(cleanup_applied);
    reveal(State::annotating);
}

/// The stage `cleanup_batch` keeps to its phase, and drops no message.
broadcast proof fn lemma_cleanup_batch<B>(
    s: State<B>,
    errors: Seq<Text>,
    deadline: u64,
    required: bool,
    t: Seq<Event<B>>,
)
    ensures
        keeps_to(
            Phase::Records,
            s.trace,
            (#[trigger] cleanup_batch(s, errors, deadline, required, t)).0.trace,
        ),
        errors.len() <= cleanup_batch(s, errors, deadline, required, t).1.len(),
{
    broadcast use {group_phase, lemma_cleanup_applied};

    reveal(cleanup_batch);
}

/// The stage `cleanup_unvalidated` keeps to its phase, and drops no message.
broadcast proof fn lemma_cleanup_unvalidated<B>(s: State<B>, count: u64)
    ensures
        keeps_to(Phase::Bare, s.trace, (#[trigger] cleanup_unvalidated(s, count)).trace),
{
    broadcast use group_phase;

    reveal(cleanup_unvalidated);
}

/// The stage `take_stop_candidate` keeps to its phase, and drops no message.
broadcast proof fn lemma_take_stop_candidate<B>(s: State<B>, t: Seq<Event<B>>)
    ensures
        keeps_to(Phase::Bare, s.trace, (#[trigger] take_stop_candidate(s, t)).trace),
{
    broadcast use group_phase;

    reveal(take_stop_candidate);
}

/// The stage `cleanup_records` keeps to its phase, and drops no message.
broadcast proof fn lemma_cleanup_records<B>(
    s: State<B>,
    errors: Seq<Text>,
    deadline: u64,
    required: bool,
    t: Seq<Event<B>>,
)
    ensures
        keeps_to(
            Phase::Records,
            s.trace,
            (#[trigger] cleanup_records(s, errors, deadline, required, t)).0.trace,
        ),
        errors.len() <= cleanup_records(s, errors, deadline, required, t).1.len(),
{
    broadcast use {
        group_phase,
        lemma_cleanup_applied,
        lemma_cleanup_batch,
        lemma_cleanup_unvalidated,
        lemma_take_stop_candidate,
    };

    reveal(cleanup_records);
}

/// The reading of the authorization word in a cleanup is one call, and drops no message.
proof fn lemma_cleanup_word<B>(s: State<B>, errors: Seq<Text>, t: Seq<Event<B>>)
    ensures
        cleanup_word(s, errors, t).0.trace == s.trace.push(
            Event::Authorization(s.due(t)->Authorization_0),
        ),
        errors.len() <= cleanup_word(s, errors, t).1.len(),
{
    reveal(cleanup_word);
    reveal(State::classified_requested);
    reveal(State::classified_absent);
    reveal(State::classified_armed);
}

/// The stage `unresolved` keeps to its phase, and drops no message.
broadcast proof fn lemma_unresolved<B>(s: State<B>, t: Seq<Event<B>>)
    ensures
        keeps_to(Phase::Bare, s.trace, (#[trigger] unresolved(s, t)).0.trace),
{
    broadcast use group_phase;

    reveal(unresolved);
}

/// The stage `cleanup_open` keeps to its phase, and drops no message.
broadcast proof fn lemma_cleanup_open<B>(s: State<B>, errors: Seq<Text>, required: bool)
    ensures
        keeps_to(Phase::Bare, s.trace, (#[trigger] cleanup_open(s, errors, required)).0.trace),
{
    broadcast use group_phase;

    reveal(cleanup_open);
    reveal(State::annotating);
}

/// The stage `cleanup_closed` keeps to its phase, and drops no message.
broadcast proof fn lemma_cleanup_closed<B>(
    s: State<B>,
    errors: Seq<Text>,
    initiating: nat,
    required: bool,
    lifecycle: bool,
)
    ensures
        keeps_to(Phase::Bare, 
            s.trace,
            (#[trigger] cleanup_closed(s, errors, initiating, required, lifecycle)).0.trace,
        ),
{
    broadcast use group_phase;

    reveal(cleanup_closed);
    reveal(State::annotating);
}

/// The stage `cleanup_end` keeps to its phase, and drops no message.
broadcast proof fn lemma_cleanup_end<B>(
    s: State<B>,
    errors: Seq<Text>,
    initiating: nat,
    required: bool,
    lifecycle: bool,
    t: Seq<Event<B>>,
)
    ensures
        keeps_to(Phase::Bare, 
            s.trace,
            (#[trigger] cleanup_end(s, errors, initiating, required, lifecycle, t)).0.trace,
        ),
{
    broadcast use {
        group_phase,
        lemma_relinquish,
        lemma_unresolved,
        lemma_cleanup_open,
        lemma_cleanup_closed,
    };

    reveal(cleanup_end);
}

/// Where a cleanup detaches the links, where it starts to account for the records, and where it
/// reads the authorization word.
pub struct Schedule {
    pub detached: int,
    pub accounting: int,
    pub read: int,
}

/// Whether a history goes on by a cleanup in order: the links are detached once, then items are
/// taken from the queue, then records are applied, and none of them with additions, then the
/// authorization word is read once, then the authorization is removed once, and then the child is
/// resumed at most once.
pub open spec fn in_order<B>(before: Seq<Event<B>>, after: Seq<Event<B>>, at: Schedule) -> bool {
    &&& extends(after, before)
    &&& before.len() <= at.detached < at.accounting < at.read < after.len() - 1
    &&& after[at.detached] is Detach
    &&& after[at.accounting] is Apply
    &&& after[at.read] is Authorization
    &&& after[at.read + 1] is Remove
    &&& forall|i: int|
        before.len() <= i < after.len() ==> {
            &&& #[trigger] after[i] is Detach ==> i == at.detached
            &&& after[i] is Dequeue ==> at.detached < i < at.accounting
            &&& after[i] is Apply ==> at.accounting <= i < at.read
            &&& after[i] matches Event::Apply { additions_allowed, .. } ==> !additions_allowed
            &&& after[i] is Authorization ==> i == at.read
            &&& after[i] is Remove ==> i == at.read + 1
            &&& after[i] is Resume ==> i == at.read + 2
        }
}

/// The accounts of a cleanup begin with the detach, go on with the queue, and end with the records.
proof fn lemma_accounts<B>(
    s: State<B>,
    errors: Seq<Text>,
    required: bool,
    t: Seq<Event<B>>,
) -> (drained: Seq<Event<B>>)
    ensures
        ({
            let after = cleanup_accounts(s, errors, required, t).0.trace;
            &&& keeps_to(Phase::Queue, s.trace.push(Event::Detach(s.due(t)->Detach_0)), drained)
            &&& keeps_to(Phase::Records, drained, after)
            &&& drained.len() < after.len()
            &&& after[drained.len() as int] is Apply
        }),
        errors.len() <= cleanup_accounts(s, errors, required, t).1.len(),
{
    broadcast use {group_phase, lemma_failure_bound, lemma_drain, lemma_cleanup_records};

    reveal(cleanup_accounts);
    let (s1, reply) = call_detach(s, t);
    let (s2, errors, deadline) = failure_bound(s1, noted(errors, reply), t);
    let (s3, errors, _) = drain(
        s2,
        errors,
        deadline,
        "malformed discovery record during cleanup"@,
        t,
    );
    lemma_records_are_applied(s3, errors, deadline, required, t);
    s3.trace
}

/// The accounts for the records begin with an application.
proof fn lemma_records_are_applied<B>(
    s: State<B>,
    errors: Seq<Text>,
    deadline: u64,
    required: bool,
    t: Seq<Event<B>>,
)
    ensures
        ({
            let after = cleanup_records(s, errors, deadline, required, t).0.trace;
            &&& s.trace.len() < after.len()
            &&& after[s.trace.len() as int] is Apply
        }),
{
    broadcast use {
        group_phase,
        lemma_cleanup_applied,
        lemma_cleanup_batch,
        lemma_cleanup_unvalidated,
        lemma_take_stop_candidate,
    };

    reveal(cleanup_records);
    let after = cleanup_records(s, errors, deadline, required, t).0.trace;
    let bare = State { unvalidated_records: 0, ..s };
    let (applied, _) = apply_pending(bare, Some(deadline), false, bare.active(), t);
    assert(keeps_to(Phase::Records, applied.trace, after));
    reveal(keeps_to);
    reveal(extends);
    assert(applied.trace[s.trace.len() as int] is Apply);
    assert(after[s.trace.len() as int] == applied.trace[s.trace.len() as int]);
}

/// The removal of a cleanup is one call.
proof fn lemma_removal<B>(s: State<B>, errors: Seq<Text>, t: Seq<Event<B>>)
    ensures
        cleanup_removal(s, errors, t).0.trace == s.trace.push(
            Event::Remove(s.due(t)->Remove_0),
        ),
        errors.len() <= cleanup_removal(s, errors, t).1.len(),
{
    reveal(cleanup_removal);
    reveal(remove_and_account);
    reveal(State::classified_requested);
    reveal(State::classified_absent);
    reveal(State::classified_armed);
}

/// The resume of a cleanup is at most one call.
proof fn lemma_resume<B>(s: State<B>, errors: Seq<Text>, t: Seq<Event<B>>)
    ensures
        ({
            let after = cleanup_resume(s, errors, t).0.trace;
            after == s.trace || after == s.trace.push(Event::Resume(s.due(t)->Resume_0))
        }),
        errors.len() <= cleanup_resume(s, errors, t).1.len(),
{
    reveal(cleanup_resume);
}

/// The parts of a cleanup make up its schedule.
proof fn lemma_schedule<B>(
    before: Seq<Event<B>>,
    started: Seq<Event<B>>,
    detached: Seq<Event<B>>,
    drained: Seq<Event<B>>,
    accounted: Seq<Event<B>>,
    removed: Seq<Event<B>>,
    resumed: Seq<Event<B>>,
    after: Seq<Event<B>>,
)
    requires
        keeps_to(Phase::Bare, before, started),
        detached == started.push(detached.last()),
        detached.len() == started.len() + 1,
        detached.last() is Detach,
        keeps_to(Phase::Queue, detached, drained),
        keeps_to(Phase::Records, drained, accounted),
        drained.len() < accounted.len(),
        accounted[drained.len() as int] is Apply,
        removed.len() == accounted.len() + 2,
        removed == accounted.push(removed[accounted.len() as int]).push(removed.last()),
        removed[accounted.len() as int] is Authorization,
        removed.last() is Remove,
        resumed == removed || resumed == removed.push(resumed.last()) && resumed.last() is Resume,
        keeps_to(Phase::Bare, resumed, after),
    ensures
        in_order(
            before,
            after,
            Schedule {
                detached: started.len() as int,
                accounting: drained.len() as int,
                read: accounted.len() as int,
            },
        ),
{
    reveal(keeps_to);
    reveal(extends);
    assert forall|i: int| 0 <= i < resumed.len() implies #[trigger] after[i] == resumed[i] by {}
    assert forall|i: int| 0 <= i < removed.len() implies #[trigger] resumed[i] == removed[i] by {}
    assert forall|i: int| 0 <= i < accounted.len() implies #[trigger] removed[i]
        == accounted[i] by {}
    assert forall|i: int| 0 <= i < drained.len() implies #[trigger] accounted[i]
        == drained[i] by {}
    assert forall|i: int| 0 <= i < detached.len() implies #[trigger] drained[i]
        == detached[i] by {}
    assert forall|i: int| 0 <= i < started.len() implies #[trigger] detached[i]
        == started[i] by {}
    assert forall|i: int| 0 <= i < before.len() implies #[trigger] started[i] == before[i] by {}
    assert forall|i: int| 0 <= i < before.len() implies #[trigger] after[i] == before[i] by {
        assert(resumed[i] == removed[i]);
        assert(removed[i] == accounted[i]);
        assert(accounted[i] == drained[i]);
        assert(drained[i] == detached[i]);
        assert(detached[i] == started[i]);
        assert(started[i] == before[i]);
    }
    assert(extends(after, before));
    assert(after[started.len() as int] == detached.last());
    assert(after[drained.len() as int] == accounted[drained.len() as int]);
    assert(after[accounted.len() as int] == removed[accounted.len() as int]);
    assert(after[accounted.len() as int + 1] == removed.last());
}

/// A cleanup comes in order: it detaches the links, drains the queue, applies the records without
/// additions, reads the authorization word, removes the authorization, and only then resumes the
/// child. No link can fire between a resume and the removal, and no child is resumed twice.
pub proof fn lemma_cleanup_order<B>(
    s: State<B>,
    errors: Seq<Text>,
    required: bool,
    lifecycle: bool,
    t: Seq<Event<B>>,
)
    requires
        !s.cleaned,
        !s.cleaning,
    ensures
        cleans_up(s.trace, terminal_cleanup(s, errors, required, lifecycle, t).0.trace),
{
    reveal(terminal_cleanup);
    let (s1, e1) = cleanup_authority(s.begun(), errors, t);
    lemma_cleanup_authority(s.begun(), errors, t);
    let (s3, e3) = cleanup_accounts(s1, e1, required, t);
    let drained = lemma_accounts(s1, e1, required, t);
    let (s4, e4) = cleanup_word(s3, e3, t);
    lemma_cleanup_word(s3, e3, t);
    let (s5, e5) = cleanup_removal(s4, e4, t);
    lemma_removal(s4, e4, t);
    let (s6, e6) = cleanup_resume(s5, e5, t);
    lemma_resume(s5, e5, t);
    let r = cleanup_end(s6, e6, errors.len(), required, lifecycle, t);
    lemma_cleanup_end(s6, e6, errors.len(), required, lifecycle, t);
    let detached = s1.trace.push(Event::Detach(s1.due(t)->Detach_0));
    lemma_schedule(
        s.trace,
        s1.trace,
        detached,
        drained,
        s3.trace,
        s5.trace,
        s6.trace,
        r.0.trace,
    );
}

/// A cleanup never forgets what started it: it succeeds only where nothing did, and then the
/// coordinator is clean. A failure is required exactly where it was asked for, and doubt about the
/// life of the child stays.
pub proof fn lemma_cleanup_reports<B>(
    s: State<B>,
    errors: Seq<Text>,
    required: bool,
    lifecycle: bool,
    t: Seq<Event<B>>,
)
    ensures
        ({
            let (after, r) = terminal_cleanup(s, errors, required, lifecycle, t);
            &&& errors.len() > 0 ==> r is Err
            &&& r is Ok ==> after.cleaned || s.cleaning
            &&& r matches Err(fail) ==> fail.required == required && (lifecycle ==> fail.lifecycle)
        }),
{
    reveal(terminal_cleanup);
    if !(s.cleaned || s.cleaning) {
        let (s1, e1) = cleanup_authority(s.begun(), errors, t);
        lemma_cleanup_authority(s.begun(), errors, t);
        let (s3, e3) = cleanup_accounts(s1, e1, required, t);
        lemma_accounts(s1, e1, required, t);
        let (s4, e4) = cleanup_word(s3, e3, t);
        lemma_cleanup_word(s3, e3, t);
        let (s5, e5) = cleanup_removal(s4, e4, t);
        lemma_removal(s4, e4, t);
        let (s6, e6) = cleanup_resume(s5, e5, t);
        lemma_resume(s5, e5, t);
        reveal(cleanup_end);
        let (s7, e7) = relinquish(s6, e6, t);
        lemma_relinquish(s6, e6, t);
        reveal(cleanup_open);
        reveal(cleanup_closed);
        reveal(State::annotating);
    }
}

/// A cycle that fails with the child in doubt, or under a policy that requires the pause, is
/// always reported.
pub proof fn lemma_failure_is_reported<B>(
    s: State<B>,
    message: Text,
    lifecycle: bool,
    t: Seq<Event<B>>,
)
    requires
        lifecycle || s.policy == PausePolicy::Always,
    ensures
        fail_cycle(s, message, lifecycle, t).1 matches Err(fail) && (lifecycle ==> fail.lifecycle)
            && (!lifecycle ==> fail.required),
{
    reveal(fail_cycle);
    reveal(fail_reasoned);
    let start = fail_reasoned(s, message, lifecycle);
    if lifecycle {
        lemma_cleanup_reports(start, seq![message], false, true, t);
    } else {
        lemma_cleanup_reports(start, seq![message], true, false, t);
    }
}

/// A failing pause takes a bounded number of items from the queue.
pub proof fn lemma_drain_is_bounded<B>(
    s: State<B>,
    errors: Seq<Text>,
    deadline: u64,
    malformed: Text,
    t: Seq<Event<B>>,
)
    requires
        s.failure_items <= MAX_FAILURE_ITEMS,
    ensures
        drain(s, errors, deadline, malformed, t).0.failure_items <= MAX_FAILURE_ITEMS,
{
    lemma_drain(s, errors, deadline, malformed, t);
}

/// Whether the calls that a log shows more than it did are those of a cleanup in order.
pub open spec fn cleans_up<B>(log: Seq<Event<B>>, now: Seq<Event<B>>) -> bool {
    exists|at: Schedule| #[trigger] in_order(log, now, at)
}

/// Where the history of a coordinator goes on by a cleanup in order, the log of its calls does.
pub proof fn lemma_log_is_in_order<B>(
    short: Seq<Event<B>>,
    long: Seq<Event<B>>,
    log: Seq<Event<B>>,
    now: Seq<Event<B>>,
)
    requires
        cleans_up(short, long),
        tied(short, long, log, now),
    ensures
        cleans_up(log, now),
{
    reveal(tied);
    reveal(extends);
    let at = choose|at: Schedule| #[trigger] in_order(short, long, at);
    let by = log.len() - short.len();
    let there = Schedule {
        detached: at.detached + by,
        accounting: at.accounting + by,
        read: at.read + by,
    };
    assert forall|i: int| log.len() <= i < now.len() implies #[trigger] now[i] == long[i
        - by] by {}
    assert(in_order(log, now, there));
}

} // verus!
