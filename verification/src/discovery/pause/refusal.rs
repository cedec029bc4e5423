//! What follows from a refusal: a child whose stop the helper refused is not resumed.

use crate::cli::PausePolicy;
use crate::discovery::pause::calls::call_authorization;
use crate::discovery::pause::conduct::{group_conduct, kept, Grade};
use crate::discovery::pause::cycle::{check_cancelled, find_winner, judge_winner};
use crate::discovery::pause::failure::{
    reject_apply, reject_cycle, reject_drain, reject_end, reject_removal,
};
use crate::discovery::pause::io::{extends, group_history, tied, Event, TimedItem};
use crate::discovery::pause::progress::{goes_on, group_progress};
use crate::discovery::pause::restraint::{as_counted, declined, group_restraint};
use crate::discovery::pause::service::{
    bare, cycle, look_at, open_epoch, serve_candidate, service_received, take_in, unarmed,
    Admission,
};
use crate::discovery::pause::state::State;
use crate::discovery::pause::steps::{remove_and_account, take_stop_candidate, TURNS};
use crate::record::{DiscoveryItem, DiscoveryRecord, COALESCED_NO_HELPER_RC, PAUSE_REQUESTED};
use vstd::prelude::*;

verus! {

broadcast use {group_history, group_conduct};

/// The state in which the cycle of a received item starts, where the item starts one.
pub open spec fn admitted<B>(s: State<B>, received: TimedItem<B>, t: Seq<Event<B>>) -> (
    State<B>,
    Admission,
) {
    take_in(s, received.terminal_batch, received.after_ns, received.item, t)
}

/// Whether the cycle of a received item ends with a request that the helper refused.
pub open spec fn refused<B>(s: State<B>, received: TimedItem<B>, t: Seq<Event<B>>) -> bool {
    let (s, admission) = admitted(s, received, t);
    admission matches Admission::Candidate(first) && cycle(s, bare(received), first, t).1 is Refused
}

/// A cycle that ends with a refusal leaves the child alone, and its epoch is that of a refused
/// request.
proof fn lemma_cycle_refused<B>(
    s: State<B>,
    received: TimedItem<B>,
    first: DiscoveryRecord,
    t: Seq<Event<B>>,
)
    requires
        cycle(s, received, first, t).1 is Refused,
    ensures
        ({
            let after = cycle(s, received, first, t).0;
            &&& goes_on(s, after)
            &&& after.counters == s.attempting().counters
            &&& after.attempt_open
            &&& declined(after)
            &&& kept(Grade::Calm, s.trace, after.trace)
        }),
{
    broadcast use {group_progress, group_restraint};

    reveal(cycle);
    reveal(open_epoch);
    reveal(judge_winner);
}

/// The taking in of a candidate counts nothing.
proof fn lemma_candidate_is_not_counted<B>(s: State<B>, received: TimedItem<B>, t: Seq<Event<B>>)
    requires
        admitted(s, received, t).1 is Candidate,
    ensures
        as_counted(s, admitted(s, received, t).0),
{
    broadcast use group_restraint;

    reveal(take_in);
    reveal(look_at);
    reveal(unarmed);
}

/// What a record of the child under a live authorization is taken in as: the candidate for the
/// authorization, unless the pause was cancelled or that could not be read.
pub proof fn lemma_record_is_candidate<B>(
    s: State<B>,
    received: TimedItem<B>,
    first: DiscoveryRecord,
    t: Seq<Event<B>>,
)
    requires
        received.item == DiscoveryItem::Record(first),
        received.terminal_batch is None || s.terminal_batch is None,
        first.pid() == s.pid,
        s.armed,
        !s.predates(first),
    ensures
        admitted(s, received, t).1 == Admission::Candidate(first) || admitted(
            s,
            received,
            t,
        ).1 is Faulty,
{
    reveal(take_in);
    reveal(look_at);
    reveal(take_stop_candidate);
    reveal(check_cancelled);
}

/// Where the policy does not demand a pause, a refusal starts with the removal of the
/// authorization.
proof fn lemma_refusal_removes<B>(s: State<B>, deadline: u64, t: Seq<Event<B>>)
    requires
        s.policy != PausePolicy::Always,
    ensures
        ({
            let after = reject_cycle(s, deadline, t).0;
            &&& s.trace.len() < after.trace.len()
            &&& after.trace[s.trace.len() as int] is Remove
        }),
{
    broadcast use group_progress;

    reveal(reject_cycle);
    reveal(reject_removal);
    reveal(remove_and_account);
    reveal(State::classified_requested);
    reveal(State::classified_absent);
    reveal(State::classified_armed);
    reveal(goes_on);
    reveal(extends);
    let after = reject_cycle(s, deadline, t).0;
    let s0 = s.reasoned(crate::discovery::pause::diagnostic::PauseDiagnostic::PauseHelperRejected);
    let (s1, f1) = reject_removal(s0, t);
    let (s2, f2) = reject_drain(s1, f1, deadline, TURNS as nat, t);
    let (s3, f3) = reject_apply(s2, f2, deadline, t);
    let (s4, _) = reject_end(s3, f3, t);
    assert(s1.trace[s.trace.len() as int] is Remove);
    assert(extends(s4.trace, s1.trace));
}

/// A refused stop is never resumed: where the helper refused the request of a received record, the
/// service of that record makes no resume, whatever the policy is and whatever goes wrong on the
/// way, and it confirms nothing. Unless the policy demands a pause, it removes the authorization,
/// and no authorization is ever installed again. Where an automatic pause ends well that way, one
/// partial attempt is counted.
pub proof fn lemma_refused_is_never_resumed<B>(
    s: State<B>,
    received: TimedItem<B>,
    t: Seq<Event<B>>,
)
    requires
        refused(s, received, t),
    ensures
        ({
            let after = service_received(s, received, t).0;
            &&& extends(after.trace, s.trace)
            &&& unresumed(s.trace, after.trace)
            &&& after.counters.confirmed == s.counters.confirmed
            &&& s.policy != PausePolicy::Always ==> {
                &&& !after.armed
                &&& !after.rearming_enabled
                &&& exists|i: int|
                    s.trace.len() <= i < after.trace.len() && #[trigger] after.trace[i] is Remove
            }
            &&& s.policy == PausePolicy::Auto && service_received(s, received, t).1 is Ok ==> {
                &&& after.counters == s.attempting().partial().counters
                &&& !after.attempt_open
            }
        }),
{
    broadcast use {group_progress, group_restraint};

    reveal(service_received);
    reveal(serve_candidate);
    reveal(goes_on);
    let after = service_received(s, received, t).0;
    let (s1, admission) = admitted(s, received, t);
    let first = admission->Candidate_0;
    lemma_candidate_is_not_counted(s, received, t);
    lemma_cycle_refused(s1, bare(received), first, t);
    let (s2, end) = cycle(s1, bare(received), first, t);
    let deadline = end->Refused_0;
    assert(after == reject_cycle(s2, deadline, t).0);
    assert(kept(Grade::Calm, s.trace, after.trace));
    if s.policy != PausePolicy::Always {
        lemma_refusal_removes(s2, deadline, t);
        assert(extends(s2.trace, s.trace));
        reveal(extends);
    }
    reveal(kept);
}

/// When a request counts as refused: the record of a live authorization carries a failure of the
/// helper, and the authorization word still says that a pause was requested. A successor whose
/// child was not resumed yet is a contradiction, not a refusal.
pub proof fn lemma_when_refused<B>(
    s: State<B>,
    received: TimedItem<B>,
    first: DiscoveryRecord,
    t: Seq<Event<B>>,
)
    requires
        admitted(s, received, t).1 == Admission::Candidate(first),
        first.send_signal_rc < 0,
        first.send_signal_rc != COALESCED_NO_HELPER_RC,
        call_authorization(admitted(s, received, t).0, t).1 == Ok::<
            Option<u64>,
            crate::text::Text,
        >(Some(PAUSE_REQUESTED)),
        !admitted(s, received, t).0.epoch.successor() || admitted(
            s,
            received,
            t,
        ).0.epoch.resume_succeeded,
    ensures
        refused(s, received, t),
{
    reveal(cycle);
    reveal(open_epoch);
    reveal(find_winner);
    reveal(judge_winner);
}

/// Whether none of the calls that a log shows more than it did is a resume.
pub open spec fn unresumed<B>(log: Seq<Event<B>>, now: Seq<Event<B>>) -> bool {
    forall|i: int| log.len() <= i < now.len() ==> !(#[trigger] now[i] is Resume)
}

/// Where the history of a coordinator goes on without a resume, the log of its calls does.
pub proof fn lemma_log_is_unresumed<B>(
    short: Seq<Event<B>>,
    long: Seq<Event<B>>,
    log: Seq<Event<B>>,
    now: Seq<Event<B>>,
)
    requires
        unresumed(short, long),
        tied(short, long, log, now),
    ensures
        unresumed(log, now),
{
    reveal(tied);
    reveal(extends);
    assert forall|i: int| log.len() <= i < now.len() implies !(#[trigger] now[i] is Resume) by {
        assert(now[i] == long[i - log.len() + short.len()]);
    }
}

} // verus!
