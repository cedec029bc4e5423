//! What holds of every pause, whatever the world replies.

use crate::cli::PausePolicy;
use crate::discovery::pause::cleanup::terminal_cleanup;
use crate::discovery::pause::cycle::check_cancelled;
use crate::discovery::pause::failure::{fail_cycle, fail_reasoned, reject_cycle, reject_end};
use crate::discovery::pause::io::{Event, TimedItem};
use crate::discovery::pause::progress::{
    counted, goes_on, group_progress, lemma_arm, lemma_revalidate, lemma_service,
    lemma_service_received, lemma_terminal_cleanup, remembered,
};
use crate::discovery::pause::rules::PauseFail;
use crate::discovery::pause::service::{
    arm, await_request, fresh_state, look_at, requested_item, requested_turn, revalidate, service,
    service_received, stale_item, take_in,
};
use crate::discovery::pause::state::{ArmResult, PauseStatus, State};
use crate::discovery::pause::steps::take_stop_candidate;
use crate::text::Text;
use vstd::prelude::*;

verus! {

/// A policy that never pauses asks nothing: no service and no arm makes a call or changes
/// anything.
pub proof fn lemma_never_is_silent<B>(s: State<B>, t: Seq<Event<B>>)
    requires
        s.policy == PausePolicy::Never,
    ensures
        service(s, t) == (s, Ok::<(), PauseFail>(())),
        arm(s, t) == (s, Ok::<ArmResult, PauseFail>(ArmResult::Disabled)),
{
    reveal(service);
    reveal(arm);
}

/// A cleanup is done once: a coordinator that is clean, or that is being cleaned, makes no further
/// call and changes nothing, and hands back the messages that it was given.
pub proof fn lemma_cleanup_once<B>(
    s: State<B>,
    errors: Seq<Text>,
    required: bool,
    lifecycle: bool,
    t: Seq<Event<B>>,
)
    requires
        s.cleaned || s.cleaning,
    ensures
        terminal_cleanup(s, errors, required, lifecycle, t).0 == s,
        errors.len() == 0 ==> terminal_cleanup(s, errors, required, lifecycle, t).1 is Ok,
        errors.len() > 0 ==> terminal_cleanup(s, errors, required, lifecycle, t).1 == Err::<
            (),
            PauseFail,
        >(PauseFail { messages: errors, required, lifecycle }),
{
    reveal(terminal_cleanup);
}

/// Whatever is asked of a coordinator, it stays the coordinator of the same child under the same
/// policy, its history and its counts only grow, and once it may not install a further
/// authorization, it never may again.
pub proof fn lemma_only_goes_on<B>(
    s: State<B>,
    received: TimedItem<B>,
    turns: nat,
    errors: Seq<Text>,
    required: bool,
    lifecycle: bool,
    t: Seq<Event<B>>,
)
    ensures
        goes_on(s, arm(s, t).0),
        goes_on(s, service(s, t).0),
        goes_on(s, service_received(s, received, t).0),
        goes_on(s, revalidate(s, turns, t).0),
        goes_on(s, terminal_cleanup(s, errors, required, lifecycle, t).0),
{
    lemma_arm(s, t);
    lemma_service(s, t);
    lemma_service_received(s, received, t);
    lemma_revalidate(s, turns, t);
    lemma_terminal_cleanup(s, errors, required, lifecycle, t);
}

/// A partial status stays partial, and no later state of a coordinator that has made an attempt is
/// without one.
pub proof fn lemma_partial_is_sticky<B>(a: State<B>, b: State<B>)
    requires
        goes_on(a, b),
    ensures
        a.counters.status_of() == PauseStatus::Partial ==> b.counters.status_of()
            == PauseStatus::Partial,
        a.counters.status_of() != PauseStatus::Absent ==> b.counters.status_of()
            != PauseStatus::Absent,
{
    reveal(goes_on);
}

/// Every confirmed attempt was counted when it began: this holds of a coordinator that has done
/// nothing yet, and everything that is asked of it keeps it.
pub proof fn lemma_confirmed_was_attempted<B>(
    s: State<B>,
    received: TimedItem<B>,
    turns: nat,
    errors: Seq<Text>,
    required: bool,
    lifecycle: bool,
    t: Seq<Event<B>>,
)
    ensures
        counted(
            fresh_state::<B>(
                s.policy,
                s.pid,
                s.generation,
                s.expected_tasks,
            ),
        ),
        counted(s) ==> {
            &&& counted(arm(s, t).0)
            &&& counted(service(s, t).0)
            &&& counted(service_received(s, received, t).0)
            &&& counted(revalidate(s, turns, t).0)
            &&& counted(terminal_cleanup(s, errors, required, lifecycle, t).0)
        },
        counted(s) ==> s.counters.confirmed <= s.counters.attempts,
{
    lemma_arm(s, t);
    lemma_service(s, t);
    lemma_service_received(s, received, t);
    lemma_revalidate(s, turns, t);
    lemma_terminal_cleanup(s, errors, required, lifecycle, t);
}

/// No attempt is forgotten: each one that was counted is open, confirmed or partial. This holds of a
/// coordinator that has done nothing yet, and everything that is asked of it keeps it.
pub proof fn lemma_no_attempt_is_forgotten<B>(
    s: State<B>,
    received: TimedItem<B>,
    turns: nat,
    errors: Seq<Text>,
    required: bool,
    lifecycle: bool,
    t: Seq<Event<B>>,
)
    ensures
        remembered(
            fresh_state::<B>(
                s.policy,
                s.pid,
                s.generation,
                s.expected_tasks,
            ),
        ),
        remembered(s) ==> {
            &&& remembered(arm(s, t).0)
            &&& remembered(service(s, t).0)
            &&& remembered(service_received(s, received, t).0)
            &&& remembered(revalidate(s, turns, t).0)
            &&& remembered(terminal_cleanup(s, errors, required, lifecycle, t).0)
        },
{
    lemma_arm(s, t);
    lemma_service(s, t);
    lemma_service_received(s, received, t);
    lemma_revalidate(s, turns, t);
    lemma_terminal_cleanup(s, errors, required, lifecycle, t);
}

/// After a cycle has failed, no further authorization is installed: an arm is answered that it is
/// disabled, without a call.
pub proof fn lemma_failure_ends_arming<B>(
    s: State<B>,
    message: Text,
    lifecycle: bool,
    t: Seq<Event<B>>,
    u: Seq<Event<B>>,
)
    ensures
        ({
            let after = fail_cycle(s, message, lifecycle, t).0;
            &&& !after.rearming_enabled
            &&& arm(after, u) == (after, Ok::<ArmResult, PauseFail>(ArmResult::Disabled))
        }),
{
    broadcast use group_progress;

    reveal(fail_cycle);
    reveal(fail_reasoned);
    reveal(goes_on);
    reveal(arm);
}

/// After the helper has refused a request, no further authorization is installed either, unless the
/// policy requires the pause: that calls for a cleanup.
pub proof fn lemma_refusal_ends_arming<B>(
    s: State<B>,
    deadline: u64,
    t: Seq<Event<B>>,
    u: Seq<Event<B>>,
)
    requires
        s.policy != PausePolicy::Always,
    ensures
        ({
            let after = reject_cycle(s, deadline, t).0;
            &&& !after.rearming_enabled
            &&& arm(after, u) == (after, Ok::<ArmResult, PauseFail>(ArmResult::Disabled))
        }),
{
    broadcast use group_progress;

    reveal(reject_cycle);
    reveal(reject_end);
    reveal(goes_on);
    reveal(arm);
}

/// The record that a request waited for is not from before the live authorization.
proof fn lemma_awaited<B>(s: State<B>, deadline: u64, turns: nat, t: Seq<Event<B>>)
    ensures
        ({
            let (after, r) = await_request(s, deadline, turns, t);
            r matches Ok(received) ==> !stale_item(after, received.item)
        }),
    decreases turns,
{
    reveal(await_request);
    reveal(requested_turn);
    reveal(requested_item);
    if turns > 0 {
        lemma_awaited(requested_turn(s, deadline, t).0, deadline, (turns - 1) as nat, t);
    }
}

/// The service of a request never meets a record from before the live authorization: what it waited
/// for is taken in as a candidate, as settled or as a fault.
pub proof fn lemma_request_is_fresh<B>(
    s: State<B>,
    deadline: u64,
    turns: nat,
    t: Seq<Event<B>>,
)
    ensures
        ({
            let (after, r) = await_request(s, deadline, turns, t);
            r matches Ok(received) ==> !(take_in(
                after,
                received.terminal_batch,
                received.after_ns,
                received.item,
                t,
            ).1 is Stale)
        }),
{
    lemma_awaited(s, deadline, turns, t);
    reveal(take_in);
    reveal(look_at);
    reveal(check_cancelled);
    reveal(take_stop_candidate);
    reveal(crate::discovery::pause::service::unarmed);
}

} // verus!
