//! What holds of a whole pass of a hardened helper, whatever the world replies.

use crate::discover::closure::hardened_maps_fault;
use crate::discover::inheritance::FdIdentity;
use crate::discover::protocol::{
    after_authorize, after_break, after_deadline, after_drain, after_poll, after_prepared,
    after_ready, after_reap, after_receive, after_revalidate, after_send, only_memory_added, sound,
    Authority, Barrier, BreakAt, ControlPacket, DeadlineAt, Happened, HardenedProtocolState, Pass,
    PassStep, Sighting,
};
use vstd::prelude::*;

verus! {

/// What a pass takes in at a step.
pub enum PassEvent {
    /// Whether a held file is about to change.
    Break(bool),
    /// The time is not over.
    InTime,
    Spawned,
    Authorized(i32),
    Output(Seq<u8>),
    Drained(bool),
    Polled(Happened),
    Received(ControlPacket),
    Inspected(Authority, Sighting),
    Revalidated,
    Sent,
    Reaped,
    Parsed,
}

/// A pass that has not begun.
pub open spec fn fresh_pass(limit: u64) -> Pass {
    Pass {
        state: HardenedProtocolState::Prepared,
        step: PassStep::CheckBreak(BreakAt::Start),
        output: Seq::empty(),
        limit,
        stdout_eof: false,
        control_eof: false,
        child_exited: false,
        packet: Seq::empty(),
        self_memory: None,
    }
}

/// A pass after it took something in at the step for it, where that did not end the pass by a
/// failure.
pub open spec fn taken(p: Pass, event: PassEvent) -> Option<Pass> {
    match event {
        PassEvent::Break(broken) if p.step is CheckBreak => after_break(p, Ok(broken)).ok(),
        PassEvent::InTime if p.step is CheckDeadline => after_deadline(p, false).ok(),
        PassEvent::Spawned if p.step is Spawn => Some(
            Pass { step: PassStep::CheckDeadline(DeadlineAt::Spawned), ..p },
        ),
        PassEvent::Authorized(fd) if p.step is Authorize => after_authorize(p, fd).ok(),
        PassEvent::Output(bytes) if p.step is Drain && p.output.len() + bytes.len() <= p.limit =>
            Some(Pass { output: p.output + bytes, ..p }),
        PassEvent::Drained(ended) if p.step is Drain => Some(after_drain(p, ended)),
        PassEvent::Polled(happened) if p.step is Poll => after_poll(p, happened).ok(),
        PassEvent::Received(packet) if p.step is Receive => after_receive(p, packet).ok(),
        PassEvent::Inspected(authority, seen) if p.step is Inspect => if p.step
            == PassStep::Inspect(Barrier::Prepared) {
            after_prepared(p, authority, seen).ok()
        } else {
            after_ready(p, authority, seen).ok()
        },
        PassEvent::Revalidated if p.step is Revalidate => Some(after_revalidate(p)),
        PassEvent::Sent if p.step is Send => Some(after_send(p)),
        PassEvent::Reaped if p.step is Reap => Some(after_reap(p)),
        PassEvent::Parsed if p.step is Parse => Some(
            Pass { step: PassStep::CheckBreak(BreakAt::Parsed), ..p },
        ),
        _ => None,
    }
}

/// A pass after it took in one thing after the other.
pub open spec fn pass_after(limit: u64, events: Seq<PassEvent>) -> Option<Pass>
    decreases events.len(),
{
    if events.len() == 0 {
        Some(fresh_pass(limit))
    } else {
        match pass_after(limit, events.drop_last()) {
            None => None,
            Some(p) => taken(p, events.last()),
        }
    }
}

/// Whether the helper was seen to run the loader with exactly the descriptors that it was given,
/// and with which memory.
pub open spec fn prepared_at(events: Seq<PassEvent>, i: int, memory: FdIdentity) -> bool {
    events[i] matches PassEvent::Inspected(authority, seen) && seen.exe == authority.loader
        && seen.fds@ == authority.fds@ && seen.memory == memory
}

/// Whether the helper was seen to map as code exactly what was authorized and not the provider, to
/// run the loader, and to have only a memory beside the descriptors that it was given.
pub open spec fn ready_at(events: Seq<PassEvent>, i: int, memory: FdIdentity) -> bool {
    events[i] matches PassEvent::Inspected(authority, seen) && hardened_maps_fault(
        seen.maps@,
        authority.executable@.to_set(),
        authority.provider,
    ) is None && seen.exe == authority.loader && only_memory_added(
        seen.fds@,
        authority.fds@,
        memory,
    )
}

/// Whether the helper passed the look at the first barrier.
pub open spec fn was_prepared(events: Seq<PassEvent>, memory: FdIdentity) -> bool {
    exists|i: int| 0 <= i < events.len() && #[trigger] prepared_at(events, i, memory)
}

/// Whether the helper passed the looks at both barriers, one after the other.
pub open spec fn was_ready(events: Seq<PassEvent>, memory: FdIdentity) -> bool {
    exists|i: int, j: int|
        0 <= i < j < events.len() && #[trigger] prepared_at(events, i, memory)
            && #[trigger] ready_at(events, j, memory)
}

/// Whether a pass is past the look at a barrier.
pub open spec fn is_past(p: Pass, barrier: Barrier) -> bool {
    ||| match barrier {
        Barrier::Prepared => p.state != HardenedProtocolState::Prepared,
        Barrier::Ready => p.state == HardenedProtocolState::Running,
    }
    ||| match p.step {
        PassStep::Revalidate(Some(b)) => b == barrier,
        PassStep::CheckDeadline(DeadlineAt::BeforeBreak(b)) => b == barrier,
        PassStep::CheckBreak(BreakAt::Barrier(b)) => b == barrier,
        PassStep::CheckDeadline(DeadlineAt::AfterBreak(b)) => b == barrier,
        PassStep::Send(b) => b == barrier,
        _ => false,
    }
}

/// Whether what a pass took in made it come past the look at the first barrier.
pub open spec fn comes_past_prepared(p: Pass, event: PassEvent, q: Pass) -> bool {
    &&& p.step == PassStep::Inspect(Barrier::Prepared)
    &&& event matches PassEvent::Inspected(authority, seen)
    &&& seen.exe == authority.loader
    &&& seen.fds@ == authority.fds@
    &&& q.self_memory == Some(seen.memory)
}

/// Whether what a pass took in made it come past the look at the second barrier.
pub open spec fn comes_past_ready(p: Pass, event: PassEvent, q: Pass) -> bool {
    &&& p.step == PassStep::Inspect(Barrier::Ready)
    &&& event matches PassEvent::Inspected(authority, seen)
    &&& p.self_memory matches Some(memory)
    &&& hardened_maps_fault(
        seen.maps@,
        authority.executable@.to_set(),
        authority.provider,
    ) is None
    &&& seen.exe == authority.loader
    &&& only_memory_added(seen.fds@, authority.fds@, memory)
    &&& q.self_memory == p.self_memory
}

/// A pass comes past the look at a barrier only by that look, and stays one that can have come
/// about.
proof fn lemma_taken(p: Pass, event: PassEvent)
    requires
        sound(p),
        taken(p, event) is Some,
    ensures
        ({
            let q = taken(p, event)->Some_0;
            &&& sound(q)
            &&& q.limit == p.limit
            &&& is_past(q, Barrier::Prepared) ==> (is_past(p, Barrier::Prepared) && q.self_memory
                == p.self_memory) || comes_past_prepared(p, event, q)
            &&& is_past(q, Barrier::Ready) ==> (is_past(p, Barrier::Ready) && q.self_memory
                == p.self_memory) || comes_past_ready(p, event, q)
        }),
{
}

/// What is listed first stays where it is when one more is appended.
proof fn lemma_looks_stay(before: Seq<PassEvent>, event: PassEvent, memory: FdIdentity)
    ensures
        was_prepared(before, memory) ==> was_prepared(before.push(event), memory),
        was_ready(before, memory) ==> was_ready(before.push(event), memory),
        prepared_at(before.push(event), before.len() as int, memory) ==> was_prepared(
            before.push(event),
            memory,
        ),
        was_prepared(before, memory) && ready_at(
            before.push(event),
            before.len() as int,
            memory,
        ) ==> was_ready(before.push(event), memory),
{
    let events = before.push(event);
    let n = before.len() as int;
    if was_prepared(before, memory) {
        let i = choose|i: int| 0 <= i < before.len() && #[trigger] prepared_at(before, i, memory);
        assert(prepared_at(events, i, memory));
        if ready_at(events, n, memory) {
            assert(was_ready(events, memory));
        }
    }
    if was_ready(before, memory) {
        let (i, j) = choose|i: int, j: int|
            0 <= i < j < before.len() && #[trigger] prepared_at(before, i, memory)
                && #[trigger] ready_at(before, j, memory);
        assert(prepared_at(events, i, memory));
        assert(ready_at(events, j, memory));
    }
}

/// A pass that is past the look at a barrier passed it, and every pass is one that can have come
/// about.
proof fn lemma_looked_at(limit: u64, events: Seq<PassEvent>)
    requires
        pass_after(limit, events) is Some,
    ensures
        ({
            let p = pass_after(limit, events)->Some_0;
            &&& sound(p)
            &&& p.limit == limit
            &&& is_past(p, Barrier::Prepared) ==> (p.self_memory matches Some(memory)
                && was_prepared(events, memory))
            &&& is_past(p, Barrier::Ready) ==> (p.self_memory matches Some(memory) && was_ready(
                events,
                memory,
            ))
        }),
    decreases events.len(),
{
    if events.len() > 0 {
        let before = events.drop_last();
        let event = events.last();
        assert(before.push(event) =~= events);
        lemma_looked_at(limit, before);
        let p = pass_after(limit, before)->Some_0;
        let q = pass_after(limit, events)->Some_0;
        lemma_taken(p, event);
        if let Some(memory) = q.self_memory {
            lemma_looks_stay(before, event, memory);
            if comes_past_prepared(p, event, q) {
                assert(prepared_at(events, before.len() as int, memory));
            }
            if comes_past_ready(p, event, q) {
                assert(is_past(p, Barrier::Prepared));
                assert(ready_at(events, before.len() as int, memory));
            }
        }
    }
}

/// A helper that was told to go was looked at twice before: at the first barrier it ran the loader
/// with exactly the descriptors that it was given, and later, at the second, it had nothing more
/// than that and its own memory, and mapped as code exactly what was authorized: never the provider.
pub proof fn lemma_go_after_both_looks(limit: u64, events: Seq<PassEvent>)
    requires
        pass_after(limit, events) matches Some(p) && p.state == HardenedProtocolState::Running,
    ensures
        exists|memory: FdIdentity| #[trigger] was_ready(events, memory),
{
    lemma_looked_at(limit, events);
    let p = pass_after(limit, events)->Some_0;
    assert(is_past(p, Barrier::Ready));
}

/// A pass whose report can be used was told to go after both looks, its helper ended with all of its
/// output, and that keeps to the limit.
pub proof fn lemma_report_is_supervised(limit: u64, events: Seq<PassEvent>)
    requires
        pass_after(limit, events) matches Some(p) && p.step == PassStep::Complete,
    ensures
        exists|memory: FdIdentity| #[trigger] was_ready(events, memory),
        pass_after(limit, events)->Some_0.child_exited,
        pass_after(limit, events)->Some_0.stdout_eof,
        pass_after(limit, events)->Some_0.output.len() <= limit,
{
    lemma_looked_at(limit, events);
    lemma_go_after_both_looks(limit, events);
}

} // verus!
