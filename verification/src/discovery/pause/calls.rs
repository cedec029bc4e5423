//! The calls of a pause coordinator: what each hands over, what it hears, and how both enter the
//! history of the coordinator.
//!
//! Each `call_*` function reads the reply of one call from a history `t` that goes on from the
//! state. Each `ask_*` method makes the call.

use crate::discovery::pause::io::{
    batch_reply, comes_to, extends, group_history, lemma_extends_reflexive, lemma_tied_one,
    task_reply, tied, BatchFault, Event, PauseBatchError, PauseBatchOutcome, PauseIo,
    PauseRevalidationOutcome,
};
use crate::discovery::pause::state::{PauseCoordinator, State};
use crate::record::{DiscoveryItem, DiscoveryRecord};
use crate::text::{heard, Text};
use std::collections::BTreeMap;
use vstd::prelude::*;

verus! {

broadcast use group_history;

/// A read of the clock.
pub open spec fn call_now<B>(s: State<B>, t: Seq<Event<B>>) -> (
    State<B>,
    Result<u64, Text>,
) {
    let reply = s.due(t)->Now_0;
    (s.hear(Event::Now(reply)), reply)
}

/// A wait of one millisecond.
pub open spec fn call_wait<B>(s: State<B>, t: Seq<Event<B>>) -> (
    State<B>,
    Result<(), Text>,
) {
    let reply = s.due(t)->Wait_0;
    (s.hear(Event::Wait(reply)), reply)
}

/// A read of the task states of process `pid`.
pub open spec fn call_tasks<B>(s: State<B>, pid: u32, t: Seq<Event<B>>) -> (
    State<B>,
    Result<Map<u32, u8>, Text>,
) {
    let reply = s.due(t)->Tasks_1;
    (s.hear(Event::Tasks(pid, reply)), reply)
}

/// A dequeue.
pub open spec fn call_dequeue<B>(s: State<B>, t: Seq<Event<B>>) -> (
    State<B>,
    Result<Option<DiscoveryItem>, Text>,
) {
    let reply = s.due(t)->Dequeue_0;
    (s.hear(Event::Dequeue(reply)), reply)
}

/// An exchange that installs an armed authorization.
pub open spec fn call_arm<B>(s: State<B>, t: Seq<Event<B>>) -> (
    State<B>,
    Result<(), Text>,
) {
    let reply = s.due(t)->Arm_0;
    (s.hear(Event::Arm(reply)), reply)
}

/// A read of the authorization word.
pub open spec fn call_authorization<B>(s: State<B>, t: Seq<Event<B>>) -> (
    State<B>,
    Result<Option<u64>, Text>,
) {
    let reply = s.due(t)->Authorization_0;
    (s.hear(Event::Authorization(reply)), reply)
}

/// A removal of the authorization word.
pub open spec fn call_remove<B>(s: State<B>, t: Seq<Event<B>>) -> (
    State<B>,
    Result<Option<u64>, Text>,
) {
    let reply = s.due(t)->Remove_0;
    (s.hear(Event::Remove(reply)), reply)
}

/// A revalidation after the release of the child.
pub open spec fn call_revalidate<B>(s: State<B>, pause_owned: bool, t: Seq<Event<B>>) -> (
    State<B>,
    Result<PauseRevalidationOutcome<B>, Text>,
) {
    let reply = s.due(t)->Revalidate_1;
    (s.hear(Event::Revalidate(pause_owned, reply)), reply)
}

/// A look at the protected marker.
pub open spec fn call_marker<B>(s: State<B>, t: Seq<Event<B>>) -> (
    State<B>,
    Result<bool, Text>,
) {
    let reply = s.due(t)->Marker_0;
    (s.hear(Event::Marker(reply)), reply)
}

/// A resume of the child.
pub open spec fn call_resume<B>(s: State<B>, t: Seq<Event<B>>) -> (
    State<B>,
    Result<(), Text>,
) {
    let reply = s.due(t)->Resume_0;
    (s.hear(Event::Resume(reply)), reply)
}

/// A detach of every pause-capable link.
pub open spec fn call_detach<B>(s: State<B>, t: Seq<Event<B>>) -> (
    State<B>,
    Result<(), Text>,
) {
    let reply = s.due(t)->Detach_0;
    (s.hear(Event::Detach(reply)), reply)
}

/// A question whether the child is still the one that was pinned.
pub open spec fn call_same_generation<B>(s: State<B>, pid: u32, generation: u64, t: Seq<Event<B>>) -> (
    State<B>,
    Result<bool, Text>,
) {
    let reply = s.due(t)->SameGeneration_2;
    (s.hear(Event::SameGeneration(pid, generation, reply)), reply)
}

/// A question whether the original child has exited.
pub open spec fn call_original_exited<B>(s: State<B>, t: Seq<Event<B>>) -> (
    State<B>,
    Result<bool, Text>,
) {
    let reply = s.due(t)->OriginalExited_0;
    (s.hear(Event::OriginalExited(reply)), reply)
}

/// A read of the ring loss counter.
pub open spec fn call_ring_loss<B>(s: State<B>, t: Seq<Event<B>>) -> (
    State<B>,
    Result<u64, Text>,
) {
    let reply = s.due(t)->RingLoss_0;
    (s.hear(Event::RingLoss(reply)), reply)
}

/// A look at the cancellation flag.
pub open spec fn call_cancelled<B>(s: State<B>, t: Seq<Event<B>>) -> (
    State<B>,
    Result<bool, Text>,
) {
    let reply = s.due(t)->Cancelled_0;
    (s.hear(Event::Cancelled(reply)), reply)
}

/// A reconciliation of the terminal authority with the batch at hand.
pub open spec fn call_reconcile<B>(s: State<B>, t: Seq<Event<B>>) -> (State<B>, Result<(), Text>) {
    let reply = s.due(t)->Reconcile_reply;
    let left = s.due(t)->Reconcile_left;
    let next = s.hear(Event::Reconcile { batch: s.terminal_batch, reply, left });
    (State { terminal_batch: left, ..next }, reply)
}

/// A cleanup of the terminal batch without a replay.
pub open spec fn call_discard<B>(s: State<B>, t: Seq<Event<B>>) -> (State<B>, Result<(), Text>) {
    let reply = s.due(t)->Discard_reply;
    let left = s.due(t)->Discard_left;
    let next = s.hear(Event::Discard { batch: s.terminal_batch, reply, left });
    (State { terminal_batch: left, ..next }, reply)
}

/// An application of `records`.
pub open spec fn call_apply<B>(
    s: State<B>,
    records: Seq<DiscoveryRecord>,
    deadline: Option<u64>,
    additions_allowed: bool,
    pause_owned: bool,
    t: Seq<Event<B>>,
) -> (State<B>, Result<PauseBatchOutcome, BatchFault>) {
    let reply = s.due(t)->Apply_reply;
    let left = s.due(t)->Apply_left;
    let next = s.hear(
        Event::Apply {
            records,
            deadline,
            additions_allowed,
            pause_owned,
            batch: s.terminal_batch,
            reply,
            left,
        },
    );
    (State { terminal_batch: left, ..next }, reply)
}

/// A report of records that could not be validated.
pub open spec fn call_unvalidated<B>(s: State<B>, count: u64) -> State<B> {
    s.hear(Event::Unvalidated(count))
}

/// A question whether terminal authority is still held outside.
pub open spec fn call_authority_pending<B>(s: State<B>, t: Seq<Event<B>>) -> (State<B>, bool) {
    let reply = s.due(t)->AuthorityPending_0;
    (s.hear(Event::AuthorityPending(reply)), reply)
}

/// A question whether a stop candidate was seen outside of the dequeues.
pub open spec fn call_stop_candidate<B>(s: State<B>, t: Seq<Event<B>>) -> (State<B>, bool) {
    let reply = s.due(t)->StopCandidate_0;
    (s.hear(Event::StopCandidate(reply)), reply)
}

impl<B> PauseCoordinator<B> {
    /// A read of the clock.
    pub(crate) fn ask_now<I: PauseIo<B>>(&mut self, io: &mut I) -> (reply: Result<u64, String>)
        ensures
            extends(final(self).trace@, old(self).trace@),
            tied(old(self).trace@, final(self).trace@, old(io).log(), final(io).log()),
            forall|t: Seq<Event<B>>|
                extends(t, final(self).trace@) ==> comes_to(
                    #[trigger] call_now(old(self)@, t),
                    (final(self)@, heard(reply)),
                ),
    {
        let reply = io.now_ns();
        self.trace = Ghost(self.trace@.push(Event::Now(heard(reply))));
        proof {
            lemma_tied_one(old(self).trace@, old(io).log(), self.trace@.last());
            lemma_extends_reflexive(self.trace@);
        }
        reply
    }

    /// A wait of one millisecond.
    pub(crate) fn ask_wait<I: PauseIo<B>>(&mut self, io: &mut I) -> (reply: Result<(), String>)
        ensures
            extends(final(self).trace@, old(self).trace@),
            tied(old(self).trace@, final(self).trace@, old(io).log(), final(io).log()),
            forall|t: Seq<Event<B>>|
                extends(t, final(self).trace@) ==> comes_to(
                    #[trigger] call_wait(old(self)@, t),
                    (final(self)@, heard(reply)),
                ),
    {
        let reply = io.wait_one_ms();
        self.trace = Ghost(self.trace@.push(Event::Wait(heard(reply))));
        proof {
            lemma_tied_one(old(self).trace@, old(io).log(), self.trace@.last());
            lemma_extends_reflexive(self.trace@);
        }
        reply
    }

    /// A read of the task states of process `pid`.
    pub(crate) fn ask_tasks<I: PauseIo<B>>(&mut self, io: &mut I, pid: u32) -> (reply: Result<BTreeMap<u32, u8>, String>)
        ensures
            extends(final(self).trace@, old(self).trace@),
            tied(old(self).trace@, final(self).trace@, old(io).log(), final(io).log()),
            forall|t: Seq<Event<B>>|
                extends(t, final(self).trace@) ==> comes_to(
                    #[trigger] call_tasks(old(self)@, pid, t),
                    (final(self)@, task_reply(reply)),
                ),
    {
        let reply = io.task_states(pid);
        self.trace = Ghost(self.trace@.push(Event::Tasks(pid, task_reply(reply))));
        proof {
            lemma_tied_one(old(self).trace@, old(io).log(), self.trace@.last());
            lemma_extends_reflexive(self.trace@);
        }
        reply
    }

    /// A dequeue.
    pub(crate) fn ask_dequeue<I: PauseIo<B>>(&mut self, io: &mut I) -> (reply: Result<Option<DiscoveryItem>, String>)
        ensures
            extends(final(self).trace@, old(self).trace@),
            tied(old(self).trace@, final(self).trace@, old(io).log(), final(io).log()),
            forall|t: Seq<Event<B>>|
                extends(t, final(self).trace@) ==> comes_to(
                    #[trigger] call_dequeue(old(self)@, t),
                    (final(self)@, heard(reply)),
                ),
    {
        let reply = io.dequeue();
        self.trace = Ghost(self.trace@.push(Event::Dequeue(heard(reply))));
        proof {
            lemma_tied_one(old(self).trace@, old(io).log(), self.trace@.last());
            lemma_extends_reflexive(self.trace@);
        }
        reply
    }

    /// An exchange that installs an armed authorization.
    pub(crate) fn ask_arm<I: PauseIo<B>>(&mut self, io: &mut I) -> (reply: Result<(), String>)
        ensures
            extends(final(self).trace@, old(self).trace@),
            tied(old(self).trace@, final(self).trace@, old(io).log(), final(io).log()),
            forall|t: Seq<Event<B>>|
                extends(t, final(self).trace@) ==> comes_to(
                    #[trigger] call_arm(old(self)@, t),
                    (final(self)@, heard(reply)),
                ),
    {
        let reply = io.arm();
        self.trace = Ghost(self.trace@.push(Event::Arm(heard(reply))));
        proof {
            lemma_tied_one(old(self).trace@, old(io).log(), self.trace@.last());
            lemma_extends_reflexive(self.trace@);
        }
        reply
    }

    /// A read of the authorization word.
    pub(crate) fn ask_authorization<I: PauseIo<B>>(&mut self, io: &mut I) -> (reply: Result<Option<u64>, String>)
        ensures
            extends(final(self).trace@, old(self).trace@),
            tied(old(self).trace@, final(self).trace@, old(io).log(), final(io).log()),
            forall|t: Seq<Event<B>>|
                extends(t, final(self).trace@) ==> comes_to(
                    #[trigger] call_authorization(old(self)@, t),
                    (final(self)@, heard(reply)),
                ),
    {
        let reply = io.authorization();
        self.trace = Ghost(self.trace@.push(Event::Authorization(heard(reply))));
        proof {
            lemma_tied_one(old(self).trace@, old(io).log(), self.trace@.last());
            lemma_extends_reflexive(self.trace@);
        }
        reply
    }

    /// A removal of the authorization word.
    pub(crate) fn ask_remove<I: PauseIo<B>>(&mut self, io: &mut I) -> (reply: Result<Option<u64>, String>)
        ensures
            extends(final(self).trace@, old(self).trace@),
            tied(old(self).trace@, final(self).trace@, old(io).log(), final(io).log()),
            forall|t: Seq<Event<B>>|
                extends(t, final(self).trace@) ==> comes_to(
                    #[trigger] call_remove(old(self)@, t),
                    (final(self)@, heard(reply)),
                ),
    {
        let reply = io.remove_authorization();
        self.trace = Ghost(self.trace@.push(Event::Remove(heard(reply))));
        proof {
            lemma_tied_one(old(self).trace@, old(io).log(), self.trace@.last());
            lemma_extends_reflexive(self.trace@);
        }
        reply
    }

    /// A revalidation after the release of the child.
    pub(crate) fn ask_revalidate<I: PauseIo<B>>(&mut self, io: &mut I, pause_owned: bool) -> (reply: Result<PauseRevalidationOutcome<B>, String>)
        ensures
            extends(final(self).trace@, old(self).trace@),
            tied(old(self).trace@, final(self).trace@, old(io).log(), final(io).log()),
            forall|t: Seq<Event<B>>|
                extends(t, final(self).trace@) ==> comes_to(
                    #[trigger] call_revalidate(old(self)@, pause_owned, t),
                    (final(self)@, heard(reply)),
                ),
    {
        let reply = io.revalidate_after_release(pause_owned);
        self.trace = Ghost(self.trace@.push(Event::Revalidate(pause_owned, heard(reply))));
        proof {
            lemma_tied_one(old(self).trace@, old(io).log(), self.trace@.last());
            lemma_extends_reflexive(self.trace@);
        }
        reply
    }

    /// A look at the protected marker.
    pub(crate) fn ask_marker<I: PauseIo<B>>(&mut self, io: &mut I) -> (reply: Result<bool, String>)
        ensures
            extends(final(self).trace@, old(self).trace@),
            tied(old(self).trace@, final(self).trace@, old(io).log(), final(io).log()),
            forall|t: Seq<Event<B>>|
                extends(t, final(self).trace@) ==> comes_to(
                    #[trigger] call_marker(old(self)@, t),
                    (final(self)@, heard(reply)),
                ),
    {
        let reply = io.marker_seen();
        self.trace = Ghost(self.trace@.push(Event::Marker(heard(reply))));
        proof {
            lemma_tied_one(old(self).trace@, old(io).log(), self.trace@.last());
            lemma_extends_reflexive(self.trace@);
        }
        reply
    }

    /// A resume of the child.
    pub(crate) fn ask_resume<I: PauseIo<B>>(&mut self, io: &mut I) -> (reply: Result<(), String>)
        ensures
            extends(final(self).trace@, old(self).trace@),
            tied(old(self).trace@, final(self).trace@, old(io).log(), final(io).log()),
            forall|t: Seq<Event<B>>|
                extends(t, final(self).trace@) ==> comes_to(
                    #[trigger] call_resume(old(self)@, t),
                    (final(self)@, heard(reply)),
                ),
    {
        let reply = io.resume();
        self.trace = Ghost(self.trace@.push(Event::Resume(heard(reply))));
        proof {
            lemma_tied_one(old(self).trace@, old(io).log(), self.trace@.last());
            lemma_extends_reflexive(self.trace@);
        }
        reply
    }

    /// A detach of every pause-capable link.
    pub(crate) fn ask_detach<I: PauseIo<B>>(&mut self, io: &mut I) -> (reply: Result<(), String>)
        ensures
            extends(final(self).trace@, old(self).trace@),
            tied(old(self).trace@, final(self).trace@, old(io).log(), final(io).log()),
            forall|t: Seq<Event<B>>|
                extends(t, final(self).trace@) ==> comes_to(
                    #[trigger] call_detach(old(self)@, t),
                    (final(self)@, heard(reply)),
                ),
    {
        let reply = io.detach_pause_links();
        self.trace = Ghost(self.trace@.push(Event::Detach(heard(reply))));
        proof {
            lemma_tied_one(old(self).trace@, old(io).log(), self.trace@.last());
            lemma_extends_reflexive(self.trace@);
        }
        reply
    }

    /// A question whether the child is still the one that was pinned.
    pub(crate) fn ask_same_generation<I: PauseIo<B>>(&mut self, io: &mut I, pid: u32, generation: u64) -> (reply: Result<bool, String>)
        ensures
            extends(final(self).trace@, old(self).trace@),
            tied(old(self).trace@, final(self).trace@, old(io).log(), final(io).log()),
            forall|t: Seq<Event<B>>|
                extends(t, final(self).trace@) ==> comes_to(
                    #[trigger] call_same_generation(old(self)@, pid, generation, t),
                    (final(self)@, heard(reply)),
                ),
    {
        let reply = io.same_generation(pid, generation);
        self.trace = Ghost(self.trace@.push(Event::SameGeneration(pid, generation, heard(reply))));
        proof {
            lemma_tied_one(old(self).trace@, old(io).log(), self.trace@.last());
            lemma_extends_reflexive(self.trace@);
        }
        reply
    }

    /// A question whether the original child has exited.
    pub(crate) fn ask_original_exited<I: PauseIo<B>>(&mut self, io: &mut I) -> (reply: Result<bool, String>)
        ensures
            extends(final(self).trace@, old(self).trace@),
            tied(old(self).trace@, final(self).trace@, old(io).log(), final(io).log()),
            forall|t: Seq<Event<B>>|
                extends(t, final(self).trace@) ==> comes_to(
                    #[trigger] call_original_exited(old(self)@, t),
                    (final(self)@, heard(reply)),
                ),
    {
        let reply = io.original_exited();
        self.trace = Ghost(self.trace@.push(Event::OriginalExited(heard(reply))));
        proof {
            lemma_tied_one(old(self).trace@, old(io).log(), self.trace@.last());
            lemma_extends_reflexive(self.trace@);
        }
        reply
    }

    /// A read of the ring loss counter.
    pub(crate) fn ask_ring_loss<I: PauseIo<B>>(&mut self, io: &mut I) -> (reply: Result<u64, String>)
        ensures
            extends(final(self).trace@, old(self).trace@),
            tied(old(self).trace@, final(self).trace@, old(io).log(), final(io).log()),
            forall|t: Seq<Event<B>>|
                extends(t, final(self).trace@) ==> comes_to(
                    #[trigger] call_ring_loss(old(self)@, t),
                    (final(self)@, heard(reply)),
                ),
    {
        let reply = io.ring_loss();
        self.trace = Ghost(self.trace@.push(Event::RingLoss(heard(reply))));
        proof {
            lemma_tied_one(old(self).trace@, old(io).log(), self.trace@.last());
            lemma_extends_reflexive(self.trace@);
        }
        reply
    }

    /// A look at the cancellation flag.
    pub(crate) fn ask_cancelled<I: PauseIo<B>>(&mut self, io: &mut I) -> (reply: Result<bool, String>)
        ensures
            extends(final(self).trace@, old(self).trace@),
            tied(old(self).trace@, final(self).trace@, old(io).log(), final(io).log()),
            forall|t: Seq<Event<B>>|
                extends(t, final(self).trace@) ==> comes_to(
                    #[trigger] call_cancelled(old(self)@, t),
                    (final(self)@, heard(reply)),
                ),
    {
        let reply = io.cancelled();
        self.trace = Ghost(self.trace@.push(Event::Cancelled(heard(reply))));
        proof {
            lemma_tied_one(old(self).trace@, old(io).log(), self.trace@.last());
            lemma_extends_reflexive(self.trace@);
        }
        reply
    }

    /// A reconciliation of the terminal authority with the batch at hand.
    pub(crate) fn ask_reconcile<I: PauseIo<B>>(&mut self, io: &mut I) -> (reply: Result<(), String>)
        ensures
            extends(final(self).trace@, old(self).trace@),
            tied(old(self).trace@, final(self).trace@, old(io).log(), final(io).log()),
            forall|t: Seq<Event<B>>|
                extends(t, final(self).trace@) ==> comes_to(
                    #[trigger] call_reconcile(old(self)@, t),
                    (final(self)@, heard(reply)),
                ),
    {
        let ghost batch = self.terminal_batch;
        let reply = io.reconcile_terminal_authority(&mut self.terminal_batch);
        self.trace = Ghost(
            self.trace@.push(
                Event::Reconcile { batch, reply: heard(reply), left: self.terminal_batch },
            ),
        );
        proof {
            lemma_tied_one(old(self).trace@, old(io).log(), self.trace@.last());
            lemma_extends_reflexive(self.trace@);
        }
        reply
    }

    /// A cleanup of the terminal batch without a replay.
    pub(crate) fn ask_discard<I: PauseIo<B>>(&mut self, io: &mut I) -> (reply: Result<(), String>)
        ensures
            extends(final(self).trace@, old(self).trace@),
            tied(old(self).trace@, final(self).trace@, old(io).log(), final(io).log()),
            forall|t: Seq<Event<B>>|
                extends(t, final(self).trace@) ==> comes_to(
                    #[trigger] call_discard(old(self)@, t),
                    (final(self)@, heard(reply)),
                ),
    {
        let ghost batch = self.terminal_batch;
        let reply = io.cleanup_terminal_batch_without_replay(&mut self.terminal_batch);
        self.trace = Ghost(
            self.trace@.push(
                Event::Discard { batch, reply: heard(reply), left: self.terminal_batch },
            ),
        );
        proof {
            lemma_tied_one(old(self).trace@, old(io).log(), self.trace@.last());
            lemma_extends_reflexive(self.trace@);
        }
        reply
    }

    /// An application of `records`.
    pub(crate) fn ask_apply<I: PauseIo<B>>(
        &mut self,
        io: &mut I,
        records: Vec<DiscoveryRecord>,
        deadline: Option<u64>,
        additions_allowed: bool,
        pause_owned: bool,
    ) -> (reply: Result<PauseBatchOutcome, PauseBatchError>)
        ensures
            extends(final(self).trace@, old(self).trace@),
            tied(old(self).trace@, final(self).trace@, old(io).log(), final(io).log()),
            forall|t: Seq<Event<B>>|
                extends(t, final(self).trace@) ==> comes_to(
                    #[trigger] call_apply(old(self)@, records@, deadline, additions_allowed, pause_owned, t),
                    (final(self)@, batch_reply(reply)),
                ),
    {
        let ghost batch = self.terminal_batch;
        let ghost handed = records@;
        let reply = io.apply_batch(
            records,
            deadline,
            additions_allowed,
            pause_owned,
            &mut self.terminal_batch,
        );
        self.trace = Ghost(
            self.trace@.push(
                Event::Apply {
                    records: handed,
                    deadline,
                    additions_allowed,
                    pause_owned,
                    batch,
                    reply: batch_reply(reply),
                    left: self.terminal_batch,
                },
            ),
        );
        proof {
            lemma_tied_one(old(self).trace@, old(io).log(), self.trace@.last());
            lemma_extends_reflexive(self.trace@);
        }
        reply
    }

    /// A report of records that could not be validated.
    pub(crate) fn ask_unvalidated<I: PauseIo<B>>(&mut self, io: &mut I, count: u64)
        ensures
            extends(final(self).trace@, old(self).trace@),
            tied(old(self).trace@, final(self).trace@, old(io).log(), final(io).log()),
            call_unvalidated(old(self)@, count) == final(self)@,
    {
        io.account_unvalidated_records(count);
        self.trace = Ghost(self.trace@.push(Event::Unvalidated(count)));
        proof {
            lemma_tied_one(old(self).trace@, old(io).log(), self.trace@.last());
            lemma_extends_reflexive(self.trace@);
        }
    }

    /// A question whether terminal authority is still held outside.
    pub(crate) fn ask_authority_pending<I: PauseIo<B>>(&mut self, io: &mut I) -> (reply: bool)
        ensures
            extends(final(self).trace@, old(self).trace@),
            tied(old(self).trace@, final(self).trace@, old(io).log(), final(io).log()),
            forall|t: Seq<Event<B>>|
                extends(t, final(self).trace@) ==> comes_to(
                    #[trigger] call_authority_pending(old(self)@, t),
                    (final(self)@, reply),
                ),
    {
        let reply = io.terminal_authority_pending();
        self.trace = Ghost(self.trace@.push(Event::AuthorityPending(reply)));
        proof {
            lemma_tied_one(old(self).trace@, old(io).log(), self.trace@.last());
            lemma_extends_reflexive(self.trace@);
        }
        reply
    }

    /// A question whether a stop candidate was seen outside of the dequeues.
    pub(crate) fn ask_stop_candidate<I: PauseIo<B>>(&mut self, io: &mut I) -> (reply: bool)
        ensures
            extends(final(self).trace@, old(self).trace@),
            tied(old(self).trace@, final(self).trace@, old(io).log(), final(io).log()),
            forall|t: Seq<Event<B>>|
                extends(t, final(self).trace@) ==> comes_to(
                    #[trigger] call_stop_candidate(old(self)@, t),
                    (final(self)@, reply),
                ),
    {
        let reply = io.take_stop_candidate_seen();
        self.trace = Ghost(self.trace@.push(Event::StopCandidate(reply)));
        proof {
            lemma_tied_one(old(self).trace@, old(io).log(), self.trace@.last());
            lemma_extends_reflexive(self.trace@);
        }
        reply
    }
}

} // verus!
