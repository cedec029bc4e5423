//! What a pause coordinator asks of the world, and the record of what it asked and heard.

use crate::discovery::pause::diagnostic::PauseDiagnostic;
use crate::record::{DiscoveryItem, DiscoveryRecord};
use crate::text::{heard, Text};
use std::collections::BTreeMap;
use vstd::prelude::*;

verus! {

/// Why a batch of records could not be applied.
#[derive(Debug)]
pub struct PauseBatchError {
    pub message: String,
    pub diagnostic: Option<PauseDiagnostic>,
}

impl PauseBatchError {
    /// An error with its message and its reason.
    pub fn new(message: String, diagnostic: Option<PauseDiagnostic>) -> (error: Self)
        ensures
            error.message@ == message@,
            error.diagnostic == diagnostic,
    {
        Self { message, diagnostic }
    }
}

/// What an applied batch of records came to.
#[derive(Clone, Copy, Debug, PartialEq, Eq, Structural)]
pub struct PauseBatchOutcome {
    /// Whether every required attachment stands.
    pub required_complete: bool,
    /// The reason to report, where the application gave one.
    pub diagnostic: Option<PauseDiagnostic>,
}

/// One dequeued item, with the clock before and after, and the terminal batch it came out of.
pub struct TimedItem<B> {
    pub before_ns: u64,
    pub after_ns: u64,
    pub item: DiscoveryItem,
    pub terminal_batch: Option<B>,
}

/// What a revalidation after the release of the child came to.
pub enum PauseRevalidationOutcome<B> {
    /// It ran to its end.
    Complete(PauseBatchOutcome),
    /// It met an item that belongs to the pause owner.
    Deferred(TimedItem<B>),
}

/// The calls of a coordinator, in order.
pub type History<B> = Seq<Event<B>>;

/// The complete surface through which a coordinator acts: one clock, task reader, discovery queue,
/// authorization word, application of records, marker, resume and detach.
///
/// `B` is the terminal batch that the application of records may leave behind. Every call enters the
/// log, with what it handed over and what came back; nothing is promised of any reply.
pub trait PauseIo<B>: Sized {
    /// Every call made so far, with its reply. Only contracts speak of it; no running code calls it.
    spec fn log(&self) -> History<B>;

    fn now_ns(&mut self) -> (reply: Result<u64, String>)
        ensures
            final(self).log() == old(self).log().push(
                Event::Now(heard(reply)),
            ),
    ;

    fn wait_one_ms(&mut self) -> (reply: Result<(), String>)
        ensures
            final(self).log() == old(self).log().push(
                Event::Wait(heard(reply)),
            ),
    ;

    fn task_states(&mut self, pid: u32) -> (reply: Result<BTreeMap<u32, u8>, String>)
        ensures
            final(self).log() == old(self).log().push(
                Event::Tasks(pid, task_reply(reply)),
            ),
    ;

    fn dequeue(&mut self) -> (reply: Result<Option<DiscoveryItem>, String>)
        ensures
            final(self).log() == old(self).log().push(
                Event::Dequeue(heard(reply)),
            ),
    ;

    fn arm(&mut self) -> (reply: Result<(), String>)
        ensures
            final(self).log() == old(self).log().push(
                Event::Arm(heard(reply)),
            ),
    ;

    fn authorization(&mut self) -> (reply: Result<Option<u64>, String>)
        ensures
            final(self).log() == old(self).log().push(
                Event::Authorization(heard(reply)),
            ),
    ;

    fn remove_authorization(&mut self) -> (reply: Result<Option<u64>, String>)
        ensures
            final(self).log() == old(self).log().push(
                Event::Remove(heard(reply)),
            ),
    ;

    fn apply_batch(
        &mut self,
        records: Vec<DiscoveryRecord>,
        deadline: Option<u64>,
        additions_allowed: bool,
        pause_owned: bool,
        terminal_batch: &mut Option<B>,
    ) -> (reply: Result<PauseBatchOutcome, PauseBatchError>)
        ensures
            final(self).log() == old(self).log().push(
                Event::Apply {
                    records: records@,
                    deadline,
                    additions_allowed,
                    pause_owned,
                    batch: *old(terminal_batch),
                    reply: batch_reply(reply),
                    left: *final(terminal_batch),
                },
            ),
    ;

    fn account_unvalidated_records(&mut self, count: u64)
        ensures
            final(self).log() == old(self).log().push(
                Event::Unvalidated(count),
            ),
    ;

    fn reconcile_terminal_authority(&mut self, terminal_batch: &mut Option<B>) -> (reply: Result<
        (),
        String,
    >)
        ensures
            final(self).log() == old(self).log().push(
                Event::Reconcile {
                    batch: *old(terminal_batch),
                    reply: heard(reply),
                    left: *final(terminal_batch),
                },
            ),
    ;

    fn cleanup_terminal_batch_without_replay(&mut self, terminal_batch: &mut Option<B>) -> (reply: Result<
        (),
        String,
    >)
        ensures
            final(self).log() == old(self).log().push(
                Event::Discard {
                    batch: *old(terminal_batch),
                    reply: heard(reply),
                    left: *final(terminal_batch),
                },
            ),
    ;

    fn terminal_authority_pending(&mut self) -> (reply: bool)
        ensures
            final(self).log() == old(self).log().push(
                Event::AuthorityPending(reply),
            ),
    ;

    fn revalidate_after_release(&mut self, pause_owned: bool) -> (reply: Result<
        PauseRevalidationOutcome<B>,
        String,
    >)
        ensures
            final(self).log() == old(self).log().push(
                Event::Revalidate(pause_owned, heard(reply)),
            ),
    ;

    fn marker_seen(&mut self) -> (reply: Result<bool, String>)
        ensures
            final(self).log() == old(self).log().push(
                Event::Marker(heard(reply)),
            ),
    ;

    fn resume(&mut self) -> (reply: Result<(), String>)
        ensures
            final(self).log() == old(self).log().push(
                Event::Resume(heard(reply)),
            ),
    ;

    fn detach_pause_links(&mut self) -> (reply: Result<(), String>)
        ensures
            final(self).log() == old(self).log().push(
                Event::Detach(heard(reply)),
            ),
    ;

    fn same_generation(&mut self, pid: u32, generation: u64) -> (reply: Result<bool, String>)
        ensures
            final(self).log() == old(self).log().push(
                Event::SameGeneration(pid, generation, heard(reply)),
            ),
    ;

    fn original_exited(&mut self) -> (reply: Result<bool, String>)
        ensures
            final(self).log() == old(self).log().push(
                Event::OriginalExited(heard(reply)),
            ),
    ;

    fn ring_loss(&mut self) -> (reply: Result<u64, String>)
        ensures
            final(self).log() == old(self).log().push(
                Event::RingLoss(heard(reply)),
            ),
    ;

    fn cancelled(&mut self) -> (reply: Result<bool, String>)
        ensures
            final(self).log() == old(self).log().push(
                Event::Cancelled(heard(reply)),
            ),
    ;

    fn take_stop_candidate_seen(&mut self) -> (reply: bool)
        ensures
            final(self).log() == old(self).log().push(
                Event::StopCandidate(reply),
            ),
    ;
}

/// A failed application, seen by the characters of its message.
pub struct BatchFault {
    pub message: Text,
    pub diagnostic: Option<PauseDiagnostic>,
}

/// A reply to an application of records, seen by the characters of its message.
pub open spec fn batch_reply(reply: Result<PauseBatchOutcome, PauseBatchError>) -> Result<
    PauseBatchOutcome,
    BatchFault,
> {
    match reply {
        Ok(outcome) => Ok(outcome),
        Err(error) => Err(
            BatchFault { message: error.message@, diagnostic: error.diagnostic },
        ),
    }
}

/// A reply of the task reader, seen as a map from task to state.
pub open spec fn task_reply(reply: Result<BTreeMap<u32, u8>, String>) -> Result<
    Map<u32, u8>,
    Text,
> {
    match reply {
        Ok(states) => Ok(states@),
        Err(message) => Err(message@),
    }
}

/// One call of a coordinator, with what it handed over and what came back.
#[allow(inconsistent_fields)]
pub enum Event<B> {
    Now(Result<u64, Text>),
    Wait(Result<(), Text>),
    Tasks(u32, Result<Map<u32, u8>, Text>),
    Dequeue(Result<Option<DiscoveryItem>, Text>),
    Arm(Result<(), Text>),
    Authorization(Result<Option<u64>, Text>),
    Remove(Result<Option<u64>, Text>),
    Apply {
        records: Seq<DiscoveryRecord>,
        deadline: Option<u64>,
        additions_allowed: bool,
        pause_owned: bool,
        batch: Option<B>,
        reply: Result<PauseBatchOutcome, BatchFault>,
        left: Option<B>,
    },
    Unvalidated(u64),
    Reconcile { batch: Option<B>, reply: Result<(), Text>, left: Option<B> },
    Discard { batch: Option<B>, reply: Result<(), Text>, left: Option<B> },
    AuthorityPending(bool),
    Revalidate(bool, Result<PauseRevalidationOutcome<B>, Text>),
    Marker(Result<bool, Text>),
    Resume(Result<(), Text>),
    Detach(Result<(), Text>),
    SameGeneration(u32, u64, Result<bool, Text>),
    OriginalExited(Result<bool, Text>),
    RingLoss(Result<u64, Text>),
    Cancelled(Result<bool, Text>),
    StopCandidate(bool),
}

/// Whether a reading of a history comes to `outcome`.
pub open spec fn comes_to<X>(reading: X, outcome: X) -> bool {
    reading == outcome
}

/// Whether the history `long` goes on from the history `short`.
#[verifier::opaque]
pub open spec fn extends<E>(long: Seq<E>, short: Seq<E>) -> bool {
    &&& short.len() <= long.len()
    &&& forall|i: int| 0 <= i < short.len() ==> #[trigger] long[i] == short[i]
}

/// Every history goes on from itself.
pub broadcast proof fn lemma_extends_reflexive<E>(a: Seq<E>)
    ensures
        #[trigger] extends(a, a),
{
    reveal(extends);
}

/// A history that goes on from one that goes on from a third goes on from the third.
pub broadcast proof fn lemma_extends_transitive<E>(a: Seq<E>, b: Seq<E>, c: Seq<E>)
    requires
        #[trigger] extends(a, b),
        #[trigger] extends(b, c),
    ensures
        extends(a, c),
{
    reveal(extends);
}

/// A history that goes on from one with a last event holds that event, and goes on from what was
/// before it.
pub broadcast proof fn lemma_extends_push<E>(a: Seq<E>, b: Seq<E>, e: E)
    requires
        #[trigger] extends(a, b.push(e)),
    ensures
        extends(a, b),
        a[b.len() as int] == e,
{
    reveal(extends);
    assert(b.push(e)[b.len() as int] == e);
    assert forall|i: int| 0 <= i < b.len() implies #[trigger] a[i] == b[i] by {
        assert(b.push(e)[i] == b[i]);
    }
}

/// Whether what a history holds more than it did is what a log shows more than it did: every call
/// that was made is in the history, and nothing else is.
#[verifier::opaque]
pub open spec fn tied<E>(short: Seq<E>, long: Seq<E>, log: Seq<E>, now: Seq<E>) -> bool {
    &&& extends(long, short)
    &&& now == log + long.skip(short.len() as int)
}

/// Nothing was called, and nothing entered the history.
pub broadcast proof fn lemma_tied_reflexive<E>(a: Seq<E>, l: Seq<E>)
    ensures
        #[trigger] tied(a, a, l, l),
{
    reveal(tied);
    lemma_extends_reflexive(a);
    assert(l + a.skip(a.len() as int) =~= l);
}

/// What entered the history in two spans is what was called in both.
pub broadcast proof fn lemma_tied_transitive<E>(
    a: Seq<E>,
    b: Seq<E>,
    c: Seq<E>,
    l: Seq<E>,
    m: Seq<E>,
    n: Seq<E>,
)
    requires
        #[trigger] tied(a, b, l, m),
        #[trigger] tied(b, c, m, n),
    ensures
        tied(a, c, l, n),
{
    reveal(tied);
    reveal(extends);
    assert(c.skip(a.len() as int) =~= b.skip(a.len() as int) + c.skip(b.len() as int));
    assert(n =~= l + c.skip(a.len() as int));
}

/// One call entered the history.
pub proof fn lemma_tied_one<E>(a: Seq<E>, l: Seq<E>, e: E)
    ensures
        tied(a, a.push(e), l, l.push(e)),
{
    reveal(tied);
    lemma_extends_one(a, e);
    assert(a.push(e).skip(a.len() as int) =~= seq![e]);
    assert(l + seq![e] =~= l.push(e));
}

/// A history goes on from what was before its last event.
pub broadcast proof fn lemma_extends_one<E>(a: Seq<E>, e: E)
    ensures
        extends(#[trigger] a.push(e), a),
{
    reveal(extends);
}

pub broadcast group group_history {
    lemma_extends_reflexive,
    lemma_extends_transitive,
    lemma_extends_push,
    lemma_tied_reflexive,
    lemma_tied_transitive,
}

} // verus!
