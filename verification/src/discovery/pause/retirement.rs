//! The drain of the discovery queue while links are retired, which may run inside of a pause.

use crate::discovery::pause::diagnostic::{MSG_NESTED_DEADLINE_AFTER, MSG_NESTED_DEADLINE_BEFORE};
use crate::discovery::pause::draining::{lemma_done_is_empty, saw_empty};
use crate::discovery::pause::io::{
    comes_to, extends, group_history, lemma_extends_reflexive, lemma_tied_one, tied, TimedItem,
};
use crate::discovery::pause::rules::{causal, saturated, validate_received};
use crate::discovery::pause::steps::{is_past, past, TURNS};
use crate::record::{exact_pid, DiscoveryItem, DiscoveryRecord};
use crate::text::{heard, Text};
use vstd::prelude::*;

verus! {

broadcast use group_history;

/// The calls of a drain, in order.
pub type DrainHistory = Seq<DrainEvent>;

/// What a drain asks of the world. Every call enters the log, with what came back; nothing is
/// promised of any reply.
pub trait DrainIo: Sized {
    /// Every call made so far, with its reply. Only contracts speak of it; no running code calls it.
    spec fn log(&self) -> DrainHistory;

    fn now_ns(&mut self) -> (reply: Result<u64, String>)
        ensures
            final(self).log() == old(self).log().push(DrainEvent::Now(heard(reply))),
    ;

    fn dequeue(&mut self) -> (reply: Result<Option<DiscoveryItem>, String>)
        ensures
            final(self).log() == old(self).log().push(DrainEvent::Dequeue(heard(reply))),
    ;

    fn same_generation(&mut self) -> (reply: Result<bool, String>)
        ensures
            final(self).log() == old(self).log().push(DrainEvent::SameGeneration(heard(reply))),
    ;
}

/// One call of a drain, with its reply.
pub enum DrainEvent {
    Now(Result<u64, Text>),
    Dequeue(Result<Option<DiscoveryItem>, Text>),
    SameGeneration(Result<bool, Text>),
}

/// Why a drain did not reach the end of the queue, with everything it had taken from it.
pub struct IncompleteTerminalDrain {
    pub records: Vec<DiscoveryRecord>,
    pub malformed: u64,
    pub unvalidated_records: u64,
    pub cause: String,
}

/// An item that belongs to the pause owner.
#[derive(Clone, Copy, Debug, PartialEq, Eq, Structural)]
pub struct DeferredDiscoveryItem {
    pub before_ns: u64,
    pub after_ns: u64,
    pub item: DiscoveryItem,
}

/// How a drain ended before the end of the queue.
pub enum RetirementError {
    Incomplete(IncompleteTerminalDrain),
    Deferred(DeferredDiscoveryItem),
}

/// What a drain does: the child it is about, its deadline, and whether it runs inside of a pause.
#[derive(Clone, Copy)]
pub struct Drain {
    pub child_pid: u32,
    pub deadline: Option<u64>,
    pub pause_owned: bool,
}

/// What a drain has found so far.
pub struct Retirement {
    pub records: Vec<DiscoveryRecord>,
    pub malformed: u64,
    pub unvalidated_records: u64,
    /// Whether a record of the child came in that may have stopped it.
    pub stop_candidate_seen: bool,
    /// Whether the deadline was crossed.
    pub nested_deadline: bool,
    /// Every call made so far, with its reply.
    pub trace: Ghost<Seq<DrainEvent>>,
}

/// What a drain has found so far, with its records as a sequence.
pub struct Found {
    pub records: Seq<DiscoveryRecord>,
    pub malformed: u64,
    pub unvalidated_records: u64,
    pub stop_candidate_seen: bool,
    pub nested_deadline: bool,
    pub trace: Seq<DrainEvent>,
}

impl View for Retirement {
    type V = Found;

    open spec fn view(&self) -> Found {
        Found {
            records: self.records@,
            malformed: self.malformed,
            unvalidated_records: self.unvalidated_records,
            stop_candidate_seen: self.stop_candidate_seen,
            nested_deadline: self.nested_deadline,
            trace: self.trace@,
        }
    }
}

/// How one turn of a drain ends.
pub enum DrainTurn {
    /// The drain goes on.
    More,
    /// The drain is at its end.
    Done,
    /// The drain failed.
    Failed(Text),
    /// The drain met an item of the pause owner.
    Deferred(DeferredDiscoveryItem),
}

impl Found {
    /// Nothing found yet.
    pub open spec fn nothing() -> Found {
        Found {
            records: Seq::empty(),
            malformed: 0,
            unvalidated_records: 0,
            stop_candidate_seen: false,
            nested_deadline: false,
            trace: Seq::empty(),
        }
    }

    /// The findings after one more call.
    pub open spec fn hear(self, event: DrainEvent) -> Found {
        Found { trace: self.trace.push(event), ..self }
    }

    /// The call that the history `t` holds next.
    pub open spec fn due(self, t: Seq<DrainEvent>) -> DrainEvent {
        t[self.trace.len() as int]
    }

    /// The findings with an item that was taken from the queue.
    pub open spec fn retained(self, item: DiscoveryItem) -> Found {
        match item {
            DiscoveryItem::Record(record) => Found { records: self.records.push(record), ..self },
            DiscoveryItem::Malformed => Found { malformed: saturated(self.malformed), ..self },
        }
    }

    /// The findings with an item of which it is not known whether it is of the pinned child.
    pub open spec fn unvalidated(self, item: DiscoveryItem) -> Found {
        match item {
            DiscoveryItem::Record(record) => Found {
                unvalidated_records: saturated(self.unvalidated_records),
                ..self
            },
            DiscoveryItem::Malformed => Found { malformed: saturated(self.malformed), ..self },
        }
    }

    /// The findings once a record came in that may have stopped the child.
    pub open spec fn candidate(self) -> Found {
        Found { stop_candidate_seen: true, ..self }
    }

    /// The findings once the deadline was crossed.
    pub open spec fn crossed(self) -> Found {
        Found { nested_deadline: true, ..self }
    }
}

impl Drain {
    /// Whether an item may have stopped the child.
    pub open spec fn stops(self, item: DiscoveryItem) -> bool {
        self.pause_owned && (item matches DiscoveryItem::Record(record) && record.pid()
            == self.child_pid && record.send_signal_rc == 0)
    }
}

/// A read of the clock.
pub open spec fn hear_now(f: Found, t: Seq<DrainEvent>) -> (Found, Result<u64, Text>) {
    let reply = f.due(t)->Now_0;
    (f.hear(DrainEvent::Now(reply)), reply)
}

/// A dequeue.
pub open spec fn hear_dequeue(f: Found, t: Seq<DrainEvent>) -> (
    Found,
    Result<Option<DiscoveryItem>, Text>,
) {
    let reply = f.due(t)->Dequeue_0;
    (f.hear(DrainEvent::Dequeue(reply)), reply)
}

/// A question whether the child is still the pinned one.
pub open spec fn hear_generation(f: Found, t: Seq<DrainEvent>) -> (Found, Result<bool, Text>) {
    let reply = f.due(t)->SameGeneration_0;
    (f.hear(DrainEvent::SameGeneration(reply)), reply)
}

/// What a validated item means to a drain.
#[verifier::opaque]
pub open spec fn drain_settle(
    f: Found,
    d: Drain,
    before_ns: u64,
    after_ns: u64,
    item: DiscoveryItem,
) -> (Found, DrainTurn) {
    match item {
        DiscoveryItem::Malformed => (f.retained(item), DrainTurn::Done),
        DiscoveryItem::Record(record) => match d.deadline {
            None => if d.pause_owned {
                (f, DrainTurn::Deferred(DeferredDiscoveryItem { before_ns, after_ns, item }))
            } else {
                (f.retained(item), DrainTurn::More)
            },
            Some(deadline) => match causal(before_ns, after_ns, record.hook_ts_ns, deadline) {
                Err(message) => (f.retained(item), DrainTurn::Failed(message)),
                Ok(()) => if record.coalesced_of(d.child_pid) {
                    (f.retained(item), DrainTurn::More)
                } else {
                    (
                        f.retained(item),
                        DrainTurn::Failed("duplicate or unaccounted nested pause record"@),
                    )
                },
            },
        },
    }
}

/// The clock after an item was taken from the queue. An item that already left the queue stays
/// among the findings whatever the clock says.
#[verifier::opaque]
pub open spec fn drain_close(
    f: Found,
    d: Drain,
    before_ns: u64,
    item: DiscoveryItem,
    t: Seq<DrainEvent>,
) -> (Found, DrainTurn) {
    let (f, after) = hear_now(f, t);
    match after {
        Err(message) => (f.retained(item), DrainTurn::Failed(message)),
        Ok(after_ns) => if past(after_ns, d.deadline) {
            (f.crossed().retained(item), DrainTurn::Failed(MSG_NESTED_DEADLINE_AFTER@))
        } else {
            drain_settle(f, d, before_ns, after_ns, item)
        },
    }
}

/// An item that was taken from the queue, which counts only where the child is still the pinned
/// one.
#[verifier::opaque]
pub open spec fn drain_item(
    f: Found,
    d: Drain,
    before_ns: u64,
    item: DiscoveryItem,
    t: Seq<DrainEvent>,
) -> (Found, DrainTurn) {
    let f = if d.stops(item) {
        f.candidate()
    } else {
        f
    };
    let (f, same) = hear_generation(f, t);
    match same {
        Err(message) => (f.unvalidated(item), DrainTurn::Failed(message)),
        Ok(false) => (
            f.unvalidated(item),
            DrainTurn::Failed("owned child generation changed after nested discovery decode"@),
        ),
        Ok(true) => drain_close(f, d, before_ns, item, t),
    }
}

/// The clock after the queue was found empty.
#[verifier::opaque]
pub open spec fn drain_empty(f: Found, d: Drain, t: Seq<DrainEvent>) -> (Found, DrainTurn) {
    let (f, after) = hear_now(f, t);
    match after {
        Err(message) => (f, DrainTurn::Failed(message)),
        Ok(after_ns) => if past(after_ns, d.deadline) {
            (f.crossed(), DrainTurn::Failed(MSG_NESTED_DEADLINE_AFTER@))
        } else {
            (f, DrainTurn::Done)
        },
    }
}

/// One turn of a drain.
#[verifier::opaque]
pub open spec fn drain_turn(f: Found, d: Drain, t: Seq<DrainEvent>) -> (Found, DrainTurn) {
    let (f, before) = hear_now(f, t);
    match before {
        Err(message) => (f, DrainTurn::Failed(message)),
        Ok(before_ns) => if past(before_ns, d.deadline) {
            (f.crossed(), DrainTurn::Failed(MSG_NESTED_DEADLINE_BEFORE@))
        } else {
            let (f, item) = hear_dequeue(f, t);
            match item {
                Err(message) => (f, DrainTurn::Failed(message)),
                Ok(None) => drain_empty(f, d, t),
                Ok(Some(item)) => drain_item(f, d, before_ns, item, t),
            }
        },
    }
}

/// A drain, of at most `turns` turns.
#[verifier::opaque]
pub open spec fn drained(f: Found, d: Drain, turns: nat, t: Seq<DrainEvent>) -> (Found, DrainTurn)
    decreases turns,
{
    if turns == 0 {
        (f, DrainTurn::Failed(MSG_NESTED_DEADLINE_BEFORE@))
    } else {
        let (f, turn) = drain_turn(f, d, t);
        if turn is More {
            drained(f, d, (turns - 1) as nat, t)
        } else {
            (f, turn)
        }
    }
}

/// How one turn of a drain ends.
pub enum TurnEnd {
    More,
    Done,
    Failed(String),
    Deferred(DeferredDiscoveryItem),
}

impl View for TurnEnd {
    type V = DrainTurn;

    open spec fn view(&self) -> DrainTurn {
        match *self {
            TurnEnd::More => DrainTurn::More,
            TurnEnd::Done => DrainTurn::Done,
            TurnEnd::Failed(message) => DrainTurn::Failed(message@),
            TurnEnd::Deferred(item) => DrainTurn::Deferred(item),
        }
    }
}

impl Retirement {
    fn ask_now<I: DrainIo>(&mut self, io: &mut I) -> (reply: Result<u64, String>)
        ensures
            extends(final(self).trace@, old(self).trace@),
            tied(old(self).trace@, final(self).trace@, old(io).log(), final(io).log()),
            forall|t: Seq<DrainEvent>|
                extends(t, final(self).trace@) ==> comes_to(
                    #[trigger] hear_now(old(self)@, t),
                    (final(self)@, heard(reply)),
                ),
    {
        let reply = io.now_ns();
        self.trace = Ghost(self.trace@.push(DrainEvent::Now(heard(reply))));
        proof {
            lemma_tied_one(old(self).trace@, old(io).log(), self.trace@.last());
            lemma_extends_reflexive(self.trace@);
        }
        reply
    }

    fn ask_dequeue<I: DrainIo>(&mut self, io: &mut I) -> (reply: Result<Option<DiscoveryItem>, String>)
        ensures
            extends(final(self).trace@, old(self).trace@),
            tied(old(self).trace@, final(self).trace@, old(io).log(), final(io).log()),
            forall|t: Seq<DrainEvent>|
                extends(t, final(self).trace@) ==> comes_to(
                    #[trigger] hear_dequeue(old(self)@, t),
                    (final(self)@, heard(reply)),
                ),
    {
        let reply = io.dequeue();
        self.trace = Ghost(self.trace@.push(DrainEvent::Dequeue(heard(reply))));
        proof {
            lemma_tied_one(old(self).trace@, old(io).log(), self.trace@.last());
            lemma_extends_reflexive(self.trace@);
        }
        reply
    }

    fn ask_generation<I: DrainIo>(&mut self, io: &mut I) -> (reply: Result<bool, String>)
        ensures
            extends(final(self).trace@, old(self).trace@),
            tied(old(self).trace@, final(self).trace@, old(io).log(), final(io).log()),
            forall|t: Seq<DrainEvent>|
                extends(t, final(self).trace@) ==> comes_to(
                    #[trigger] hear_generation(old(self)@, t),
                    (final(self)@, heard(reply)),
                ),
    {
        let reply = io.same_generation();
        self.trace = Ghost(self.trace@.push(DrainEvent::SameGeneration(heard(reply))));
        proof {
            lemma_tied_one(old(self).trace@, old(io).log(), self.trace@.last());
            lemma_extends_reflexive(self.trace@);
        }
        reply
    }

    /// Keeps an item that was taken from the queue.
    fn retain(&mut self, item: DiscoveryItem)
        ensures
            comes_to(old(self)@.retained(item), final(self)@),
            final(self).trace@ == old(self).trace@,
    {
        match item {
            DiscoveryItem::Record(record) => self.records.push(record),
            DiscoveryItem::Malformed => self.malformed = self.malformed.saturating_add(1),
        }
    }

    /// Counts an item of which it is not known whether it is of the pinned child.
    fn count_unvalidated(&mut self, item: DiscoveryItem)
        ensures
            comes_to(old(self)@.unvalidated(item), final(self)@),
            final(self).trace@ == old(self).trace@,
    {
        match item {
            DiscoveryItem::Record(_) => {
                self.unvalidated_records = self.unvalidated_records.saturating_add(1);
            },
            DiscoveryItem::Malformed => self.malformed = self.malformed.saturating_add(1),
        }
    }

    /// Notes a record that may have stopped the child.
    fn note_candidate(&mut self)
        ensures
            comes_to(old(self)@.candidate(), final(self)@),
            final(self).trace@ == old(self).trace@,
    {
        self.stop_candidate_seen = true;
    }

    /// Notes that the deadline was crossed.
    fn note_crossed(&mut self)
        ensures
            comes_to(old(self)@.crossed(), final(self)@),
            final(self).trace@ == old(self).trace@,
    {
        self.nested_deadline = true;
    }

    /// Settles what a validated item means.
    fn drain_settle(
        &mut self,
        d: Drain,
        before_ns: u64,
        after_ns: u64,
        item: DiscoveryItem,
    ) -> (end: TurnEnd)
        ensures
            final(self).trace@ == old(self).trace@,
            comes_to(drain_settle(old(self)@, d, before_ns, after_ns, item), (final(self)@, end@)),
    {
        proof {
            reveal(drain_settle);
        }
        let record = match item {
            DiscoveryItem::Malformed => {
                self.retain(item);
                return TurnEnd::Done;
            },
            DiscoveryItem::Record(record) => record,
        };
        match d.deadline {
            None => {
                if d.pause_owned {
                    return TurnEnd::Deferred(DeferredDiscoveryItem { before_ns, after_ns, item });
                }
                self.retain(item);
                TurnEnd::More
            },
            Some(deadline) => {
                self.retain(item);
                let received = TimedItem::<()> { before_ns, after_ns, item, terminal_batch: None };
                match validate_received(&received, record.hook_ts_ns, deadline) {
                    Err(message) => TurnEnd::Failed(message),
                    Ok(()) => {
                        if record.is_coalesced_of(d.child_pid) {
                            TurnEnd::More
                        } else {
                            TurnEnd::Failed(
                                "duplicate or unaccounted nested pause record".to_owned(),
                            )
                        }
                    },
                }
            },
        }
    }

    /// Reads the clock after an item was taken from the queue.
    fn drain_close<I: DrainIo>(
        &mut self,
        io: &mut I,
        d: Drain,
        before_ns: u64,
        item: DiscoveryItem,
    ) -> (end: TurnEnd)
        ensures
            extends(final(self).trace@, old(self).trace@),
            tied(old(self).trace@, final(self).trace@, old(io).log(), final(io).log()),
            forall|t: Seq<DrainEvent>|
                extends(t, final(self).trace@) ==> comes_to(
                    #[trigger] drain_close(old(self)@, d, before_ns, item, t),
                    (final(self)@, end@),
                ),
    {
        proof {
            reveal(drain_close);
        }
        let after_ns: u64 = match self.ask_now(io) {
            Err(message) => {
                self.retain(item);
                return TurnEnd::Failed(message);
            },
            Ok(now) => now,
        };
        if is_past(after_ns, d.deadline) {
            self.note_crossed();
            self.retain(item);
            return TurnEnd::Failed(MSG_NESTED_DEADLINE_AFTER.to_owned());
        }
        self.drain_settle(d, before_ns, after_ns, item)
    }

    /// Takes in an item from the queue.
    fn drain_item<I: DrainIo>(
        &mut self,
        io: &mut I,
        d: Drain,
        before_ns: u64,
        item: DiscoveryItem,
    ) -> (end: TurnEnd)
        ensures
            extends(final(self).trace@, old(self).trace@),
            tied(old(self).trace@, final(self).trace@, old(io).log(), final(io).log()),
            forall|t: Seq<DrainEvent>|
                extends(t, final(self).trace@) ==> comes_to(
                    #[trigger] drain_item(old(self)@, d, before_ns, item, t),
                    (final(self)@, end@),
                ),
    {
        proof {
            reveal(drain_item);
        }
        if let DiscoveryItem::Record(record) = item {
            if d.pause_owned && exact_pid(&record) == d.child_pid && record.send_signal_rc == 0 {
                self.note_candidate();
            }
        }
        match self.ask_generation(io) {
            Err(message) => {
                self.count_unvalidated(item);
                TurnEnd::Failed(message)
            },
            Ok(false) => {
                self.count_unvalidated(item);
                TurnEnd::Failed(
                    "owned child generation changed after nested discovery decode".to_owned(),
                )
            },
            Ok(true) => self.drain_close(io, d, before_ns, item),
        }
    }

    /// Reads the clock after the queue was found empty.
    fn drain_empty<I: DrainIo>(
        &mut self,
        io: &mut I,
        d: Drain,
    ) -> (end: TurnEnd)
        ensures
            extends(final(self).trace@, old(self).trace@),
            tied(old(self).trace@, final(self).trace@, old(io).log(), final(io).log()),
            forall|t: Seq<DrainEvent>|
                extends(t, final(self).trace@) ==> comes_to(
                    #[trigger] drain_empty(old(self)@, d, t),
                    (final(self)@, end@),
                ),
    {
        proof {
            reveal(drain_empty);
        }
        let after_ns: u64 = match self.ask_now(io) {
            Err(message) => return TurnEnd::Failed(message),
            Ok(now) => now,
        };
        if is_past(after_ns, d.deadline) {
            self.note_crossed();
            return TurnEnd::Failed(MSG_NESTED_DEADLINE_AFTER.to_owned());
        }
        TurnEnd::Done
    }

    /// Takes one turn at the queue.
    fn drain_turn<I: DrainIo>(
        &mut self,
        io: &mut I,
        d: Drain,
    ) -> (end: TurnEnd)
        ensures
            extends(final(self).trace@, old(self).trace@),
            tied(old(self).trace@, final(self).trace@, old(io).log(), final(io).log()),
            forall|t: Seq<DrainEvent>|
                extends(t, final(self).trace@) ==> comes_to(
                    #[trigger] drain_turn(old(self)@, d, t),
                    (final(self)@, end@),
                ),
    {
        proof {
            reveal(drain_turn);
        }
        let before_ns: u64 = match self.ask_now(io) {
            Err(message) => return TurnEnd::Failed(message),
            Ok(now) => now,
        };
        if is_past(before_ns, d.deadline) {
            self.note_crossed();
            return TurnEnd::Failed(MSG_NESTED_DEADLINE_BEFORE.to_owned());
        }
        match self.ask_dequeue(io) {
            Err(message) => TurnEnd::Failed(message),
            Ok(None) => self.drain_empty(io, d),
            Ok(Some(item)) => self.drain_item(io, d, before_ns, item),
        }
    }

    /// Drains the queue.
    fn drain<I: DrainIo>(&mut self, io: &mut I, d: Drain) -> (end: TurnEnd)
        ensures
            extends(final(self).trace@, old(self).trace@),
            tied(old(self).trace@, final(self).trace@, old(io).log(), final(io).log()),
            forall|t: Seq<DrainEvent>|
                extends(t, final(self).trace@) ==> comes_to(
                    #[trigger] drained(old(self)@, d, TURNS as nat, t),
                    (final(self)@, end@),
                ),
    {
        let mut turns: u64 = TURNS;
        while turns > 0
            invariant
                extends(self.trace@, old(self).trace@),
                tied(old(self).trace@, self.trace@, old(io).log(), io.log()),
                forall|t: Seq<DrainEvent>|
                    extends(t, self.trace@) ==> comes_to(
                        #[trigger] drained(old(self)@, d, TURNS as nat, t),
                        drained(self@, d, turns as nat, t),
                    ),
            decreases turns,
        {
            reveal(drained);
            match self.drain_turn(io, d) {
                TurnEnd::More => {},
                TurnEnd::Done => return TurnEnd::Done,
                TurnEnd::Failed(message) => return TurnEnd::Failed(message),
                TurnEnd::Deferred(item) => return TurnEnd::Deferred(item),
            }
            turns -= 1;
        }
        proof {
            reveal(drained);
        }
        TurnEnd::Failed(MSG_NESTED_DEADLINE_BEFORE.to_owned())
    }
}

/// What a drain of the queue came to.
pub struct Collected {
    /// The records and the number of malformed items, or why the drain ended early.
    pub result: Result<(Vec<DiscoveryRecord>, u64), RetirementError>,
    /// Whether a record of the child came in that may have stopped it.
    pub stop_candidate_seen: bool,
    /// Whether the deadline was crossed.
    pub nested_deadline: bool,
    /// Every call made, with its reply.
    pub trace: Ghost<Seq<DrainEvent>>,
}

impl Collected {
    /// Whether this is what findings and the end of a drain come to.
    pub open spec fn is_end(self, f: Found, turn: DrainTurn) -> bool {
        &&& self.stop_candidate_seen == f.stop_candidate_seen
        &&& self.nested_deadline == f.nested_deadline
        &&& self.trace@ == f.trace
        &&& match turn {
            DrainTurn::More => false,
            DrainTurn::Done => self.result matches Ok((records, malformed)) && records@
                == f.records && malformed == f.malformed,
            DrainTurn::Failed(message) => self.result matches Err(
                RetirementError::Incomplete(incomplete),
            ) && incomplete.records@ == f.records && incomplete.malformed == f.malformed
                && incomplete.unvalidated_records == f.unvalidated_records
                && incomplete.cause@ == message,
            DrainTurn::Deferred(item) => self.result == Err::<
                (Vec<DiscoveryRecord>, u64),
                RetirementError,
            >(RetirementError::Deferred(item)),
        }
    }
}

/// Whether a drain accounts for the items that left the queue.
pub open spec fn collects(collected: Collected, items: Seq<DiscoveryItem>) -> bool {
    match collected.result {
        Ok((records, malformed)) => {
            &&& items.len() == records@.len() + malformed
            &&& items.take(records@.len() as int) == as_items(records@)
            &&& malformed <= 1
            &&& malformed == 1 ==> items.last() is Malformed
        },
        Err(RetirementError::Incomplete(incomplete)) => {
            &&& items.len() == incomplete.records@.len() + incomplete.malformed
                + incomplete.unvalidated_records
            &&& items.take(incomplete.records@.len() as int) == as_items(incomplete.records@)
            &&& incomplete.malformed + incomplete.unvalidated_records <= 1
            &&& incomplete.malformed == 1 ==> items.last() is Malformed
            &&& incomplete.unvalidated_records == 1 ==> items.last() is Record
        },
        Err(RetirementError::Deferred(deferred)) => items == seq![deferred.item],
    }
}

/// Drains the queue while links are retired. Everything that left the queue is in the result: as a
/// record, as a malformed item, as a record that could not be validated, or as the item that
/// belongs to the pause owner.
pub fn collect_timed_retirement_with<I: DrainIo>(
    child_pid: u32,
    deadline: Option<u64>,
    pause_owned: bool,
    io: &mut I,
) -> (collected: Collected)
    ensures
        ({
            let d = Drain { child_pid, deadline, pause_owned };
            let (f, turn) = drained(Found::nothing(), d, TURNS as nat, collected.trace@);
            collected.is_end(f, turn)
        }),
        final(io).log() == old(io).log() + collected.trace@,
        collects(collected, dequeued(collected.trace@)),
        collected.result matches Ok((_, malformed)) && malformed == 0 ==> saw_empty(
            collected.trace@,
        ),
{
    let d = Drain { child_pid, deadline, pause_owned };
    let mut found = Retirement {
        records: Vec::new(),
        malformed: 0,
        unvalidated_records: 0,
        stop_candidate_seen: false,
        nested_deadline: false,
        trace: Ghost(Seq::empty()),
    };
    assert(comes_to(Found::nothing(), found@));
    let end = found.drain(io, d);
    assert(comes_to(
        drained(Found::nothing(), d, TURNS as nat, found.trace@),
        (found@, end@),
    ));
    let ghost f = found@;
    proof {
        lemma_drain_ends(Found::nothing(), d, TURNS as nat, found.trace@);
        lemma_done_is_empty(d, TURNS as nat, found.trace@);
        assert(as_items(Seq::empty()) =~= Seq::empty());
        lemma_nothing_is_lost(Found::nothing(), d, TURNS as nat, found.trace@);
        assert(io.log() == old(io).log() + found.trace@) by {
            reveal(tied);
            assert(found.trace@.skip(0) =~= found.trace@);
        }
    }
    let trace = found.trace;
    let result = match end {
        TurnEnd::Failed(cause) => Err(
            RetirementError::Incomplete(
                IncompleteTerminalDrain {
                    records: found.records,
                    malformed: found.malformed,
                    unvalidated_records: found.unvalidated_records,
                    cause,
                },
            ),
        ),
        TurnEnd::Deferred(item) => Err(RetirementError::Deferred(item)),
        TurnEnd::Done => Ok((found.records, found.malformed)),
        TurnEnd::More => Ok((found.records, found.malformed)),
    };
    Collected {
        result,
        stop_candidate_seen: found.stop_candidate_seen,
        nested_deadline: found.nested_deadline,
        trace,
    }
}

/// A drain always comes to an end.
pub proof fn lemma_drain_ends(f: Found, d: Drain, turns: nat, t: Seq<DrainEvent>)
    ensures
        !(drained(f, d, turns, t).1 is More),
    decreases turns,
{
    reveal(drained);
    if turns > 0 {
        let (g, turn) = drain_turn(f, d, t);
        if turn is More {
            lemma_drain_ends(g, d, (turns - 1) as nat, t);
        }
    }
}

/// The items that a history took from the queue, in order.
pub open spec fn dequeued(trace: Seq<DrainEvent>) -> Seq<DiscoveryItem>
    decreases trace.len(),
{
    if trace.len() == 0 {
        Seq::empty()
    } else {
        let before = dequeued(trace.drop_last());
        match trace.last() {
            DrainEvent::Dequeue(Ok(Some(item))) => before.push(item),
            _ => before,
        }
    }
}

/// Records as items of the queue.
pub open spec fn as_items(records: Seq<DiscoveryRecord>) -> Seq<DiscoveryItem> {
    records.map_values(|record: DiscoveryRecord| DiscoveryItem::Record(record))
}

/// Whether every item so far is among the records, in order.
pub open spec fn all_kept(f: Found) -> bool {
    &&& dequeued(f.trace) == as_items(f.records)
    &&& f.malformed == 0
    &&& f.unvalidated_records == 0
}

/// Whether findings account for items of which only the last may not be among the records: it is
/// malformed, or it could not be validated.
pub open spec fn all_counted(f: Found, items: Seq<DiscoveryItem>) -> bool {
    &&& f.records.len() <= items.len() <= f.records.len() + 1
    &&& items.take(f.records.len() as int) == as_items(f.records)
    &&& items.len() == f.records.len() + f.malformed + f.unvalidated_records
    &&& f.malformed == 1 ==> items.last() is Malformed
    &&& f.unvalidated_records == 1 ==> items.last() is Record
}

/// Whether nothing that was taken from the queue is lost or counted twice: it is among the records,
/// which keep their order, or it is counted, or it is the one item that is handed to the pause
/// owner.
pub open spec fn accounts_for(f: Found, turn: DrainTurn, items: Seq<DiscoveryItem>) -> bool {
    match turn {
        DrainTurn::More => all_kept(f),
        DrainTurn::Done => all_counted(f, items) && f.unvalidated_records == 0,
        DrainTurn::Failed(_) => all_counted(f, items),
        DrainTurn::Deferred(deferred) => items == seq![deferred.item] && f.records.len() == 0
            && f.malformed == 0 && f.unvalidated_records == 0,
    }
}

/// One more event counts where it took an item.
proof fn lemma_dequeued_one(trace: Seq<DrainEvent>, event: DrainEvent)
    ensures
        dequeued(trace.push(event)) == match event {
            DrainEvent::Dequeue(Ok(Some(item))) => dequeued(trace).push(item),
            _ => dequeued(trace),
        },
{
    assert(trace.push(event).drop_last() =~= trace);
}

/// What an item comes to, once it is among the findings.
proof fn lemma_item_counts(f: Found, item: DiscoveryItem)
    requires
        f.malformed == 0,
        f.unvalidated_records == 0,
    ensures
        all_counted(f, as_items(f.records)),
        all_counted(f.retained(item), as_items(f.records).push(item)),
        all_counted(f.unvalidated(item), as_items(f.records).push(item)),
        item is Record ==> as_items(f.retained(item).records) == as_items(f.records).push(item),
{
    let items = as_items(f.records);
    assert(items.take(f.records.len() as int) =~= items);
    assert(items.push(item).take(f.records.len() as int) =~= items);
    if let DiscoveryItem::Record(record) = item {
        assert(as_items(f.records.push(record)) =~= items.push(item));
        assert(items.push(item).take((f.records.len() + 1) as int) =~= items.push(item));
    }
}

/// One turn accounts for what it took.
proof fn lemma_turn_accounts(f: Found, d: Drain, t: Seq<DrainEvent>)
    requires
        all_kept(f),
        d.pause_owned && d.deadline is None ==> f.records.len() == 0,
    ensures
        ({
            let (g, turn) = drain_turn(f, d, t);
            &&& accounts_for(g, turn, dequeued(g.trace))
            &&& turn is More ==> !(d.pause_owned && d.deadline is None)
        }),
{
    reveal(drain_turn);
    reveal(drain_empty);
    reveal(drain_item);
    reveal(drain_close);
    reveal(drain_settle);
    let (f1, before) = hear_now(f, t);
    lemma_dequeued_one(f.trace, DrainEvent::Now(before));
    let (f2, item) = hear_dequeue(f1, t);
    lemma_dequeued_one(f1.trace, DrainEvent::Dequeue(item));
    let (f3, after) = hear_now(f2, t);
    lemma_dequeued_one(f2.trace, DrainEvent::Now(after));
    let (f4, same) = hear_generation(f2, t);
    lemma_dequeued_one(f2.trace, DrainEvent::SameGeneration(same));
    let (f5, now) = hear_now(f4, t);
    lemma_dequeued_one(f4.trace, DrainEvent::Now(now));
    lemma_item_counts(f, DiscoveryItem::Malformed);
    if let Ok(Some(item)) = item {
        lemma_item_counts(f, item);
        assert(d.pause_owned && d.deadline is None ==> as_items(f.records).push(item) =~= seq![item]);
    }
}

/// Nothing that leaves the queue is lost: every item that a drain took is among its records, in
/// order, or is the last one and counted as malformed or as not validated, or is the only one and
/// handed to the pause owner.
pub proof fn lemma_nothing_is_lost(f: Found, d: Drain, turns: nat, t: Seq<DrainEvent>)
    requires
        all_kept(f),
        d.pause_owned && d.deadline is None ==> f.records.len() == 0,
    ensures
        ({
            let (g, turn) = drained(f, d, turns, t);
            accounts_for(g, turn, dequeued(g.trace))
        }),
    decreases turns,
{
    reveal(drained);
    if turns > 0 {
        let (g, turn) = drain_turn(f, d, t);
        lemma_turn_accounts(f, d, t);
        if turn is More {
            lemma_nothing_is_lost(g, d, (turns - 1) as nat, t);
        }
    } else {
        lemma_item_counts(f, DiscoveryItem::Malformed);
    }
}

} // verus!
