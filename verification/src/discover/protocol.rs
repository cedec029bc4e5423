//! One supervised pass of a hardened helper. The helper stops at two barriers before it may load the
//! provider: it reports that it is prepared and is told to drop what it holds, and reports that it
//! is ready and is told to go. At each barrier everything that it was given is looked at again. A
//! held file that is about to change ends the pass at every point.

use crate::discover::closure::{hardened_maps_fault, validate_hardened_executable_maps};
use crate::discover::helper::append_bounded;
use crate::discover::inheritance::FdIdentity;
use crate::maps::{same_bytes, ObjectKey};
use crate::text::{concat3, decimal, digits, heard, join, joined, push_text, texts, Text};
use vstd::prelude::*;
use vstd::string::*;

verus! {

/// How far the helper has come.
#[derive(Clone, Copy, Debug, PartialEq, Eq, Structural)]
pub enum HardenedProtocolState {
    /// It is to report that it is prepared.
    Prepared,
    /// It is to report that it is ready.
    Ready,
    /// It was told to go.
    Running,
}

/// One of the two barriers.
#[derive(Clone, Copy, Debug, PartialEq, Eq, Structural)]
pub enum Barrier {
    Prepared,
    Ready,
}

/// When it is checked whether a held file is about to change.
#[derive(Clone, Copy, Debug, PartialEq, Eq, Structural)]
pub enum BreakAt {
    Start,
    Turn,
    Packet,
    Barrier(Barrier),
    Parsed,
    Final,
}

/// When it is checked whether the time is over.
#[derive(Clone, Copy, Debug, PartialEq, Eq, Structural)]
pub enum DeadlineAt {
    Spawned,
    BeforeBreak(Barrier),
    AfterBreak(Barrier),
    Ended,
    Final,
}

/// What is next in a pass.
#[derive(Clone, Copy, Debug, PartialEq, Eq, Structural)]
pub enum PassStep {
    /// See whether a held file is about to change.
    CheckBreak(BreakAt),
    /// Start the helper.
    Spawn,
    /// See whether the time is over.
    CheckDeadline(DeadlineAt),
    /// Learn what the helper was given.
    Authorize,
    /// Read the helper's output as far as there is any.
    Drain,
    /// Wait until something happens.
    Poll,
    /// Take the packet that the helper sent.
    Receive,
    /// Look at what the helper has.
    Inspect(Barrier),
    /// Look at everything that the helper was given: at a barrier, or at the end.
    Revalidate(Option<Barrier>),
    /// Let the helper pass the barrier.
    Send(Barrier),
    /// Wait for the end of the helper, since a held file is about to change, or since it is over.
    Reap(bool),
    /// Read the report.
    Parse,
    /// The pass is over, and its report can be used.
    Complete,
    /// A held file was about to change, and the helper is gone.
    Broken,
}

/// A pass: how far the helper has come, what is next, what it wrote, which of its ends were seen, the
/// packet that it sent last, and what its own memory was seen to be.
#[derive(Debug)]
pub struct HardenedPass {
    pub state: HardenedProtocolState,
    pub step: PassStep,
    pub output: Vec<u8>,
    pub limit: u64,
    pub stdout_eof: bool,
    pub control_eof: bool,
    pub child_exited: bool,
    pub packet: Vec<u8>,
    pub self_memory: Option<FdIdentity>,
}

/// A pass, by the values that it holds.
pub struct Pass {
    pub state: HardenedProtocolState,
    pub step: PassStep,
    pub output: Seq<u8>,
    pub limit: u64,
    pub stdout_eof: bool,
    pub control_eof: bool,
    pub child_exited: bool,
    pub packet: Seq<u8>,
    pub self_memory: Option<FdIdentity>,
}

impl View for HardenedPass {
    type V = Pass;

    open spec fn view(&self) -> Pass {
        Pass {
            state: self.state,
            step: self.step,
            output: self.output@,
            limit: self.limit,
            stdout_eof: self.stdout_eof,
            control_eof: self.control_eof,
            child_exited: self.child_exited,
            packet: self.packet@,
            self_memory: self.self_memory,
        }
    }
}

/// The state in which the helper stands before a barrier.
pub open spec fn state_at(barrier: Barrier) -> HardenedProtocolState {
    match barrier {
        Barrier::Prepared => HardenedProtocolState::Prepared,
        Barrier::Ready => HardenedProtocolState::Ready,
    }
}

/// Whether the helper is over and done with: it was told to go, it ended, and so did its output.
pub open spec fn is_over(p: Pass) -> bool {
    p.state == HardenedProtocolState::Running && p.child_exited && p.stdout_eof
}

/// The barrier that a step belongs to.
pub open spec fn barrier_of(step: PassStep) -> Option<Barrier> {
    match step {
        PassStep::CheckBreak(BreakAt::Barrier(b)) => Some(b),
        PassStep::CheckDeadline(DeadlineAt::BeforeBreak(b)) => Some(b),
        PassStep::CheckDeadline(DeadlineAt::AfterBreak(b)) => Some(b),
        PassStep::Inspect(b) => Some(b),
        PassStep::Revalidate(Some(b)) => Some(b),
        PassStep::Send(b) => Some(b),
        _ => None,
    }
}

/// Whether a step belongs to the end of a pass.
pub open spec fn is_ending(step: PassStep) -> bool {
    match step {
        PassStep::Reap(for_break) => !for_break,
        PassStep::CheckDeadline(DeadlineAt::Ended) => true,
        PassStep::Parse => true,
        PassStep::CheckBreak(BreakAt::Parsed) => true,
        PassStep::Revalidate(None) => true,
        PassStep::CheckBreak(BreakAt::Final) => true,
        PassStep::CheckDeadline(DeadlineAt::Final) => true,
        PassStep::Complete => true,
        _ => false,
    }
}

/// Whether a pass is one that can have come about: at a barrier the helper stands before it, the end
/// is reached only once the helper is over and done with, and what it wrote keeps to the limit.
pub open spec fn sound(p: Pass) -> bool {
    &&& p.output.len() <= p.limit
    &&& barrier_of(p.step) matches Some(b) ==> p.state == state_at(b)
    &&& is_ending(p.step) ==> is_over(p)
}

/// What is next when it is known whether a held file is about to change. Where one is, the helper is
/// waited for first, unless it was not started or is gone.
pub open spec fn after_break(p: Pass, outcome: Result<bool, Text>) -> Result<Pass, Text> {
    match outcome {
        Err(message) => Err(message),
        Ok(true) => match p.step {
            PassStep::CheckBreak(BreakAt::Start) => Ok(Pass { step: PassStep::Broken, ..p }),
            PassStep::CheckBreak(BreakAt::Parsed) => Ok(Pass { step: PassStep::Broken, ..p }),
            PassStep::CheckBreak(BreakAt::Final) => Ok(Pass { step: PassStep::Broken, ..p }),
            _ => Ok(Pass { step: PassStep::Reap(true), ..p }),
        },
        Ok(false) => match p.step {
            PassStep::CheckBreak(BreakAt::Start) => Ok(Pass { step: PassStep::Spawn, ..p }),
            PassStep::CheckBreak(BreakAt::Turn) => Ok(Pass { step: PassStep::Drain, ..p }),
            PassStep::CheckBreak(BreakAt::Packet) => packet_taken(p),
            PassStep::CheckBreak(BreakAt::Barrier(b)) => Ok(
                Pass { step: PassStep::CheckDeadline(DeadlineAt::AfterBreak(b)), ..p },
            ),
            PassStep::CheckBreak(BreakAt::Parsed) => Ok(
                Pass { step: PassStep::Revalidate(None), ..p },
            ),
            PassStep::CheckBreak(BreakAt::Final) => Ok(
                Pass { step: PassStep::CheckDeadline(DeadlineAt::Final), ..p },
            ),
            _ => Ok(p),
        },
    }
}

/// The packet by which the helper reports that it is prepared.
pub open spec fn prepared_packet() -> Seq<u8> {
    seq![80u8, 82, 69, 80, 65, 82, 69, 68]
}

/// The packet by which the helper reports that it is ready.
pub open spec fn ready_packet() -> Seq<u8> {
    seq![82u8, 69, 65, 68, 89]
}

/// The packet that tells the helper to drop what it holds.
pub open spec fn drop_packet() -> Seq<u8> {
    seq![68u8, 82, 79, 80]
}

/// The packet that tells the helper to go.
pub open spec fn go_packet() -> Seq<u8> {
    seq![71u8, 79]
}

/// How bytes are written in a message.
pub open spec fn bytes_text(bytes: Seq<u8>) -> Text {
    "["@ + joined(bytes.map_values(|b: u8| digits(b as nat)), ", "@) + "]"@
}

/// What is next when the helper sent a packet: only the one that it is to send now is taken.
pub open spec fn packet_taken(p: Pass) -> Result<Pass, Text> {
    if p.state == HardenedProtocolState::Prepared && p.packet == prepared_packet() {
        Ok(Pass { step: PassStep::Inspect(Barrier::Prepared), ..p })
    } else if p.state == HardenedProtocolState::Ready && p.packet == ready_packet() {
        Ok(Pass { step: PassStep::Inspect(Barrier::Ready), ..p })
    } else {
        Err("unexpected hardened discovery control packet "@ + bytes_text(p.packet))
    }
}

/// What is next when it is known whether the time is over.
pub open spec fn after_deadline(p: Pass, past: bool) -> Result<Pass, Text> {
    if past {
        Err("hardened discovery oracle reached its absolute deadline"@)
    } else {
        match p.step {
            PassStep::CheckDeadline(DeadlineAt::Spawned) => Ok(
                Pass { step: PassStep::Authorize, ..p },
            ),
            PassStep::CheckDeadline(DeadlineAt::BeforeBreak(b)) => Ok(
                Pass { step: PassStep::CheckBreak(BreakAt::Barrier(b)), ..p },
            ),
            PassStep::CheckDeadline(DeadlineAt::AfterBreak(b)) => Ok(
                Pass { step: PassStep::Send(b), ..p },
            ),
            PassStep::CheckDeadline(DeadlineAt::Ended) => Ok(Pass { step: PassStep::Parse, ..p }),
            PassStep::CheckDeadline(DeadlineAt::Final) => Ok(
                Pass { step: PassStep::Complete, ..p },
            ),
            _ => Ok(p),
        }
    }
}

/// What is next when it is known what the helper was given.
pub open spec fn after_authorize(p: Pass, control_fd: i32) -> Result<Pass, Text> {
    if control_fd <= 2 {
        Err("hardened child control fd overlaps stdio"@)
    } else {
        Ok(Pass { step: PassStep::CheckBreak(BreakAt::Turn), ..p })
    }
}

/// What is next when the output was read as far as there was any.
pub open spec fn after_drain(p: Pass, ended: bool) -> Pass {
    let now = Pass { stdout_eof: p.stdout_eof || ended, ..p };
    if is_over(now) {
        Pass { step: PassStep::Reap(false), ..now }
    } else {
        Pass { step: PassStep::Poll, ..now }
    }
}

/// What happened while a pass waited: anything at all before the time was over, the end of the
/// helper, something about a held file, and something from the helper.
#[derive(Clone, Copy, Debug, PartialEq, Eq, Structural)]
pub struct Happened {
    pub any: bool,
    pub child: bool,
    pub lease: bool,
    pub control: bool,
}

/// What is next when something happened.
pub open spec fn after_poll(p: Pass, happened: Happened) -> Result<Pass, Text> {
    if !happened.any {
        Err("hardened discovery oracle reached its absolute deadline"@)
    } else if happened.child && p.state != HardenedProtocolState::Running {
        Err("hardened discovery child exited before GO"@)
    } else {
        let now = Pass { child_exited: p.child_exited || happened.child, ..p };
        if happened.control && !happened.lease {
            Ok(Pass { step: PassStep::Receive, ..now })
        } else {
            Ok(Pass { step: PassStep::CheckBreak(BreakAt::Turn), ..now })
        }
    }
}

/// What the helper sent.
#[derive(Debug)]
pub enum ControlPacket {
    /// Nothing after all.
    Nothing,
    /// The end.
    Eof,
    /// A packet.
    Packet(Vec<u8>),
}

/// What is next when the helper sent something.
pub open spec fn after_receive(p: Pass, packet: ControlPacket) -> Result<Pass, Text> {
    match packet {
        ControlPacket::Nothing => Ok(Pass { step: PassStep::CheckBreak(BreakAt::Turn), ..p }),
        ControlPacket::Eof => if p.state != HardenedProtocolState::Running {
            Err("hardened discovery control closed before GO"@)
        } else {
            Ok(Pass { control_eof: true, step: PassStep::CheckBreak(BreakAt::Turn), ..p })
        },
        ControlPacket::Packet(bytes) => Ok(
            Pass { packet: bytes@, step: PassStep::CheckBreak(BreakAt::Packet), ..p },
        ),
    }
}

/// A descriptor with what it refers to.
pub type FdPair = (i32, FdIdentity);

/// What the helper must have: the loader that it runs, its descriptors in order, the files that it
/// may have mapped as code, and the provider, which it may not.
#[derive(Debug)]
pub struct Authority {
    pub loader: ObjectKey,
    pub fds: Vec<(i32, FdIdentity)>,
    pub executable: Vec<ObjectKey>,
    pub provider: ObjectKey,
}

/// What each descriptor refers to where they were given one after the other: the last one given
/// counts.
pub open spec fn described(given: Seq<FdPair>) -> Map<i32, FdIdentity>
    decreases given.len(),
{
    if given.len() == 0 {
        Map::empty()
    } else {
        described(given.drop_last()).insert(given.last().0, given.last().1)
    }
}

/// Whether descriptors grow.
pub open spec fn in_order(list: Seq<FdPair>) -> bool {
    forall|i: int, j: int|
        0 <= i < j < list.len() ==> (#[trigger] list[i]).0 < (#[trigger] list[j]).0
}

/// Whether a list holds exactly what a map holds.
pub open spec fn holds(list: Seq<FdPair>, map: Map<i32, FdIdentity>) -> bool {
    forall|fd: i32, identity: FdIdentity|
        #[trigger] list.contains((fd, identity)) <==> map.dom().contains(fd) && map[fd] == identity
}

/// Puts the descriptors that the helper is given in order, each once.
pub fn expected_descriptors(given: &Vec<(i32, FdIdentity)>) -> (r: Vec<(i32, FdIdentity)>)
    ensures
        in_order(r@),
        holds(r@, described(given@)),
{
    let mut r: Vec<(i32, FdIdentity)> = Vec::new();
    let mut n: usize = 0;
    assert(given@.take(0).len() == 0);
    while n < given.len()
        invariant
            n <= given@.len(),
            in_order(r@),
            holds(r@, described(given@.take(n as int))),
        decreases given@.len() - n,
    {
        let fd: i32 = given[n].0;
        let identity: FdIdentity = given[n].1;
        let mut at: usize = 0;
        while at < r.len() && r[at].0 < fd
            invariant
                at <= r@.len(),
                forall|i: int| 0 <= i < at ==> (#[trigger] r@[i]).0 < fd,
            decreases r@.len() - at,
        {
            at += 1;
        }
        let ghost before = r@;
        let ghost past = described(given@.take(n as int));
        assert(given@.take(n + 1).drop_last() =~= given@.take(n as int));
        let ghost now = described(given@.take(n + 1));
        assert(now == past.insert(fd, identity));
        if at < r.len() && r[at].0 == fd {
            r.set(at, (fd, identity));
            assert forall|x: i32, what: FdIdentity| #[trigger]
                r@.contains((x, what)) <==> now.dom().contains(x) && now[x] == what by {
                assert(r@[at as int] == (fd, identity));
                if r@.contains((x, what)) {
                    let k = choose|k: int| 0 <= k < r@.len() && r@[k] == (x, what);
                    if k != at {
                        assert(before[k] == (x, what));
                        assert(before.contains((x, what)));
                        assert(before[at as int].0 == fd);
                        assert(x != fd);
                    }
                }
                if past.dom().contains(x) && past[x] == what && x != fd {
                    assert(before.contains((x, what)));
                    let k = choose|k: int| 0 <= k < before.len() && before[k] == (x, what);
                    assert(r@[k] == (x, what));
                }
            }
        } else {
            r.insert(at, (fd, identity));
            assert forall|i: int, j: int| 0 <= i < j < r@.len() implies (#[trigger] r@[i]).0 < (
            #[trigger] r@[j]).0 by {
                let si = if i < at {
                    i
                } else {
                    i - 1
                };
                let sj = if j < at {
                    j
                } else {
                    j - 1
                };
                if i != at {
                    assert(r@[i] == before[si]);
                }
                if j != at {
                    assert(r@[j] == before[sj]);
                }
                if i == at && sj > at {
                    assert(before[at as int].0 < before[sj].0);
                }
            }
            assert forall|x: i32, what: FdIdentity| #[trigger]
                r@.contains((x, what)) <==> now.dom().contains(x) && now[x] == what by {
                assert(r@[at as int] == (fd, identity));
                if r@.contains((x, what)) {
                    let k = choose|k: int| 0 <= k < r@.len() && r@[k] == (x, what);
                    if k != at {
                        let s = if k < at {
                            k
                        } else {
                            k - 1
                        };
                        assert(before[s] == (x, what));
                        assert(before.contains((x, what)));
                        if k < at {
                            assert(r@[k].0 < r@[at as int].0);
                        } else {
                            assert(r@[at as int].0 < r@[k].0);
                        }
                    }
                }
                if past.dom().contains(x) && past[x] == what && x != fd {
                    assert(before.contains((x, what)));
                    let k = choose|k: int| 0 <= k < before.len() && before[k] == (x, what);
                    if k < at {
                        assert(r@[k] == (x, what));
                    } else {
                        assert(r@[k + 1] == (x, what));
                    }
                }
            }
        }
        n += 1;
    }
    assert(given@.take(n as int) =~= given@);
    r
}

/// What was seen of the helper at a barrier: the file that it runs, its descriptors in order, what
/// its own memory refers to, and its mappings.
#[derive(Debug)]
pub struct Sighting {
    pub exe: ObjectKey,
    pub fds: Vec<(i32, FdIdentity)>,
    pub memory: FdIdentity,
    pub maps: Vec<u8>,
}

/// Whether a descriptor is listed.
pub open spec fn has_fd(list: Seq<FdPair>, fd: i32) -> bool {
    exists|i: int| 0 <= i < list.len() && (#[trigger] list[i]).0 == fd
}

/// Whether descriptors are those expected and exactly one more, which refers to the helper's own
/// memory.
pub open spec fn only_memory_added(
    seen: Seq<FdPair>,
    expected: Seq<FdPair>,
    memory: FdIdentity,
) -> bool {
    &&& seen.len() == expected.len() + 1
    &&& forall|i: int| 0 <= i < expected.len() ==> seen.contains(#[trigger] expected[i])
    &&& exists|i: int|
        0 <= i < seen.len() && (#[trigger] seen[i]).1 == memory && !has_fd(expected, seen[i].0)
}

/// What is next when the helper was looked at where it is prepared: it must run the loader, and have
/// exactly the descriptors that it was given.
pub open spec fn after_prepared(p: Pass, authority: Authority, seen: Sighting) -> Result<
    Pass,
    Text,
> {
    if seen.exe != authority.loader {
        Err("hardened discovery child did not execute the pinned loader"@)
    } else if seen.fds@ != authority.fds@ {
        Err("hardened discovery child inherited an unexpected fd target"@)
    } else {
        Ok(
            Pass {
                self_memory: Some(seen.memory),
                step: PassStep::Revalidate(Some(Barrier::Prepared)),
                ..p
            },
        )
    }
}

/// What is next when the helper was looked at where it is ready: it must map as code exactly what was
/// authorized and not the provider, still run the loader, and have only its own memory beside the
/// descriptors that it was given.
pub open spec fn after_ready(p: Pass, authority: Authority, seen: Sighting) -> Result<Pass, Text> {
    match hardened_maps_fault(seen.maps@, authority.executable@.to_set(), authority.provider) {
        Some(message) => Err(message),
        None => match p.self_memory {
            None => Err("hardened child self-memory identity is missing"@),
            Some(memory) => if seen.exe != authority.loader || !only_memory_added(
                seen.fds@,
                authority.fds@,
                memory,
            ) {
                Err("hardened discovery child authority changed before GO"@)
            } else {
                Ok(Pass { step: PassStep::Revalidate(Some(Barrier::Ready)), ..p })
            },
        },
    }
}

/// What is next when everything that the helper was given was looked at again.
pub open spec fn after_revalidate(p: Pass) -> Pass {
    match p.step {
        PassStep::Revalidate(Some(b)) => Pass {
            step: PassStep::CheckDeadline(DeadlineAt::BeforeBreak(b)),
            ..p
        },
        PassStep::Revalidate(None) => Pass { step: PassStep::CheckBreak(BreakAt::Final), ..p },
        _ => p,
    }
}

/// What is next when the helper was let pass a barrier.
pub open spec fn after_send(p: Pass) -> Pass {
    match p.step {
        PassStep::Send(Barrier::Prepared) => Pass {
            state: HardenedProtocolState::Ready,
            step: PassStep::CheckBreak(BreakAt::Turn),
            ..p
        },
        PassStep::Send(Barrier::Ready) => Pass {
            state: HardenedProtocolState::Running,
            step: PassStep::CheckBreak(BreakAt::Turn),
            ..p
        },
        _ => p,
    }
}

/// What is next when the helper was waited for.
pub open spec fn after_reap(p: Pass) -> Pass {
    match p.step {
        PassStep::Reap(true) => Pass { step: PassStep::Broken, ..p },
        PassStep::Reap(false) => Pass { step: PassStep::CheckDeadline(DeadlineAt::Ended), ..p },
        _ => p,
    }
}

/// The helper is told to go only at the second barrier: no other step lets it run, and none lets it
/// come further than the barrier that it stands before.
pub proof fn lemma_go_only_at_ready(p: Pass)
    requires
        sound(p),
    ensures
        after_send(p).state == HardenedProtocolState::Running ==> p.state
            == HardenedProtocolState::Running || (p.step == PassStep::Send(Barrier::Ready)
            && p.state == HardenedProtocolState::Ready),
        after_send(p).state == HardenedProtocolState::Ready ==> p.state
            == HardenedProtocolState::Ready || (p.step == PassStep::Send(Barrier::Prepared)
            && p.state == HardenedProtocolState::Prepared),
{
}

/// The helper is let pass a barrier only after it was looked at there, everything that it was given
/// was looked at again, no held file was about to change, and the time was not over: the steps of a
/// barrier follow each other, and nothing else leads into them.
pub proof fn lemma_barrier_steps(
    p: Pass,
    outcome: Result<bool, Text>,
    past: bool,
    authority: Authority,
    seen: Sighting,
    b: Barrier,
)
    ensures
        after_deadline(p, past) matches Ok(q) ==> (q.step == PassStep::Send(b) && p.step
            != PassStep::Send(b) ==> p.step == PassStep::CheckDeadline(
            DeadlineAt::AfterBreak(b),
        ) && !past),
        after_break(p, outcome) matches Ok(q) ==> (q.step == PassStep::CheckDeadline(
            DeadlineAt::AfterBreak(b),
        ) && p.step != q.step ==> p.step == PassStep::CheckBreak(BreakAt::Barrier(b)) && outcome
            == Ok::<bool, Text>(false)),
        after_prepared(p, authority, seen) matches Ok(q) ==> q.step == PassStep::Revalidate(
            Some(Barrier::Prepared),
        ) && seen.exe == authority.loader && seen.fds@ == authority.fds@,
        after_ready(p, authority, seen) matches Ok(q) ==> q.step == PassStep::Revalidate(
            Some(Barrier::Ready),
        ) && seen.exe == authority.loader && (p.self_memory matches Some(memory)
            && only_memory_added(seen.fds@, authority.fds@, memory)) && hardened_maps_fault(
            seen.maps@,
            authority.executable@.to_set(),
            authority.provider,
        ) is None,
{
}

/// Tells whether two lists of descriptors are the same.
fn same_fds(a: &Vec<(i32, FdIdentity)>, b: &Vec<(i32, FdIdentity)>) -> (r: bool)
    ensures
        r == (a@ == b@),
{
    if a.len() != b.len() {
        return false;
    }
    let mut i: usize = 0;
    while i < a.len()
        invariant
            i <= a@.len(),
            a@.len() == b@.len(),
            forall|j: int| 0 <= j < i ==> a@[j] == b@[j],
        decreases a@.len() - i,
    {
        if a[i].0 != b[i].0 || a[i].1 != b[i].1 {
            return false;
        }
        i += 1;
    }
    assert(a@ =~= b@);
    true
}

/// Tells whether a descriptor with what it refers to is listed.
fn lists_pair(list: &Vec<(i32, FdIdentity)>, fd: i32, identity: &FdIdentity) -> (r: bool)
    ensures
        r == list@.contains((fd, *identity)),
{
    let mut i: usize = 0;
    while i < list.len()
        invariant
            i <= list@.len(),
            forall|j: int| 0 <= j < i ==> list@[j] != (fd, *identity),
        decreases list@.len() - i,
    {
        if list[i].0 == fd && list[i].1 == *identity {
            assert(list@[i as int] == (fd, *identity));
            return true;
        }
        i += 1;
    }
    false
}

/// Tells whether a descriptor is listed.
fn lists_fd(list: &Vec<(i32, FdIdentity)>, fd: i32) -> (r: bool)
    ensures
        r == has_fd(list@, fd),
{
    let mut i: usize = 0;
    while i < list.len()
        invariant
            i <= list@.len(),
            forall|j: int| 0 <= j < i ==> (#[trigger] list@[j]).0 != fd,
        decreases list@.len() - i,
    {
        if list[i].0 == fd {
            assert(list@[i as int].0 == fd);
            return true;
        }
        i += 1;
    }
    false
}

/// Tells whether descriptors are those expected and exactly one more, which refers to the helper's
/// own memory.
fn has_only_memory_added(
    seen: &Vec<(i32, FdIdentity)>,
    expected: &Vec<(i32, FdIdentity)>,
    memory: &FdIdentity,
) -> (r: bool)
    ensures
        r == only_memory_added(seen@, expected@, *memory),
{
    let given: usize = expected.len();
    if seen.len() == 0 || seen.len() - 1 != given {
        return false;
    }
    let mut i: usize = 0;
    while i < expected.len()
        invariant
            i <= expected@.len(),
            forall|j: int| 0 <= j < i ==> seen@.contains(#[trigger] expected@[j]),
        decreases expected@.len() - i,
    {
        if !lists_pair(seen, expected[i].0, &expected[i].1) {
            assert(!seen@.contains(expected@[i as int]));
            return false;
        }
        i += 1;
    }
    let mut k: usize = 0;
    while k < seen.len()
        invariant
            k <= seen@.len(),
            seen@.len() == expected@.len() + 1,
            forall|j: int| 0 <= j < expected@.len() ==> seen@.contains(#[trigger] expected@[j]),
            forall|j: int|
                0 <= j < k ==> (#[trigger] seen@[j]).1 != *memory || has_fd(
                    expected@,
                    seen@[j].0,
                ),
        decreases seen@.len() - k,
    {
        if seen[k].1 == *memory && !lists_fd(expected, seen[k].0) {
            assert(seen@[k as int].1 == *memory);
            return true;
        }
        k += 1;
    }
    false
}

/// Writes bytes for a message.
fn render_bytes(bytes: &Vec<u8>) -> (r: String)
    ensures
        r@ == bytes_text(bytes@),
{
    let mut parts: Vec<String> = Vec::new();
    let ghost all = bytes@.map_values(|b: u8| digits(b as nat));
    let mut i: usize = 0;
    assert(texts(parts@) =~= all.take(0));
    while i < bytes.len()
        invariant
            i <= bytes@.len(),
            all == bytes@.map_values(|b: u8| digits(b as nat)),
            texts(parts@) == all.take(i as int),
        decreases bytes@.len() - i,
    {
        push_text(&mut parts, decimal(bytes[i] as u64));
        i += 1;
        assert(texts(parts@) =~= all.take(i as int));
    }
    assert(all.take(i as int) =~= all);
    concat3("[", join(&parts, ", ").as_str(), "]")
}

/// Tells whether a packet is the one by which the helper reports that it is prepared.
fn is_prepared(packet: &Vec<u8>) -> (r: bool)
    ensures
        r == (packet@ == prepared_packet()),
{
    let expected: [u8; 8] = [80u8, 82, 69, 80, 65, 82, 69, 68];
    assert(expected@ =~= prepared_packet());
    same_bytes(packet.as_slice(), &expected)
}

/// Tells whether a packet is the one by which the helper reports that it is ready.
fn is_ready(packet: &Vec<u8>) -> (r: bool)
    ensures
        r == (packet@ == ready_packet()),
{
    let expected: [u8; 5] = [82u8, 69, 65, 68, 89];
    assert(expected@ =~= ready_packet());
    same_bytes(packet.as_slice(), &expected)
}

/// The packet that lets the helper pass a barrier.
pub fn release_packet(barrier: Barrier) -> (r: Vec<u8>)
    ensures
        r@ == match barrier {
            Barrier::Prepared => drop_packet(),
            Barrier::Ready => go_packet(),
        },
{
    let mut r: Vec<u8> = Vec::new();
    match barrier {
        Barrier::Prepared => {
            r.push(68);
            r.push(82);
            r.push(79);
            r.push(80);
            assert(r@ =~= drop_packet());
        },
        Barrier::Ready => {
            r.push(71);
            r.push(79);
            assert(r@ =~= go_packet());
        },
    }
    r
}

impl HardenedPass {
    /// A pass that has not begun.
    pub fn new(limit: u64) -> (r: Self)
        ensures
            r@ == (Pass {
                state: HardenedProtocolState::Prepared,
                step: PassStep::CheckBreak(BreakAt::Start),
                output: Seq::empty(),
                limit,
                stdout_eof: false,
                control_eof: false,
                child_exited: false,
                packet: Seq::empty(),
                self_memory: None,
            }),
            sound(r@),
    {
        HardenedPass {
            state: HardenedProtocolState::Prepared,
            step: PassStep::CheckBreak(BreakAt::Start),
            output: Vec::new(),
            limit,
            stdout_eof: false,
            control_eof: false,
            child_exited: false,
            packet: Vec::new(),
            self_memory: None,
        }
    }

    /// Looks at the packet that the helper sent.
    fn take_packet(&mut self) -> (r: Result<(), String>)
        ensures
            match packet_taken(old(self)@) {
                Ok(p) => r is Ok && final(self)@ == p,
                Err(message) => final(self)@ == old(self)@ && (r matches Err(given) && given@
                    == message),
            },
    {
        match self.state {
            HardenedProtocolState::Prepared => {
                if is_prepared(&self.packet) {
                    self.step = PassStep::Inspect(Barrier::Prepared);
                    return Ok(());
                }
            },
            HardenedProtocolState::Ready => {
                if is_ready(&self.packet) {
                    self.step = PassStep::Inspect(Barrier::Ready);
                    return Ok(());
                }
            },
            HardenedProtocolState::Running => {},
        }
        let mut message = "unexpected hardened discovery control packet ".to_owned();
        message.append(render_bytes(&self.packet).as_str());
        Err(message)
    }

    /// Takes in whether a held file is about to change.
    pub fn break_checked(&mut self, outcome: Result<bool, String>) -> (r: Result<(), String>)
        requires
            sound(old(self)@),
            old(self).step is CheckBreak,
        ensures
            match after_break(old(self)@, heard(outcome)) {
                Ok(p) => r is Ok && final(self)@ == p && sound(p),
                Err(message) => final(self)@ == old(self)@ && (r matches Err(given) && given@
                    == message),
            },
    {
        let broken: bool = match outcome {
            Ok(broken) => broken,
            Err(message) => return Err(message),
        };
        let at = match self.step {
            PassStep::CheckBreak(at) => at,
            _ => return Ok(()),
        };
        if broken {
            self.step = match at {
                BreakAt::Start => PassStep::Broken,
                BreakAt::Parsed => PassStep::Broken,
                BreakAt::Final => PassStep::Broken,
                _ => PassStep::Reap(true),
            };
            return Ok(());
        }
        match at {
            BreakAt::Start => {
                self.step = PassStep::Spawn;
            },
            BreakAt::Turn => {
                self.step = PassStep::Drain;
            },
            BreakAt::Packet => {
                return self.take_packet();
            },
            BreakAt::Barrier(b) => {
                self.step = PassStep::CheckDeadline(DeadlineAt::AfterBreak(b));
            },
            BreakAt::Parsed => {
                self.step = PassStep::Revalidate(None);
            },
            BreakAt::Final => {
                self.step = PassStep::CheckDeadline(DeadlineAt::Final);
            },
        }
        Ok(())
    }

    /// Takes in whether the time is over.
    pub fn deadline_checked(&mut self, past: bool) -> (r: Result<(), String>)
        requires
            sound(old(self)@),
            old(self).step is CheckDeadline,
        ensures
            match after_deadline(old(self)@, past) {
                Ok(p) => r is Ok && final(self)@ == p && sound(p),
                Err(message) => final(self)@ == old(self)@ && (r matches Err(given) && given@
                    == message),
            },
    {
        if past {
            return Err("hardened discovery oracle reached its absolute deadline".to_owned());
        }
        if let PassStep::CheckDeadline(at) = self.step {
            self.step = match at {
                DeadlineAt::Spawned => PassStep::Authorize,
                DeadlineAt::BeforeBreak(b) => PassStep::CheckBreak(BreakAt::Barrier(b)),
                DeadlineAt::AfterBreak(b) => PassStep::Send(b),
                DeadlineAt::Ended => PassStep::Parse,
                DeadlineAt::Final => PassStep::Complete,
            };
        }
        Ok(())
    }

    /// Takes in whether the helper was started.
    pub fn spawned(&mut self, outcome: Result<(), String>) -> (r: Result<(), String>)
        requires
            sound(old(self)@),
            old(self).step is Spawn,
        ensures
            match outcome {
                Ok(()) => r is Ok && final(self)@ == (Pass {
                    step: PassStep::CheckDeadline(DeadlineAt::Spawned),
                    ..old(self)@
                }) && sound(final(self)@),
                Err(error) => final(self)@ == old(self)@ && (r matches Err(given) && given@
                    == error@),
            },
    {
        if let Err(error) = outcome {
            return Err(error);
        }
        self.step = PassStep::CheckDeadline(DeadlineAt::Spawned);
        Ok(())
    }

    /// Takes in the descriptor on which the helper talks.
    pub fn authorized(&mut self, control_fd: i32) -> (r: Result<(), String>)
        requires
            sound(old(self)@),
            old(self).step is Authorize,
        ensures
            match after_authorize(old(self)@, control_fd) {
                Ok(p) => r is Ok && final(self)@ == p && sound(p),
                Err(message) => final(self)@ == old(self)@ && (r matches Err(given) && given@
                    == message),
            },
    {
        if control_fd <= 2 {
            return Err("hardened child control fd overlaps stdio".to_owned());
        }
        self.step = PassStep::CheckBreak(BreakAt::Turn);
        Ok(())
    }

    /// Takes in some of the output.
    pub fn take_output(&mut self, bytes: &[u8]) -> (r: Result<(), String>)
        requires
            sound(old(self)@),
            old(self).step is Drain,
        ensures
            if old(self)@.output.len() + bytes@.len() <= old(self)@.limit {
                r is Ok && final(self)@ == (Pass {
                    output: old(self)@.output + bytes@,
                    ..old(self)@
                })
            } else {
                final(self)@ == old(self)@ && (r matches Err(message) && message@
                    == "discovery oracle output exceeds the "@ + digits(
                    old(self)@.limit as nat,
                ) + "-byte limit"@)
            },
            sound(final(self)@),
    {
        let limit: u64 = self.limit;
        append_bounded(&mut self.output, bytes, limit)
    }

    /// Takes in that the output was read as far as there was any, and whether it ended.
    pub fn drained(&mut self, ended: bool)
        requires
            sound(old(self)@),
            old(self).step is Drain,
        ensures
            final(self)@ == after_drain(old(self)@, ended),
            sound(final(self)@),
    {
        if ended {
            self.stdout_eof = true;
        }
        if self.state == HardenedProtocolState::Running && self.child_exited && self.stdout_eof {
            self.step = PassStep::Reap(false);
        } else {
            self.step = PassStep::Poll;
        }
    }

    /// Takes in what happened while the pass waited.
    pub fn polled(&mut self, happened: Happened) -> (r: Result<(), String>)
        requires
            sound(old(self)@),
            old(self).step is Poll,
        ensures
            match after_poll(old(self)@, happened) {
                Ok(p) => r is Ok && final(self)@ == p && sound(p),
                Err(message) => final(self)@ == old(self)@ && (r matches Err(given) && given@
                    == message),
            },
    {
        if !happened.any {
            return Err("hardened discovery oracle reached its absolute deadline".to_owned());
        }
        if happened.child {
            if self.state != HardenedProtocolState::Running {
                return Err("hardened discovery child exited before GO".to_owned());
            }
            self.child_exited = true;
        }
        if happened.control && !happened.lease {
            self.step = PassStep::Receive;
        } else {
            self.step = PassStep::CheckBreak(BreakAt::Turn);
        }
        Ok(())
    }

    /// Takes in what the helper sent.
    pub fn received(&mut self, packet: ControlPacket) -> (r: Result<(), String>)
        requires
            sound(old(self)@),
            old(self).step is Receive,
        ensures
            match after_receive(old(self)@, packet) {
                Ok(p) => r is Ok && final(self)@ == p && sound(p),
                Err(message) => final(self)@ == old(self)@ && (r matches Err(given) && given@
                    == message),
            },
    {
        match packet {
            ControlPacket::Nothing => {
                self.step = PassStep::CheckBreak(BreakAt::Turn);
                Ok(())
            },
            ControlPacket::Eof => {
                if self.state != HardenedProtocolState::Running {
                    return Err("hardened discovery control closed before GO".to_owned());
                }
                self.control_eof = true;
                self.step = PassStep::CheckBreak(BreakAt::Turn);
                Ok(())
            },
            ControlPacket::Packet(bytes) => {
                self.packet = bytes;
                self.step = PassStep::CheckBreak(BreakAt::Packet);
                Ok(())
            },
        }
    }

    /// Takes in what was seen of the helper at a barrier.
    pub fn inspected(&mut self, authority: &Authority, seen: &Sighting) -> (r: Result<(), String>)
        requires
            sound(old(self)@),
            old(self).step is Inspect,
        ensures
            match if old(self).step == PassStep::Inspect(Barrier::Prepared) {
                after_prepared(old(self)@, *authority, *seen)
            } else {
                after_ready(old(self)@, *authority, *seen)
            } {
                Ok(p) => r is Ok && final(self)@ == p && sound(p),
                Err(message) => final(self)@ == old(self)@ && (r matches Err(given) && given@
                    == message),
            },
    {
        if self.state == HardenedProtocolState::Prepared {
            if seen.exe != authority.loader {
                return Err(
                    "hardened discovery child did not execute the pinned loader".to_owned(),
                );
            }
            if !same_fds(&seen.fds, &authority.fds) {
                return Err(
                    "hardened discovery child inherited an unexpected fd target".to_owned(),
                );
            }
            self.self_memory = Some(seen.memory);
            self.step = PassStep::Revalidate(Some(Barrier::Prepared));
            return Ok(());
        }
        if let Err(message) = validate_hardened_executable_maps(
            seen.maps.as_slice(),
            &authority.executable,
            authority.provider,
        ) {
            return Err(message);
        }
        match self.self_memory {
            None => Err("hardened child self-memory identity is missing".to_owned()),
            Some(memory) => {
                if seen.exe != authority.loader || !has_only_memory_added(
                    &seen.fds,
                    &authority.fds,
                    &memory,
                ) {
                    return Err(
                        "hardened discovery child authority changed before GO".to_owned(),
                    );
                }
                self.step = PassStep::Revalidate(Some(Barrier::Ready));
                Ok(())
            },
        }
    }

    /// Takes in whether everything that the helper was given is still what it was.
    pub fn revalidated(&mut self, outcome: Result<(), String>) -> (r: Result<(), String>)
        requires
            sound(old(self)@),
            old(self).step is Revalidate,
        ensures
            match outcome {
                Ok(()) => r is Ok && final(self)@ == after_revalidate(old(self)@) && sound(
                    final(self)@,
                ),
                Err(error) => final(self)@ == old(self)@ && (r matches Err(given) && given@
                    == error@),
            },
    {
        if let Err(error) = outcome {
            return Err(error);
        }
        if let PassStep::Revalidate(at) = self.step {
            self.step = match at {
                Some(b) => PassStep::CheckDeadline(DeadlineAt::BeforeBreak(b)),
                None => PassStep::CheckBreak(BreakAt::Final),
            };
        }
        Ok(())
    }

    /// Takes in whether the packet that lets the helper pass a barrier was sent.
    pub fn sent(&mut self, outcome: Result<(), String>) -> (r: Result<(), String>)
        requires
            sound(old(self)@),
            old(self).step is Send,
        ensures
            match outcome {
                Ok(()) => r is Ok && final(self)@ == after_send(old(self)@) && sound(
                    final(self)@,
                ),
                Err(error) => final(self)@ == old(self)@ && (r matches Err(given) && given@
                    == error@),
            },
    {
        if let Err(error) = outcome {
            return Err(error);
        }
        if let PassStep::Send(b) = self.step {
            self.state = match b {
                Barrier::Prepared => HardenedProtocolState::Ready,
                Barrier::Ready => HardenedProtocolState::Running,
            };
            self.step = PassStep::CheckBreak(BreakAt::Turn);
        }
        Ok(())
    }

    /// Takes in that the helper was waited for, and whether its end can be accepted.
    pub fn reaped(&mut self, outcome: Result<(), String>) -> (r: Result<(), String>)
        requires
            sound(old(self)@),
            old(self).step is Reap,
        ensures
            match outcome {
                Ok(()) => r is Ok && final(self)@ == after_reap(old(self)@) && sound(final(self)@),
                Err(error) => final(self)@ == old(self)@ && (r matches Err(given) && given@
                    == error@),
            },
    {
        if let Err(error) = outcome {
            return Err(error);
        }
        if let PassStep::Reap(for_break) = self.step {
            self.step = if for_break {
                PassStep::Broken
            } else {
                PassStep::CheckDeadline(DeadlineAt::Ended)
            };
        }
        Ok(())
    }

    /// Takes in whether the report could be read.
    pub fn parsed(&mut self, outcome: Result<(), String>) -> (r: Result<(), String>)
        requires
            sound(old(self)@),
            old(self).step is Parse,
        ensures
            match outcome {
                Ok(()) => r is Ok && final(self)@ == (Pass {
                    step: PassStep::CheckBreak(BreakAt::Parsed),
                    ..old(self)@
                }) && sound(final(self)@),
                Err(error) => final(self)@ == old(self)@ && (r matches Err(given) && given@
                    == error@),
            },
    {
        if let Err(error) = outcome {
            return Err(error);
        }
        self.step = PassStep::CheckBreak(BreakAt::Parsed);
        Ok(())
    }

    /// Which ends of the helper are still waited for: what it sends, what it writes, and its own.
    pub fn waits_for(&self) -> (r: (bool, bool, bool))
        ensures
            r == (!self@.control_eof, !self@.stdout_eof, !self@.child_exited),
    {
        (!self.control_eof, !self.stdout_eof, !self.child_exited)
    }
}

} // verus!
