//! Exactly which descriptors a hardened child inherits. Each is pinned to what it refers to, so that
//! one that was exchanged after the fork is refused before anything runs.

use crate::text::{concat3, signed_decimal, signed_digits, Text};
use vstd::prelude::*;
use vstd::string::*;

verus! {

/// What a descriptor refers to.
#[derive(Clone, Copy, Debug, PartialEq, Eq, Structural)]
pub struct FdIdentity {
    pub device: u64,
    pub inode: u64,
    pub kind: u32,
}

/// A descriptor that is inherited, and what it refers to.
#[derive(Clone, Copy, Debug, PartialEq, Eq, Structural)]
pub struct InheritedFd {
    pub fd: i32,
    pub identity: FdIdentity,
}

/// Whether descriptors grow.
pub open spec fn ascending(list: Seq<i32>) -> bool {
    forall|i: int, j: int| 0 <= i < j < list.len() ==> #[trigger] list[i] < #[trigger] list[j]
}

/// Puts descriptors in order, each once.
pub fn ordered_descriptors(given: &Vec<i32>) -> (r: Vec<i32>)
    ensures
        ascending(r@),
        r@.to_set() == given@.to_set(),
{
    let mut r: Vec<i32> = Vec::new();
    let mut n: usize = 0;
    while n < given.len()
        invariant
            n <= given@.len(),
            ascending(r@),
            forall|fd: i32| #[trigger] r@.contains(fd) <==> given@.take(n as int).contains(fd),
        decreases given@.len() - n,
    {
        let fd: i32 = given[n];
        let mut at: usize = 0;
        while at < r.len() && r[at] < fd
            invariant
                at <= r@.len(),
                forall|i: int| 0 <= i < at ==> #[trigger] r@[i] < fd,
            decreases r@.len() - at,
        {
            at += 1;
        }
        let ghost before = r@;
        let ghost past = given@.take(n as int);
        let ghost now = given@.take(n + 1);
        let known: bool = at < r.len() && r[at] == fd;
        if !known {
            r.insert(at, fd);
            assert forall|i: int, j: int| 0 <= i < j < r@.len() implies #[trigger] r@[i]
                < #[trigger] r@[j] by {
                let si = if i < at {
                    i
                } else {
                    i - 1
                };
                let sj = if j < at {
                    j
                } else {
                    j - 1
                };
                if i != at {
                    assert(r@[i] == before[si]);
                }
                if j != at {
                    assert(r@[j] == before[sj]);
                }
                if i == at && sj > at {
                    assert(before[at as int] < before[sj]);
                }
            }
        }
        assert forall|x: i32| #[trigger] r@.contains(x) <==> now.contains(x) by {
            assert(now[n as int] == fd);
            if past.contains(x) {
                let k = choose|k: int| 0 <= k < past.len() && past[k] == x;
                assert(now[k] == x);
            }
            if now.contains(x) && x != fd {
                let k = choose|k: int| 0 <= k < now.len() && now[k] == x;
                assert(past[k] == x);
            }
            if known {
                assert(before[at as int] == fd);
            } else {
                assert(r@[at as int] == fd);
                if before.contains(x) {
                    let k = choose|k: int| 0 <= k < before.len() && before[k] == x;
                    if k < at {
                        assert(r@[k] == x);
                    } else {
                        assert(r@[k + 1] == x);
                    }
                }
                if r@.contains(x) && x != fd {
                    let k = choose|k: int| 0 <= k < r@.len() && r@[k] == x;
                    if k < at {
                        assert(before[k] == x);
                    } else {
                        assert(before[k - 1] == x);
                    }
                }
            }
        }
        n += 1;
    }
    assert(given@.take(n as int) =~= given@);
    assert(r@.to_set() =~= given@.to_set());
    r
}

/// What was seen of a descriptor that is to be inherited.
#[derive(Debug)]
pub enum FdSeen {
    /// It is not open.
    Closed,
    /// What it refers to could not be read.
    Unreadable(String),
    /// What it refers to.
    Seen(FdIdentity),
}

/// Why a descriptor cannot be inherited.
pub open spec fn fd_fault(fd: i32, seen: FdSeen) -> Option<Text> {
    if fd <= 2 || seen is Closed {
        Some(
            "hardened discovery inherited fd "@ + signed_digits(fd as int)
                + " is invalid or overlaps stdio"@,
        )
    } else {
        match seen {
            FdSeen::Unreadable(error) => Some(
                "pinning hardened discovery inherited fd identity: "@ + error@,
            ),
            _ => None,
        }
    }
}

/// The first of the first `n` descriptors that cannot be inherited.
pub open spec fn fds_fault(fds: Seq<i32>, seen: Seq<FdSeen>, n: int) -> Option<Text>
    decreases n,
{
    if n <= 0 {
        None
    } else {
        match fds_fault(fds, seen, n - 1) {
            Some(message) => Some(message),
            None => fd_fault(fds[n - 1], seen[n - 1]),
        }
    }
}

/// The first fault stays the first.
proof fn lemma_fds_fault_stays(fds: Seq<i32>, seen: Seq<FdSeen>, n: int, m: int)
    requires
        n <= m,
        fds_fault(fds, seen, n) is Some,
    ensures
        fds_fault(fds, seen, m) == fds_fault(fds, seen, n),
    decreases m - n,
{
    if n < m {
        lemma_fds_fault_stays(fds, seen, n, m - 1);
    }
}

/// The descriptors that are inherited, each with what it refers to.
pub open spec fn pinned_fds(fds: Seq<i32>, seen: Seq<FdSeen>, n: int) -> Seq<InheritedFd> {
    Seq::new(n as nat, |i: int| InheritedFd { fd: fds[i], identity: seen[i]->Seen_0 })
}

/// The first of the first `n` alias directories that is not inherited.
pub open spec fn alias_fault(fds: Seq<i32>, directories: Seq<i32>, n: int) -> Option<Text>
    decreases n,
{
    if n <= 0 {
        None
    } else {
        match alias_fault(fds, directories, n - 1) {
            Some(message) => Some(message),
            None => if fds.contains(directories[n - 1]) {
                None
            } else {
                Some(
                    "private glibc alias directory fd "@ + signed_digits(directories[n - 1] as int)
                        + " is not inherited"@,
                )
            },
        }
    }
}

/// The first alias directory that is not inherited stays the first.
proof fn lemma_alias_fault_stays(fds: Seq<i32>, directories: Seq<i32>, n: int, m: int)
    requires
        n <= m,
        alias_fault(fds, directories, n) is Some,
    ensures
        alias_fault(fds, directories, m) == alias_fault(fds, directories, n),
    decreases m - n,
{
    if n < m {
        lemma_alias_fault_stays(fds, directories, n, m - 1);
    }
}

/// Tells whether a descriptor is listed.
fn lists_fd(list: &Vec<i32>, fd: i32) -> (r: bool)
    ensures
        r == list@.contains(fd),
{
    let mut i: usize = 0;
    while i < list.len()
        invariant
            i <= list@.len(),
            forall|j: int| 0 <= j < i ==> list@[j] != fd,
        decreases list@.len() - i,
    {
        if list[i] == fd {
            return true;
        }
        i += 1;
    }
    false
}

/// Pins the descriptors that a child inherits: each above the standard three, open, and with what it
/// refers to; and the directory of every alias among them.
pub fn pin_inheritance(
    fds: &Vec<i32>,
    seen: &Vec<FdSeen>,
    alias_directories: &Vec<i32>,
) -> (r: Result<Vec<InheritedFd>, String>)
    requires
        seen@.len() == fds@.len(),
    ensures
        ({
            let n = fds@.len() as int;
            match fds_fault(fds@, seen@, n) {
                Some(message) => r matches Err(given) && given@ == message,
                None => match alias_fault(
                    fds@,
                    alias_directories@,
                    alias_directories@.len() as int,
                ) {
                    Some(message) => r matches Err(given) && given@ == message,
                    None => r matches Ok(given) && given@ == pinned_fds(fds@, seen@, n),
                },
            }
        }),
{
    let mut pinned: Vec<InheritedFd> = Vec::new();
    let mut i: usize = 0;
    assert(pinned@ =~= pinned_fds(fds@, seen@, 0));
    while i < fds.len()
        invariant
            i <= fds@.len(),
            seen@.len() == fds@.len(),
            fds_fault(fds@, seen@, i as int) is None,
            pinned@ == pinned_fds(fds@, seen@, i as int),
        decreases fds@.len() - i,
    {
        let fd: i32 = fds[i];
        proof {
            if fd_fault(fd, seen@[i as int]) is Some {
                lemma_fds_fault_stays(fds@, seen@, i + 1, fds@.len() as int);
            }
        }
        let mut identity: Option<FdIdentity> = None;
        match &seen[i] {
            FdSeen::Closed => {},
            FdSeen::Unreadable(error) => {
                if fd > 2 {
                    let mut message = "pinning hardened discovery inherited fd identity: ".to_owned();
                    message.append(error.as_str());
                    return Err(message);
                }
            },
            FdSeen::Seen(known) => {
                if fd > 2 {
                    identity = Some(*known);
                }
            },
        }
        match identity {
            None => {
                return Err(
                    concat3(
                        "hardened discovery inherited fd ",
                        signed_decimal(fd as i64).as_str(),
                        " is invalid or overlaps stdio",
                    ),
                );
            },
            Some(identity) => {
                pinned.push(InheritedFd { fd, identity });
                assert(pinned@ =~= pinned_fds(fds@, seen@, i + 1));
            },
        }
        i += 1;
    }
    let mut a: usize = 0;
    while a < alias_directories.len()
        invariant
            a <= alias_directories@.len(),
            alias_fault(fds@, alias_directories@, a as int) is None,
            fds_fault(fds@, seen@, fds@.len() as int) is None,
        decreases alias_directories@.len() - a,
    {
        if !lists_fd(fds, alias_directories[a]) {
            proof {
                lemma_alias_fault_stays(
                    fds@,
                    alias_directories@,
                    a + 1,
                    alias_directories@.len() as int,
                );
            }
            return Err(
                concat3(
                    "private glibc alias directory fd ",
                    signed_decimal(alias_directories[a] as i64).as_str(),
                    " is not inherited",
                ),
            );
        }
        a += 1;
    }
    Ok(pinned)
}

/// Every descriptor that is inherited lies above the standard three.
pub proof fn lemma_inherited_above_stdio(fds: Seq<i32>, seen: Seq<FdSeen>, n: int, i: int)
    requires
        0 <= i < n <= fds.len(),
        fds_fault(fds, seen, n) is None,
    ensures
        fds[i] > 2,
        seen[i] is Seen,
    decreases n,
{
    if i < n - 1 {
        lemma_inherited_above_stdio(fds, seen, n - 1, i);
    }
}

/// Tells whether a descriptor still refers to what it was pinned to.
pub fn still_refers(expected: &InheritedFd, now: &FdIdentity) -> (r: bool)
    ensures
        r == (expected.identity == *now),
{
    expected.identity == *now
}

/// Tells whether an alias still leads where it led.
pub fn still_leads(expected: &[u8], now: &[u8]) -> (r: bool)
    ensures
        r == (expected@ == now@),
{
    crate::maps::same_bytes(expected, now)
}

} // verus!
