//! The counters of live discovery, read as absolute values.

use crate::text::Text;
use vstd::prelude::*;
use vstd::string::*;

verus! {

/// The counter of records that the ring had no room for.
pub const DISCOVERY_COUNTER_RING_LOSS: u32 = 0;

/// The counter of exports whose state could not be kept.
pub const DISCOVERY_COUNTER_EXPORT_STATE_FAILURES: u32 = 1;

/// The counter of exports whose bounded reads failed.
pub const DISCOVERY_COUNTER_EXPORT_BOUNDED_READ_FAILURES: u32 = 2;

/// The counter of loader hits.
pub const DISCOVERY_COUNTER_LOADER_HITS: u32 = 3;

/// The counter of loader hits whose state could not be read.
pub const DISCOVERY_COUNTER_LOADER_STATE_READ_FAILURES: u32 = 4;

/// Every counter at one time.
#[derive(Clone, Copy, Debug, Default, PartialEq, Eq, Structural)]
pub struct CounterSnapshot {
    pub ring_loss: u64,
    pub export_state_failures: u64,
    pub export_bounded_read_failures: u64,
    pub loader_hits: u64,
    pub loader_state_read_failures: u64,
}

/// Whether no counter is smaller than it was.
pub open spec fn nondecreasing(before: CounterSnapshot, next: CounterSnapshot) -> bool {
    &&& next.ring_loss >= before.ring_loss
    &&& next.export_state_failures >= before.export_state_failures
    &&& next.export_bounded_read_failures >= before.export_bounded_read_failures
    &&& next.loader_hits >= before.loader_hits
    &&& next.loader_state_read_failures >= before.loader_state_read_failures
}

impl CounterSnapshot {
    /// Takes over a later snapshot, as a whole. One in which any counter went back is refused, and
    /// what was known stays.
    pub fn replace_with(&mut self, next: CounterSnapshot) -> (r: bool)
        ensures
            r == nondecreasing(*old(self), next),
            *final(self) == if r {
                next
            } else {
                *old(self)
            },
    {
        if next.ring_loss >= self.ring_loss && next.export_state_failures
            >= self.export_state_failures && next.export_bounded_read_failures
            >= self.export_bounded_read_failures && next.loader_hits >= self.loader_hits
            && next.loader_state_read_failures >= self.loader_state_read_failures {
            *self = next;
            true
        } else {
            false
        }
    }
}

/// The sum of the first `n` cells, without their width.
pub open spec fn cells_sum(cells: Seq<u64>, n: int) -> int
    decreases n,
{
    if n <= 0 {
        0
    } else {
        cells_sum(cells, n - 1) + cells[n - 1]
    }
}

/// A counter: the sum of its cells, as far as the width goes.
pub open spec fn counter(cells: Seq<u64>) -> u64 {
    let sum = cells_sum(cells, cells.len() as int);
    if sum > u64::MAX {
        u64::MAX
    } else {
        sum as u64
    }
}

/// A sum never shrinks.
proof fn lemma_cells_sum(cells: Seq<u64>, n: int, m: int)
    requires
        n <= m,
    ensures
        0 <= cells_sum(cells, n) <= cells_sum(cells, m),
    decreases m,
{
    if n < m && m > 0 {
        lemma_cells_sum(cells, n, m - 1);
    } else if n == m && n > 0 {
        lemma_cells_sum(cells, n - 1, n - 1);
    }
}

/// Adds up the cells of a counter.
fn add_cells(cells: &Vec<u64>) -> (r: u64)
    ensures
        r == counter(cells@),
{
    let mut sum: u64 = 0;
    let mut i: usize = 0;
    while i < cells.len()
        invariant
            i <= cells@.len(),
            sum == if cells_sum(cells@, i as int) > u64::MAX {
                u64::MAX as int
            } else {
                cells_sum(cells@, i as int)
            },
        decreases cells@.len() - i,
    {
        proof {
            lemma_cells_sum(cells@, i as int, i + 1);
        }
        sum = sum.saturating_add(cells[i]);
        i += 1;
    }
    sum
}

/// The first of the first `n` counters that could not be read.
pub open spec fn unread(cells: Seq<Result<Vec<u64>, String>>, n: int) -> Option<Text>
    decreases n,
{
    if n <= 0 {
        None
    } else {
        match unread(cells, n - 1) {
            Some(message) => Some(message),
            None => match cells[n - 1] {
                Err(message) => Some(message@),
                Ok(_) => None,
            },
        }
    }
}

/// Puts a snapshot together from the cells of every counter, in the order of their numbers. A
/// counter that could not be read leaves none.
pub fn counter_snapshot_with(cells: &Vec<Result<Vec<u64>, String>>) -> (r: Result<
    CounterSnapshot,
    String,
>)
    requires
        cells@.len() == 5,
    ensures
        match unread(cells@, 5) {
            Some(message) => r matches Err(given) && given@ == message,
            None => r == Ok::<CounterSnapshot, String>(
                CounterSnapshot {
                    ring_loss: counter(cells@[0]->Ok_0@),
                    export_state_failures: counter(cells@[1]->Ok_0@),
                    export_bounded_read_failures: counter(cells@[2]->Ok_0@),
                    loader_hits: counter(cells@[3]->Ok_0@),
                    loader_state_read_failures: counter(cells@[4]->Ok_0@),
                },
            ),
        },
{
    let mut sums: Vec<u64> = Vec::new();
    let mut i: usize = 0;
    while i < 5
        invariant
            i <= 5,
            cells@.len() == 5,
            sums@.len() == i,
            unread(cells@, i as int) is None,
            forall|j: int|
                0 <= j < i ==> (#[trigger] cells@[j]) is Ok && sums@[j] == counter(cells@[j]->Ok_0@),
        decreases 5 - i,
    {
        match &cells[i] {
            Ok(values) => {
                let ghost before = sums@;
                let sum: u64 = add_cells(values);
                sums.push(sum);
                assert(cells@[i as int]->Ok_0@ == values@);
                assert(sums@ =~= before.push(sum));
            },
            Err(message) => {
                proof {
                    lemma_unread_stays(cells@, i + 1, 5);
                }
                return Err(message.clone());
            },
        }
        i += 1;
    }
    Ok(
        CounterSnapshot {
            ring_loss: sums[0],
            export_state_failures: sums[1],
            export_bounded_read_failures: sums[2],
            loader_hits: sums[3],
            loader_state_read_failures: sums[4],
        },
    )
}

/// The first counter that could not be read stays the first.
proof fn lemma_unread_stays(cells: Seq<Result<Vec<u64>, String>>, n: int, m: int)
    requires
        n <= m,
        unread(cells, n) is Some,
    ensures
        unread(cells, m) == unread(cells, n),
    decreases m - n,
{
    if n < m {
        lemma_unread_stays(cells, n, m - 1);
    }
}

/// Snapshots that are taken over one after the other never go back.
pub proof fn lemma_snapshots_never_go_back(
    first: CounterSnapshot,
    second: CounterSnapshot,
    third: CounterSnapshot,
)
    requires
        nondecreasing(first, second),
        nondecreasing(second, third),
    ensures
        nondecreasing(first, third),
{
}

} // verus!
