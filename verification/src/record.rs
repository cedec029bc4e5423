//! The discovery records that the kernel side hands over, and the authorization word it shares.

use vstd::prelude::*;

verus! {

/// The authorization word of an owned child whose next hook may request a stop.
pub const PAUSE_ARMED: u64 = 1;

/// The authorization word after one hook has won the stop request.
pub const PAUSE_REQUESTED: u64 = 2;

/// The helper result of a record that coalesced into a request another hook had won.
pub const COALESCED_NO_HELPER_RC: i64 = i64::MIN;

/// The status bit of a record that coalesced into a request another hook had won.
pub const DISCOVERY_STATUS_COALESCED_NO_HELPER: u32 = 1;

/// The kind of a record that a process lifecycle event produced.
pub const DISCOVERY_KIND_EXEC: u32 = 1;

/// The kind of a record that a loader checkpoint produced.
pub const DISCOVERY_KIND_LOADER: u32 = 2;

/// One discovery record.
#[derive(Clone, Copy, Debug, Default, PartialEq, Eq, Structural)]
pub struct DiscoveryRecord {
    /// Monotonic time of the hook.
    pub hook_ts_ns: u64,
    /// Process id in the upper half, thread id in the lower half.
    pub pid_tgid: u64,
    /// What produced the record.
    pub kind: u32,
    /// The loader context that a loader record belongs to.
    pub case_id: u8,
    /// Result of the stop helper.
    pub send_signal_rc: i64,
    /// Status bits.
    pub status_flags: u32,
}

/// What one dequeue hands over.
#[derive(Clone, Copy, Debug, PartialEq, Eq, Structural)]
pub enum DiscoveryItem {
    /// A record that decoded.
    Record(DiscoveryRecord),
    /// Bytes that did not decode.
    Malformed,
}

impl DiscoveryRecord {
    /// The process id of the record: the upper half of its id pair.
    pub open spec fn pid(self) -> int {
        self.pid_tgid as int / 0x1_0000_0000
    }

    /// Whether the record carries the status bit of a coalesced record.
    pub open spec fn marked_coalesced(self) -> bool {
        self.status_flags & DISCOVERY_STATUS_COALESCED_NO_HELPER != 0
    }

    /// Whether the record is a coalesced record of process `pid`, by result and by status.
    pub open spec fn coalesced_of(self, pid: u32) -> bool {
        self.pid() == pid && self.send_signal_rc == COALESCED_NO_HELPER_RC
            && self.marked_coalesced()
    }

    /// Reads the status bit of a coalesced record.
    pub fn is_marked_coalesced(&self) -> (r: bool)
        ensures
            r == self.marked_coalesced(),
    {
        self.status_flags & DISCOVERY_STATUS_COALESCED_NO_HELPER != 0
    }

    /// Recognizes a coalesced record of process `pid`.
    pub fn is_coalesced_of(&self, pid: u32) -> (r: bool)
        ensures
            r == self.coalesced_of(pid),
    {
        exact_pid(self) == pid && self.send_signal_rc == COALESCED_NO_HELPER_RC
            && self.is_marked_coalesced()
    }
}

/// The process id of a record.
pub fn exact_pid(record: &DiscoveryRecord) -> (pid: u32)
    ensures
        pid == record.pid(),
{
    let pair: u64 = record.pid_tgid;
    assert(pair >> 32 == pair / 0x1_0000_0000) by (bit_vector);
    (pair >> 32) as u32
}

} // verus!
