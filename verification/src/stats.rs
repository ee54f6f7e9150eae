//! Node-wide traffic statistics.

use vstd::prelude::*;

use crate::known_peers::{sat_add, spec_sat_add};

verus! {

/// Monotonic counters for the node itself, incremented by the reading and
/// writing handlers and read by observability consumers. The counters
/// saturate at the numeric bound rather than wrap.
#[derive(Clone, Copy, PartialEq, Eq, Structural, Debug)]
pub struct Stats {
    /// Messages sent by the node.
    pub msgs_sent: u64,
    /// Messages received by the node.
    pub msgs_received: u64,
    /// Bytes sent by the node.
    pub bytes_sent: u64,
    /// Bytes received by the node.
    pub bytes_received: u64,
    /// Failed connection attempts, inbound or outbound.
    pub failures: u64,
}

impl Stats {
    /// Creates zeroed counters.
    pub fn new() -> (r: Stats)
        ensures
            r == spec_zero_stats(),
    {
        Stats { msgs_sent: 0, msgs_received: 0, bytes_sent: 0, bytes_received: 0, failures: 0 }
    }

    /// Records one sent message of the given size.
    pub fn register_sent_message(&mut self, size: u64)
        ensures
            *final(self) == (Stats {
                msgs_sent: spec_sat_add(old(self).msgs_sent, 1),
                bytes_sent: spec_sat_add(old(self).bytes_sent, size),
                ..*old(self)
            }),
    {
        self.msgs_sent = sat_add(self.msgs_sent, 1);
        self.bytes_sent = sat_add(self.bytes_sent, size);
    }

    /// Records one received message of the given size.
    pub fn register_received_message(&mut self, size: u64)
        ensures
            *final(self) == (Stats {
                msgs_received: spec_sat_add(old(self).msgs_received, 1),
                bytes_received: spec_sat_add(old(self).bytes_received, size),
                ..*old(self)
            }),
    {
        self.msgs_received = sat_add(self.msgs_received, 1);
        self.bytes_received = sat_add(self.bytes_received, size);
    }

    /// Records one failed connection attempt.
    pub fn register_failure(&mut self)
        ensures
            *final(self) == (Stats {
                failures: spec_sat_add(old(self).failures, 1),
                ..*old(self)
            }),
    {
        self.failures = sat_add(self.failures, 1);
    }
}

/// All counters at zero.
pub open spec fn spec_zero_stats() -> Stats {
    Stats { msgs_sent: 0, msgs_received: 0, bytes_sent: 0, bytes_received: 0, failures: 0 }
}

} // verus!
