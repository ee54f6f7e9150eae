//! Per-peer statistics, keyed by the peer's address.

use vstd::prelude::*;

use crate::addr::SocketAddr;

verus! {

/// Counters and timestamps kept for one known peer. Counters saturate
/// rather than wrap; timestamps are whatever clock values the embedder
/// passes in.
#[derive(Clone, Copy, PartialEq, Eq, Structural, Debug)]
pub struct PeerStats {
    /// The clock value at which the peer was first seen.
    pub first_seen: u64,
    /// The clock value at which the peer was last seen.
    pub last_seen: u64,
    /// How many connections with the peer were set up.
    pub connects: u64,
    /// How many connection attempts with the peer failed.
    pub failures: u64,
    /// Messages sent to the peer.
    pub msgs_sent: u64,
    /// Messages received from the peer.
    pub msgs_received: u64,
    /// Bytes sent to the peer.
    pub bytes_sent: u64,
    /// Bytes received from the peer.
    pub bytes_received: u64,
}

/// A fresh entry for a peer first seen at clock value `now`.
pub open spec fn fresh_peer_stats(now: u64) -> PeerStats {
    PeerStats {
        first_seen: now,
        last_seen: now,
        connects: 0,
        failures: 0,
        msgs_sent: 0,
        msgs_received: 0,
        bytes_sent: 0,
        bytes_received: 0,
    }
}

/// The entry after a sighting of the peer at clock value `now`: a fresh
/// entry on first sight, only a refreshed `last_seen` after that.
pub open spec fn spec_with_sighting(
    m: Map<SocketAddr, PeerStats>,
    addr: SocketAddr,
    now: u64,
) -> PeerStats {
    if m.dom().contains(addr) {
        PeerStats { last_seen: now, ..m[addr] }
    } else {
        fresh_peer_stats(now)
    }
}

/// The entry after a failure is recorded against it: the peer's existing
/// entry, or a fresh one with zeroed timestamps, with its failure counter
/// incremented (saturating).
pub open spec fn spec_with_failure(m: Map<SocketAddr, PeerStats>, addr: SocketAddr) -> PeerStats {
    let base = if m.dom().contains(addr) {
        m[addr]
    } else {
        fresh_peer_stats(0)
    };
    PeerStats { failures: spec_sat_add(base.failures, 1), ..base }
}

/// The entry after a completed connection set-up is recorded against it:
/// the peer's existing entry, or a fresh one with zeroed timestamps, with
/// its connect counter incremented (saturating).
pub open spec fn spec_with_connect(m: Map<SocketAddr, PeerStats>, addr: SocketAddr) -> PeerStats {
    let base = if m.dom().contains(addr) {
        m[addr]
    } else {
        fresh_peer_stats(0)
    };
    PeerStats { connects: spec_sat_add(base.connects, 1), ..base }
}

/// The entry after one sent message of `size` bytes is recorded against
/// it: the peer's existing entry, or a fresh one with zeroed timestamps,
/// with its message and byte counters raised (saturating).
pub open spec fn spec_with_sent(
    m: Map<SocketAddr, PeerStats>,
    addr: SocketAddr,
    size: u64,
) -> PeerStats {
    let base = if m.dom().contains(addr) {
        m[addr]
    } else {
        fresh_peer_stats(0)
    };
    PeerStats {
        msgs_sent: spec_sat_add(base.msgs_sent, 1),
        bytes_sent: spec_sat_add(base.bytes_sent, size),
        ..base
    }
}

/// The entry after one received message of `size` bytes is recorded
/// against it, as for `spec_with_sent`.
pub open spec fn spec_with_received(
    m: Map<SocketAddr, PeerStats>,
    addr: SocketAddr,
    size: u64,
) -> PeerStats {
    let base = if m.dom().contains(addr) {
        m[addr]
    } else {
        fresh_peer_stats(0)
    };
    PeerStats {
        msgs_received: spec_sat_add(base.msgs_received, 1),
        bytes_received: spec_sat_add(base.bytes_received, size),
        ..base
    }
}

/// Saturating increment.
pub open spec fn spec_sat_add(a: u64, b: u64) -> u64 {
    if a + b > u64::MAX {
        u64::MAX
    } else {
        (a + b) as u64
    }
}

struct PeerEntry {
    addr: SocketAddr,
    stats: PeerStats,
}

/// The collection of statistics of known peers: a mapping from peer
/// address to its `PeerStats`, created on first sight.
pub struct KnownPeers {
    inner: Vec<PeerEntry>,
}

impl View for KnownPeers {
    type V = Map<SocketAddr, PeerStats>;

    closed spec fn view(&self) -> Map<SocketAddr, PeerStats> {
        Map::new(
            |a: SocketAddr| exists|i: int| 0 <= i < self.inner@.len() && self.inner@[i].addr == a,
            |a: SocketAddr|
                self.inner@[choose|i: int|
                    0 <= i < self.inner@.len() && self.inner@[i].addr == a].stats,
        )
    }
}

impl KnownPeers {
    /// How many peers are known.
    pub closed spec fn spec_len(self) -> nat {
        self.inner@.len()
    }

    /// The addresses are unique.
    pub closed spec fn wf(self) -> bool {
        forall|i: int, j: int|
            0 <= i < j < self.inner@.len() ==> self.inner@[i].addr != self.inner@[j].addr
    }

    proof fn lemma_index_view(self, i: int)
        requires
            self.wf(),
            0 <= i < self.inner@.len(),
        ensures
            self@.dom().contains(self.inner@[i].addr),
            self@[self.inner@[i].addr] == self.inner@[i].stats,
    {
        let a = self.inner@[i].addr;
        let k = choose|k: int| 0 <= k < self.inner@.len() && self.inner@[k].addr == a;
        assert(k == i);
    }

    /// Creates an empty collection.
    pub fn new() -> (r: KnownPeers)
        ensures
            r.wf(),
            r@ == Map::<SocketAddr, PeerStats>::empty(),
    {
        let r = KnownPeers { inner: Vec::new() };
        assert(r@ =~= Map::<SocketAddr, PeerStats>::empty());
        r
    }

    fn position(&self, addr: SocketAddr) -> (r: Option<usize>)
        requires
            self.wf(),
        ensures
            match r {
                Some(i) => i < self.inner@.len() && self.inner@[i as int].addr == addr
                    && self@.dom().contains(addr) && self@[addr] == self.inner@[i as int].stats,
                None => !self@.dom().contains(addr),
            },
    {
        let n = self.inner.len();
        let mut i: usize = 0;
        while i < n
            invariant
                self.wf(),
                n == self.inner@.len(),
                i <= n,
                forall|k: int| 0 <= k < i ==> self.inner@[k].addr != addr,
            decreases n - i,
        {
            if self.inner[i].addr == addr {
                proof {
                    self.lemma_index_view(i as int);
                }
                return Some(i);
            }
            i = i + 1;
        }
        assert(!self@.dom().contains(addr)) by {
            if self@.dom().contains(addr) {
                let k = choose|k: int|
                    0 <= k < self.inner@.len() && self.inner@[k].addr == addr;
            }
        }
        None
    }

    /// Whether the peer is known.
    pub fn contains(&self, addr: SocketAddr) -> (r: bool)
        requires
            self.wf(),
        ensures
            r == self@.dom().contains(addr),
    {
        self.position(addr).is_some()
    }

    /// The statistics recorded for the peer, if it is known.
    pub fn get(&self, addr: SocketAddr) -> (r: Option<PeerStats>)
        requires
            self.wf(),
        ensures
            match r {
                Some(stats) => self@.dom().contains(addr) && stats == self@[addr],
                None => !self@.dom().contains(addr),
            },
    {
        match self.position(addr) {
            Some(i) => Some(self.inner[i].stats),
            None => None,
        }
    }

    /// How many peers are known.
    pub fn num_known(&self) -> (r: usize)
        requires
            self.wf(),
        ensures
            r == self.spec_len(),
    {
        self.inner.len()
    }

    /// Inserts the entry at position `i`, or a fresh/updated one, keeping
    /// the view in step; shared tail of the mutators below.
    fn update_at(&mut self, i: usize, stats: PeerStats)
        requires
            old(self).wf(),
            i < old(self).inner@.len(),
        ensures
            final(self).wf(),
            final(self)@ == old(self)@.insert(old(self).inner@[i as int].addr, stats),
    {
        let ghost pre = *self;
        let ghost addr = self.inner@[i as int].addr;
        let addr_copy = self.inner[i].addr;
        self.inner.set(i, PeerEntry { addr: addr_copy, stats });
        proof {
            assert forall|a: SocketAddr|
                final(self)@.dom().contains(a) <==> old(self)@.insert(
                    addr,
                    stats,
                ).dom().contains(a) by {
                if exists|k: int| 0 <= k < self.inner@.len() && self.inner@[k].addr == a {
                    let k = choose|k: int|
                        0 <= k < self.inner@.len() && self.inner@[k].addr == a;
                    assert(pre.inner@[k].addr == a);
                }
                if old(self)@.insert(addr, stats).dom().contains(a) {
                    let k = choose|k: int|
                        0 <= k < pre.inner@.len() && pre.inner@[k].addr == a;
                    assert(self.inner@[k].addr == a);
                }
            }
            assert forall|a: SocketAddr| #[trigger]
                final(self)@.dom().contains(a) implies final(self)@[a] == old(self)@.insert(
                    addr,
                    stats,
                )[a] by {
                let k = choose|k: int|
                    0 <= k < self.inner@.len() && self.inner@[k].addr == a;
                self.lemma_index_view(k);
                if a == addr {
                    assert(k == i);
                } else {
                    pre.lemma_index_view(k);
                }
            }
            assert(final(self)@ =~= old(self)@.insert(addr, stats));
        }
    }

    fn insert_new(&mut self, addr: SocketAddr, stats: PeerStats)
        requires
            old(self).wf(),
            !old(self)@.dom().contains(addr),
        ensures
            final(self).wf(),
            final(self)@ == old(self)@.insert(addr, stats),
    {
        let ghost pre = *self;
        proof {
            if exists|k: int| 0 <= k < self.inner@.len() && self.inner@[k].addr == addr {
                let k = choose|k: int|
                    0 <= k < self.inner@.len() && self.inner@[k].addr == addr;
                self.lemma_index_view(k);
            }
        }
        self.inner.push(PeerEntry { addr, stats });
        proof {
            assert forall|a: SocketAddr|
                final(self)@.dom().contains(a) <==> old(self)@.insert(
                    addr,
                    stats,
                ).dom().contains(a) by {
                if exists|k: int| 0 <= k < pre.inner@.len() && pre.inner@[k].addr == a {
                    let k = choose|k: int|
                        0 <= k < pre.inner@.len() && pre.inner@[k].addr == a;
                    assert(self.inner@[k].addr == a);
                }
            }
            assert forall|a: SocketAddr| #[trigger]
                final(self)@.dom().contains(a) implies final(self)@[a] == old(self)@.insert(
                    addr,
                    stats,
                )[a] by {
                let k = choose|k: int|
                    0 <= k < self.inner@.len() && self.inner@[k].addr == a;
                self.lemma_index_view(k);
                if a != addr {
                    assert(k < pre.inner@.len());
                    pre.lemma_index_view(k);
                } else {
                    assert(self.inner@[self.inner@.len() - 1].addr == addr);
                    assert(k == self.inner@.len() - 1);
                }
            }
            assert(final(self)@ =~= old(self)@.insert(addr, stats));
        }
    }

    /// Registers a sighting of the peer at clock value `now`: creates a
    /// fresh entry on first sight, and only refreshes `last_seen` after
    /// that, so repeating the call with the same clock value is a no-op.
    pub fn add(&mut self, addr: SocketAddr, now: u64)
        requires
            old(self).wf(),
        ensures
            final(self).wf(),
            final(self)@ == old(self)@.insert(addr, spec_with_sighting(old(self)@, addr, now)),
    {
        match self.position(addr) {
            Some(i) => {
                let stats = PeerStats { last_seen: now, ..self.inner[i].stats };
                self.update_at(i, stats);
            },
            None => {
                self.insert_new(
                    addr,
                    PeerStats {
                        first_seen: now,
                        last_seen: now,
                        connects: 0,
                        failures: 0,
                        msgs_sent: 0,
                        msgs_received: 0,
                        bytes_sent: 0,
                        bytes_received: 0,
                    },
                );
            },
        }
    }

    /// Registers a failed connection attempt with the peer: creates the
    /// entry if the peer was never seen (with zeroed timestamps), and
    /// increments its failure counter, saturating.
    pub fn register_failure(&mut self, addr: SocketAddr)
        requires
            old(self).wf(),
        ensures
            final(self).wf(),
            final(self)@ == old(self)@.insert(addr, spec_with_failure(old(self)@, addr)),
    {
        match self.position(addr) {
            Some(i) => {
                let old_stats = self.inner[i].stats;
                let stats = PeerStats {
                    failures: sat_add(old_stats.failures, 1),
                    ..old_stats
                };
                self.update_at(i, stats);
            },
            None => {
                self.insert_new(
                    addr,
                    PeerStats {
                        first_seen: 0,
                        last_seen: 0,
                        connects: 0,
                        failures: 1,
                        msgs_sent: 0,
                        msgs_received: 0,
                        bytes_sent: 0,
                        bytes_received: 0,
                    },
                );
            },
        }
    }

    /// Registers a completed connection set-up with the peer: creates the
    /// entry if the peer was never seen (with zeroed timestamps), and
    /// increments its connect counter, saturating.
    pub fn register_connection(&mut self, addr: SocketAddr)
        requires
            old(self).wf(),
        ensures
            final(self).wf(),
            final(self)@ == old(self)@.insert(addr, spec_with_connect(old(self)@, addr)),
    {
        match self.position(addr) {
            Some(i) => {
                let old_stats = self.inner[i].stats;
                let stats = PeerStats { connects: sat_add(old_stats.connects, 1), ..old_stats };
                self.update_at(i, stats);
            },
            None => {
                self.insert_new(
                    addr,
                    PeerStats {
                        first_seen: 0,
                        last_seen: 0,
                        connects: 1,
                        failures: 0,
                        msgs_sent: 0,
                        msgs_received: 0,
                        bytes_sent: 0,
                        bytes_received: 0,
                    },
                );
            },
        }
    }

    /// Records one sent message of `size` bytes against the peer.
    pub fn register_sent_message(&mut self, addr: SocketAddr, size: u64)
        requires
            old(self).wf(),
        ensures
            final(self).wf(),
            final(self)@ == old(self)@.insert(addr, spec_with_sent(old(self)@, addr, size)),
    {
        match self.position(addr) {
            Some(i) => {
                let old_stats = self.inner[i].stats;
                let stats = PeerStats {
                    msgs_sent: sat_add(old_stats.msgs_sent, 1),
                    bytes_sent: sat_add(old_stats.bytes_sent, size),
                    ..old_stats
                };
                self.update_at(i, stats);
            },
            None => {
                self.insert_new(
                    addr,
                    PeerStats {
                        first_seen: 0,
                        last_seen: 0,
                        connects: 0,
                        failures: 0,
                        msgs_sent: 1,
                        msgs_received: 0,
                        bytes_sent: size,
                        bytes_received: 0,
                    },
                );
            },
        }
    }

    /// Records one received message of `size` bytes against the peer.
    pub fn register_received_message(&mut self, addr: SocketAddr, size: u64)
        requires
            old(self).wf(),
        ensures
            final(self).wf(),
            final(self)@ == old(self)@.insert(addr, spec_with_received(old(self)@, addr, size)),
    {
        match self.position(addr) {
            Some(i) => {
                let old_stats = self.inner[i].stats;
                let stats = PeerStats {
                    msgs_received: sat_add(old_stats.msgs_received, 1),
                    bytes_received: sat_add(old_stats.bytes_received, size),
                    ..old_stats
                };
                self.update_at(i, stats);
            },
            None => {
                self.insert_new(
                    addr,
                    PeerStats {
                        first_seen: 0,
                        last_seen: 0,
                        connects: 0,
                        failures: 0,
                        msgs_sent: 0,
                        msgs_received: 1,
                        bytes_sent: 0,
                        bytes_received: size,
                    },
                );
            },
        }
    }

    /// Removes the peer's entry, returning whether one was present.
    pub fn remove(&mut self, addr: SocketAddr) -> (r: bool)
        requires
            old(self).wf(),
        ensures
            final(self).wf(),
            r == old(self)@.dom().contains(addr),
            final(self)@ == old(self)@.remove(addr),
    {
        match self.position(addr) {
            None => {
                proof {
                    assert(final(self)@ =~= old(self)@.remove(addr));
                }
                false
            },
            Some(i) => {
                let ghost pre = *self;
                self.inner.remove(i);
                proof {
                    assert forall|k: int| #![trigger self.inner@[k]]
                        0 <= k < self.inner@.len() implies exists|m: int|
                        0 <= m < pre.inner@.len() && #[trigger] pre.inner@[m] == self.inner@[k]
                        && m != i by {
                        let m = if k < i { k } else { k + 1 };
                        assert(pre.inner@[m] == self.inner@[k]);
                    }
                    assert forall|a: SocketAddr|
                        final(self)@.dom().contains(a) <==> old(self)@.remove(
                            addr,
                        ).dom().contains(a) by {
                        if exists|k: int|
                            0 <= k < self.inner@.len() && self.inner@[k].addr == a {
                            let k = choose|k: int|
                                0 <= k < self.inner@.len() && self.inner@[k].addr == a;
                            let m = if k < i { k } else { k + 1 };
                            assert(pre.inner@[m].addr == a);
                        }
                        if old(self)@.remove(addr).dom().contains(a) {
                            let m = choose|m: int|
                                0 <= m < pre.inner@.len() && pre.inner@[m].addr == a;
                            let k = if m < i { m } else { m - 1 };
                            assert(m != i as int);
                            assert(self.inner@[k].addr == a);
                        }
                    }
                    assert forall|a: SocketAddr| #[trigger]
                        final(self)@.dom().contains(a) implies final(self)@[a] == old(
                            self,
                        )@.remove(addr)[a] by {
                        let k = choose|k: int|
                            0 <= k < self.inner@.len() && self.inner@[k].addr == a;
                        self.lemma_index_view(k);
                        let m = if k < i { k } else { k + 1 };
                        assert(pre.inner@[m] == self.inner@[k]);
                        pre.lemma_index_view(m);
                    }
                    assert(final(self)@ =~= old(self)@.remove(addr));
                }
                true
            },
        }
    }
}

/// Adds with saturation at the numeric bound.
pub fn sat_add(a: u64, b: u64) -> (r: u64)
    ensures
        r == spec_sat_add(a, b),
{
    if a <= u64::MAX - b {
        a + b
    } else {
        u64::MAX
    }
}

} // verus!
