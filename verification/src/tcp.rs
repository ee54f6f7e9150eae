//! The central object responsible for handling connections.
//!
//! `Tcp` composes the configuration, the listening address, the handler
//! slots, the connecting set, the active set, the per-peer statistics, the
//! node statistics and the background-task handles. Its methods are the
//! state transitions of the connection lifecycle; the dials, accepts,
//! handler round-trips and aborts that happen between them are performed
//! by the embedder, which reports each outcome back through the matching
//! transition.

use vstd::prelude::*;

use crate::addr::{spec_is_loopback, SocketAddr};
use crate::config::{Config, ConfigView};
use crate::connection::{Connection, ConnectionSide, ConnectionView};
use crate::connections::Connections;
use crate::decimal::{spec_decimal, u64_to_decimal};
use crate::error::TcpError;
use crate::known_peers::{
    spec_sat_add, spec_with_connect, spec_with_failure, spec_with_received, spec_with_sent,
    spec_with_sighting, KnownPeers, PeerStats,
};
use crate::protocols::Protocols;
use crate::stats::{spec_zero_stats, Stats};

verus! {

/// The ghost value of a `Tcp` node.
#[verifier::ext_equal]
pub struct TcpView {
    pub config: ConfigView,
    pub listening_addr: Option<SocketAddr>,
    pub protocols: Protocols,
    pub connecting: Seq<SocketAddr>,
    pub connections: Map<SocketAddr, ConnectionView>,
    pub known_peers: Map<SocketAddr, PeerStats>,
    pub stats: Stats,
    pub tasks: Seq<u64>,
}

impl TcpView {
    /// Whether the address has a fully established connection.
    pub open spec fn is_connected(self, addr: SocketAddr) -> bool {
        self.connections.dom().contains(addr)
    }

    /// Whether a connection with the address is being set up.
    pub open spec fn is_connecting(self, addr: SocketAddr) -> bool {
        self.connecting.contains(addr)
    }

    /// The number of active connections.
    pub open spec fn num_connected(self) -> nat {
        self.connections.dom().len()
    }

    /// The number of pending connections.
    pub open spec fn num_connecting(self) -> nat {
        self.connecting.len()
    }

    /// The node invariant.
    ///
    /// Every address is in the connecting set, in the active set, or in
    /// neither, never in both; the two populations together never exceed
    /// the configured bound; the name assigned at construction is present;
    /// and the listening address agrees with the configuration.
    pub open spec fn wf(self) -> bool {
        &&& self.config.wf()
        &&& self.config.name is Some
        &&& self.connecting.no_duplicates()
        &&& self.connections.dom().finite()
        &&& forall|a: SocketAddr|
            self.connecting.contains(a) ==> !(#[trigger] self.connections.dom().contains(a))
        &&& forall|a: SocketAddr| #[trigger]
            self.connections.dom().contains(a) ==> self.connections[a].addr == a
        &&& self.num_connected() + self.num_connecting() <= self.config.max_connections
        &&& (self.listening_addr is Some <==> self.config.listener_ip is Some)
        &&& (match self.listening_addr {
            Some(la) => self.config.listener_ip == Some(la.ip),
            None => true,
        })
    }

    /// Whether a new connection may be admitted: both the active count and
    /// the combined active and pending count must lie under the bound.
    pub open spec fn can_add(self) -> bool {
        self.num_connected() < self.config.max_connections && self.num_connected()
            + self.num_connecting() < self.config.max_connections
    }

    /// Whether the target of a connect is the node's own listening
    /// address: equal to it outright, or a loopback address with our
    /// listening port.
    pub open spec fn is_self_dial(self, addr: SocketAddr) -> bool {
        match self.listening_addr {
            Some(la) => addr == la || (spec_is_loopback(addr.ip) && addr.port == la.port),
            None => false,
        }
    }

    /// What a connect of the address returns, in the order the checks are
    /// made: self-dial, admission, duplicates.
    pub open spec fn connect_result(self, addr: SocketAddr) -> Result<(), TcpError> {
        if self.is_self_dial(addr) {
            Err(TcpError::AddrInUse)
        } else if !self.can_add() {
            Err(TcpError::PermissionDenied)
        } else if self.is_connected(addr) || self.is_connecting(addr) {
            Err(TcpError::AlreadyExists)
        } else {
            Ok(())
        }
    }

    /// The state after a connect of the address was admitted or refused:
    /// exactly on success the address enters the connecting set.
    pub open spec fn connect_state(self, addr: SocketAddr) -> TcpView {
        if self.connect_result(addr) is Ok {
            TcpView { connecting: self.connecting.push(addr), ..self }
        } else {
            self
        }
    }

    /// The state after an inbound connection from the address was offered:
    /// when admitted, the address enters the connecting set, unless it is
    /// already connecting (the duplicate is silently coalesced) or already
    /// connected (the race is left for the active set to resolve).
    pub open spec fn accept_state(self, addr: SocketAddr) -> TcpView {
        if self.can_add() && !self.is_connecting(addr) && !self.is_connected(addr) {
            TcpView { connecting: self.connecting.push(addr), ..self }
        } else {
            self
        }
    }

    /// The connecting set with the address taken out.
    pub open spec fn connecting_removed(self, addr: SocketAddr) -> Seq<SocketAddr> {
        if self.is_connecting(addr) {
            self.connecting.remove(self.connecting.index_of(addr))
        } else {
            self.connecting
        }
    }

    /// The state after a dial of the address failed: the address leaves
    /// the connecting set, and the dial error is the caller's to
    /// propagate.
    pub open spec fn dial_failed_state(self, addr: SocketAddr) -> TcpView {
        TcpView { connecting: self.connecting_removed(addr), ..self }
    }

    /// The state after the pipeline failed for the address: it leaves the
    /// connecting set and a failure is recorded against it, in the peer's
    /// entry and in the node's counters.
    pub open spec fn pipeline_failed_state(self, addr: SocketAddr) -> TcpView {
        TcpView {
            connecting: self.connecting_removed(addr),
            known_peers: self.known_peers.insert(addr, spec_with_failure(self.known_peers, addr)),
            stats: Stats { failures: spec_sat_add(self.stats.failures, 1), ..self.stats },
            ..self
        }
    }

    /// The state after the pipeline completed for a connection: it is
    /// installed in the active set (its readiness notifier taken out), its
    /// address leaves the connecting set, and the set-up is counted in the
    /// peer's entry.
    pub open spec fn finalize_state(self, conn: ConnectionView) -> TcpView {
        TcpView {
            connections: self.connections.insert(
                conn.addr,
                ConnectionView { readiness_notifier: None, ..conn },
            ),
            connecting: self.connecting_removed(conn.addr),
            known_peers: self.known_peers.insert(
                conn.addr,
                spec_with_connect(self.known_peers, conn.addr),
            ),
            ..self
        }
    }
}

/// Removing one element of a duplicate-free sequence keeps it
/// duplicate-free and removes exactly that element.
proof fn lemma_remove_element(s: Seq<SocketAddr>, i: int)
    requires
        s.no_duplicates(),
        0 <= i < s.len(),
    ensures
        s.remove(i).no_duplicates(),
        forall|a: SocketAddr| s.remove(i).contains(a) <==> (s.contains(a) && a != s[i]),
{
    s.remove_ensures(i);
    let t = s.remove(i);
    assert forall|k: int, m: int| 0 <= k < m < t.len() implies t[k] != t[m] by {
        let k0 = if k < i { k } else { k + 1 };
        let m0 = if m < i { m } else { m + 1 };
        assert(t[k] == s[k0] && t[m] == s[m0]);
    }
    assert forall|a: SocketAddr| t.contains(a) <==> (s.contains(a) && a != s[i]) by {
        if t.contains(a) {
            let k = choose|k: int| 0 <= k < t.len() && t[k] == a;
            let k0 = if k < i { k } else { k + 1 };
            assert(s[k0] == a);
            assert(k0 != i);
        }
        if s.contains(a) && a != s[i] {
            let k0 = choose|k0: int| 0 <= k0 < s.len() && s[k0] == a;
            let k = if k0 < i { k0 } else { k0 - 1 };
            assert(t[k] == a);
        }
    }
}

impl Tcp {
    /// Whether an additional connection may be admitted: both the active
    /// count and the combined active and pending count must lie under the
    /// configured bound.
    fn can_add_connection(&self) -> (r: bool)
        requires
            self.wf(),
        ensures
            r == self@.can_add(),
    {
        proof {
            self.connections.lemma_dom_len();
        }
        let num_connected = self.connections.num_connected();
        let limit = self.config.max_connections as usize;
        if num_connected >= limit {
            false
        } else if num_connected + self.connecting.len() >= limit {
            false
        } else {
            true
        }
    }

    /// Admits an outbound connection to the provided address and reserves
    /// it in the connecting set. The checks are made in order: dialing our
    /// own listening address (or a loopback alias of it) is an address in
    /// use; a full node refuses admission; an address already connected or
    /// connecting already exists. On success the embedder dials the
    /// address and drives the pipeline, reporting the outcome through
    /// `dial_failed`, `pipeline_failed` or `finalize_connection`.
    pub fn connect(&mut self, addr: SocketAddr) -> (r: Result<(), TcpError>)
        requires
            old(self).wf(),
        ensures
            final(self).wf(),
            r == old(self)@.connect_result(addr),
            final(self)@ == old(self)@.connect_state(addr),
    {
        if let Ok(listening_addr) = self.listening_addr() {
            if addr == listening_addr || (addr.ip.is_loopback() && addr.port
                == listening_addr.port) {
                return Err(TcpError::AddrInUse);
            }
        }
        if !self.can_add_connection() {
            return Err(TcpError::PermissionDenied);
        }
        if self.is_connected(addr) {
            return Err(TcpError::AlreadyExists);
        }
        if self.is_connecting(addr) {
            return Err(TcpError::AlreadyExists);
        }
        proof {
            self.connections.lemma_dom_len();
        }
        self.connecting.push(addr);
        Ok(())
    }

    /// Handles an offered inbound connection from the address: admits or
    /// refuses it, and on admission reserves the address in the connecting
    /// set (silently coalescing a duplicate). When this returns true, the
    /// embedder spawns the pipeline for the accepted stream; when false,
    /// it drops the stream.
    pub fn handle_connection(&mut self, addr: SocketAddr) -> (accepted: bool)
        requires
            old(self).wf(),
        ensures
            final(self).wf(),
            accepted == old(self)@.can_add(),
            final(self)@ == old(self)@.accept_state(addr),
    {
        if !self.can_add_connection() {
            return false;
        }
        if !self.is_connecting(addr) && !self.is_connected(addr) {
            proof {
                self.connections.lemma_dom_len();
            }
            self.connecting.push(addr);
        }
        true
    }

    /// Takes the address out of the connecting set after its dial failed;
    /// the dial error itself is the caller's to propagate.
    pub fn dial_failed(&mut self, addr: SocketAddr)
        requires
            old(self).wf(),
        ensures
            final(self).wf(),
            final(self)@ == old(self)@.dial_failed_state(addr),
    {
        self.remove_connecting(addr);
    }

    /// Takes the address out of the connecting set after its pipeline
    /// failed, and records the failure against the peer and in the node's
    /// counters.
    pub fn pipeline_failed(&mut self, addr: SocketAddr)
        requires
            old(self).wf(),
        ensures
            final(self).wf(),
            final(self)@ == old(self)@.pipeline_failed_state(addr),
    {
        self.remove_connecting(addr);
        self.known_peers.register_failure(addr);
        self.stats.register_failure();
    }

    /// Takes the address out of the connecting set, if present.
    fn remove_connecting(&mut self, addr: SocketAddr)
        requires
            old(self).wf(),
        ensures
            final(self).wf(),
            final(self)@ == (TcpView {
                connecting: old(self)@.connecting_removed(addr),
                ..old(self)@
            }),
    {
        match self.connecting_position(addr) {
            Some(i) => {
                proof {
                    let s = self@.connecting;
                    lemma_remove_element(s, i as int);
                    let j = s.index_of(addr);
                    assert(s.contains(addr));
                    assert(0 <= j < s.len() && s[j] == addr);
                    assert(j == i);
                }
                self.connecting.remove(i);
            },
            None => {
                proof {
                    assert(final(self)@ =~= (TcpView {
                        connecting: old(self)@.connecting_removed(addr),
                        ..old(self)@
                    }));
                }
            },
        }
    }

    /// Starts the pipeline for a freshly dialed or accepted stream:
    /// registers a sighting of the peer (at the embedder's clock value
    /// `now`) and wraps the stream in a connection that stores the peer's
    /// side, the negation of our own.
    pub fn begin_connection(
        &mut self,
        addr: SocketAddr,
        now: u64,
        stream: u64,
        own_side: ConnectionSide,
    ) -> (conn: Connection)
        requires
            old(self).wf(),
        ensures
            final(self).wf(),
            final(self)@ == (TcpView {
                known_peers: old(self)@.known_peers.insert(
                    addr,
                    spec_with_sighting(old(self)@.known_peers, addr, now),
                ),
                ..old(self)@
            }),
            conn.wf(),
            conn@ == (ConnectionView {
                addr,
                side: own_side.spec_flip(),
                stream: Some(stream),
                reader: None,
                writer: None,
                tasks: Seq::<u64>::empty(),
                readiness_notifier: None,
            }),
    {
        self.known_peers.add(addr, now);
        Connection::new(addr, stream, own_side.flip())
    }

    /// Installs a connection whose pipeline completed: it becomes visible
    /// in the active set, then its address leaves the connecting set, and
    /// the readiness notifier (if the reading handler installed one) is
    /// returned for the embedder to fire, in that order, so that a reader
    /// released by the notifier already observes the connection as active.
    pub fn finalize_connection(&mut self, conn: Connection) -> (notifier: Option<u64>)
        requires
            old(self).wf(),
            conn.wf(),
            old(self)@.is_connecting(conn@.addr),
        ensures
            final(self).wf(),
            notifier == conn@.readiness_notifier,
            final(self)@ == old(self)@.finalize_state(conn@),
            final(self)@.is_connected(conn@.addr),
            !final(self)@.is_connecting(conn@.addr),
    {
        let mut conn = conn;
        let addr = conn.addr();
        let notifier = conn.take_readiness_notifier();
        self.known_peers.register_connection(addr);
        proof {
            self.connections.lemma_dom_len();
        }
        self.connections.add(conn);
        self.remove_connecting_present(addr);
        proof {
            assert(final(self)@.connections =~= old(self)@.finalize_state(conn@).connections);
            assert(final(self)@.connections.dom() =~= old(self)@.connections.dom().insert(addr));
            vstd::set::axiom_set_insert_len(old(self)@.connections.dom(), addr);
            assert(final(self)@.num_connected() == old(self)@.num_connected() + 1);
            assert(final(self)@.num_connecting() == old(self)@.num_connecting() - 1);
            assert forall|a: SocketAddr|
                final(self)@.connecting.contains(a) implies !(
            #[trigger] final(self)@.connections.dom().contains(a)) by {
                assert(old(self)@.connecting.contains(a) && a != addr);
            }
        }
        notifier
    }

    /// Takes the address out of the connecting set; unlike
    /// `remove_connecting`, the caller knows it is present. The active set
    /// may already hold the address here, mid-installation.
    fn remove_connecting_present(&mut self, addr: SocketAddr)
        requires
            old(self)@.is_connecting(addr),
            old(self)@.connecting.no_duplicates(),
        ensures
            final(self).connections == old(self).connections,
            final(self).known_peers == old(self).known_peers,
            final(self)@ == (TcpView {
                connecting: old(self)@.connecting_removed(addr),
                ..old(self)@
            }),
            final(self)@.connecting.no_duplicates(),
            forall|a: SocketAddr|
                final(self)@.connecting.contains(a) <==> (old(self)@.connecting.contains(a) && a
                    != addr),
    {
        match self.connecting_position(addr) {
            Some(i) => {
                proof {
                    let s = self@.connecting;
                    lemma_remove_element(s, i as int);
                    let j = s.index_of(addr);
                    assert(0 <= j < s.len() && s[j] == addr);
                    assert(j == i);
                }
                self.connecting.remove(i);
            },
            None => {
                proof {
                    assert(false);
                }
            },
        }
    }

    /// Records one message of `size` bytes sent to the peer, in the node's
    /// counters and in the peer's entry; for the writing handler to call.
    pub fn register_sent_message(&mut self, addr: SocketAddr, size: u64)
        requires
            old(self).wf(),
        ensures
            final(self).wf(),
            final(self)@ == (TcpView {
                known_peers: old(self)@.known_peers.insert(
                    addr,
                    spec_with_sent(old(self)@.known_peers, addr, size),
                ),
                stats: Stats {
                    msgs_sent: spec_sat_add(old(self)@.stats.msgs_sent, 1),
                    bytes_sent: spec_sat_add(old(self)@.stats.bytes_sent, size),
                    ..old(self)@.stats
                },
                ..old(self)@
            }),
    {
        self.known_peers.register_sent_message(addr, size);
        self.stats.register_sent_message(size);
    }

    /// Records one message of `size` bytes received from the peer, in the
    /// node's counters and in the peer's entry; for the reading handler to
    /// call.
    pub fn register_received_message(&mut self, addr: SocketAddr, size: u64)
        requires
            old(self).wf(),
        ensures
            final(self).wf(),
            final(self)@ == (TcpView {
                known_peers: old(self)@.known_peers.insert(
                    addr,
                    spec_with_received(old(self)@.known_peers, addr, size),
                ),
                stats: Stats {
                    msgs_received: spec_sat_add(old(self)@.stats.msgs_received, 1),
                    bytes_received: spec_sat_add(old(self)@.stats.bytes_received, size),
                    ..old(self)@.stats
                },
                ..old(self)@
            }),
    {
        self.known_peers.register_received_message(addr, size);
        self.stats.register_received_message(size);
    }

    /// Fills the handshake handler slot; fails if it was already set.
    pub fn enable_handshake(&mut self, handler: u64) -> (r: Result<(), TcpError>)
        requires
            old(self).wf(),
        ensures
            final(self).wf(),
            r is Ok <==> old(self)@.protocols.handshake is None,
            r is Ok ==> final(self)@ == (TcpView {
                protocols: Protocols { handshake: Some(handler), ..old(self)@.protocols },
                ..old(self)@
            }),
            r is Err ==> final(self)@ == old(self)@ && r == Err::<(), TcpError>(
                TcpError::AlreadyExists,
            ),
    {
        self.protocols.set_handshake(handler)
    }

    /// Fills the reading handler slot; fails if it was already set.
    pub fn enable_reading(&mut self, handler: u64) -> (r: Result<(), TcpError>)
        requires
            old(self).wf(),
        ensures
            final(self).wf(),
            r is Ok <==> old(self)@.protocols.reading is None,
            r is Ok ==> final(self)@ == (TcpView {
                protocols: Protocols { reading: Some(handler), ..old(self)@.protocols },
                ..old(self)@
            }),
            r is Err ==> final(self)@ == old(self)@ && r == Err::<(), TcpError>(
                TcpError::AlreadyExists,
            ),
    {
        self.protocols.set_reading(handler)
    }

    /// Fills the writing handler slot; fails if it was already set.
    pub fn enable_writing(&mut self, handler: u64) -> (r: Result<(), TcpError>)
        requires
            old(self).wf(),
        ensures
            final(self).wf(),
            r is Ok <==> old(self)@.protocols.writing is None,
            r is Ok ==> final(self)@ == (TcpView {
                protocols: Protocols { writing: Some(handler), ..old(self)@.protocols },
                ..old(self)@
            }),
            r is Err ==> final(self)@ == old(self)@ && r == Err::<(), TcpError>(
                TcpError::AlreadyExists,
            ),
    {
        self.protocols.set_writing(handler)
    }

    /// Fills the disconnect handler slot; fails if it was already set.
    pub fn enable_disconnect(&mut self, handler: u64) -> (r: Result<(), TcpError>)
        requires
            old(self).wf(),
        ensures
            final(self).wf(),
            r is Ok <==> old(self)@.protocols.disconnect is None,
            r is Ok ==> final(self)@ == (TcpView {
                protocols: Protocols { disconnect: Some(handler), ..old(self)@.protocols },
                ..old(self)@
            }),
            r is Err ==> final(self)@ == old(self)@ && r == Err::<(), TcpError>(
                TcpError::AlreadyExists,
            ),
    {
        self.protocols.set_disconnect(handler)
    }
}

/// The central object: the node's state, transitioned by the connection
/// lifecycle.
pub struct Tcp {
    /// The node's configuration; its name is always present, assigned at
    /// construction when the embedder gave none.
    config: Config,
    /// The node's listening address, discovered at bind time.
    listening_addr: Option<SocketAddr>,
    /// The optional protocol-handler slots.
    protocols: Protocols,
    /// Addresses whose connections are being set up but are not active
    /// yet.
    connecting: Vec<SocketAddr>,
    /// The active connections.
    connections: Connections,
    /// Statistics of known peers.
    known_peers: KnownPeers,
    /// Statistics of the node itself.
    stats: Stats,
    /// Handles of the node's background tasks, the listener first.
    tasks: Vec<u64>,
}

impl View for Tcp {
    type V = TcpView;

    closed spec fn view(&self) -> TcpView {
        TcpView {
            config: self.config@,
            listening_addr: self.listening_addr,
            protocols: self.protocols,
            connecting: self.connecting@,
            connections: self.connections@,
            known_peers: self.known_peers@,
            stats: self.stats,
            tasks: self.tasks@,
        }
    }
}

impl Tcp {
    /// The node invariant, together with the well-formedness of the
    /// backing stores.
    pub closed spec fn wf(self) -> bool {
        &&& self.connections.wf()
        &&& self.known_peers.wf()
        &&& self@.wf()
    }

    /// A well-formed node has a well-formed ghost value.
    pub proof fn lemma_wf(self)
        requires
            self.wf(),
        ensures
            self@.wf(),
    {
    }

    /// Creates a node from its configuration, the identifier to name it by
    /// when the configuration carries no name, and the port the embedder's
    /// listener was bound to (present exactly when a listener IP is
    /// configured; the bind itself follows `Config::bind_plan`).
    ///
    /// The node starts with no handlers, no connections and no tasks; the
    /// embedder registers the listening task it spawns as the first task.
    pub fn new(config: Config, assigned_id: u64, bound_port: Option<u16>) -> (tcp: Tcp)
        requires
            config.wf(),
            bound_port is Some <==> config.listener_ip is Some,
        ensures
            tcp.wf(),
            tcp@ == (TcpView {
                config: ConfigView {
                    name: if config@.name is Some {
                        config@.name
                    } else {
                        Some(spec_decimal(assigned_id as nat))
                    },
                    ..config@
                },
                listening_addr: spec_bound_addr(config@, bound_port),
                protocols: Protocols {
                    handshake: None,
                    reading: None,
                    writing: None,
                    disconnect: None,
                },
                connecting: Seq::<SocketAddr>::empty(),
                connections: Map::<SocketAddr, ConnectionView>::empty(),
                known_peers: Map::<SocketAddr, PeerStats>::empty(),
                stats: spec_zero_stats(),
                tasks: Seq::<u64>::empty(),
            }),
    {
        let mut config = config;
        if config.name.is_none() {
            config.name = Some(u64_to_decimal(assigned_id));
        }
        let listening_addr = match (&config.listener_ip, &bound_port) {
            (Some(ip), Some(port)) => Some(SocketAddr { ip: *ip, port: *port }),
            _ => None,
        };
        let tcp = Tcp {
            config,
            listening_addr,
            protocols: Protocols::new(),
            connecting: Vec::new(),
            connections: Connections::new(),
            known_peers: KnownPeers::new(),
            stats: Stats::new(),
            tasks: Vec::new(),
        };
        proof {
            assert(tcp@.connections.dom() =~= Set::<SocketAddr>::empty());
        }
        tcp
    }

    /// The name assigned to the node.
    pub fn name(&self) -> (r: &str)
        requires
            self.wf(),
        ensures
            self@.config.name == Some(r@),
    {
        self.config.name.as_ref().unwrap().as_str()
    }

    /// The node's configuration.
    pub fn config(&self) -> (r: &Config)
        ensures
            r@ == self@.config,
    {
        &self.config
    }

    /// The listening address; fails when the node was not configured to
    /// listen for inbound connections.
    pub fn listening_addr(&self) -> (r: Result<SocketAddr, TcpError>)
        ensures
            r == match self@.listening_addr {
                Some(la) => Ok::<SocketAddr, TcpError>(la),
                None => Err::<SocketAddr, TcpError>(TcpError::AddrNotAvailable),
            },
    {
        match &self.listening_addr {
            Some(la) => Ok(*la),
            None => Err(TcpError::AddrNotAvailable),
        }
    }

    /// Whether the provided address is connected.
    pub fn is_connected(&self, addr: SocketAddr) -> (r: bool)
        requires
            self.wf(),
        ensures
            r == self@.is_connected(addr),
    {
        self.connections.is_connected(addr)
    }

    /// The index of the address in the connecting set, if present.
    fn connecting_position(&self, addr: SocketAddr) -> (r: Option<usize>)
        ensures
            match r {
                Some(i) => i < self@.connecting.len() && self@.connecting[i as int] == addr,
                None => !self@.is_connecting(addr),
            },
    {
        let n = self.connecting.len();
        let mut i: usize = 0;
        while i < n
            invariant
                n == self.connecting@.len(),
                i <= n,
                forall|k: int| 0 <= k < i ==> self.connecting@[k] != addr,
            decreases n - i,
        {
            if self.connecting[i] == addr {
                return Some(i);
            }
            i = i + 1;
        }
        None
    }

    /// Whether the node is currently setting up a connection with the
    /// provided address.
    pub fn is_connecting(&self, addr: SocketAddr) -> (r: bool)
        ensures
            r == self@.is_connecting(addr),
    {
        self.connecting_position(addr).is_some()
    }

    /// The number of active connections.
    pub fn num_connected(&self) -> (r: usize)
        requires
            self.wf(),
        ensures
            r == self@.num_connected(),
    {
        proof {
            self.connections.lemma_dom_len();
        }
        self.connections.num_connected()
    }

    /// The number of connections that are currently being set up.
    pub fn num_connecting(&self) -> (r: usize)
        ensures
            r == self@.num_connecting(),
    {
        self.connecting.len()
    }

    /// The addresses of the active connections.
    pub fn connected_addrs(&self) -> (r: Vec<SocketAddr>)
        requires
            self.wf(),
        ensures
            r@.len() == self@.num_connected(),
            r@.no_duplicates(),
            forall|a: SocketAddr| r@.contains(a) <==> self@.is_connected(a),
    {
        proof {
            self.connections.lemma_dom_len();
        }
        self.connections.addrs()
    }

    /// The addresses of the pending connections.
    pub fn connecting_addrs(&self) -> (r: Vec<SocketAddr>)
        ensures
            r@ == self@.connecting,
    {
        let n = self.connecting.len();
        let mut r: Vec<SocketAddr> = Vec::new();
        let mut i: usize = 0;
        while i < n
            invariant
                n == self.connecting@.len(),
                i <= n,
                r@ == self.connecting@.subrange(0, i as int),
            decreases n - i,
        {
            r.push(self.connecting[i]);
            proof {
                assert(r@ =~= self.connecting@.subrange(0, i + 1 as int));
            }
            i = i + 1;
        }
        proof {
            assert(r@ =~= self.connecting@);
        }
        r
    }

    /// The statistics of known peers.
    pub fn known_peers(&self) -> (r: &KnownPeers)
        requires
            self.wf(),
        ensures
            r.wf(),
            r@ == self@.known_peers,
    {
        &self.known_peers
    }

    /// The node's own statistics.
    pub fn stats(&self) -> (r: &Stats)
        ensures
            *r == self@.stats,
    {
        &self.stats
    }

    /// The protocol-handler slots.
    pub fn protocols(&self) -> (r: &Protocols)
        ensures
            *r == self@.protocols,
    {
        &self.protocols
    }

    /// Registers a background task of the node itself; the embedder
    /// registers its listening task first, so that shutdown aborts it
    /// before any other.
    pub fn register_task(&mut self, task: u64)
        requires
            old(self).wf(),
        ensures
            final(self).wf(),
            final(self)@ == (TcpView { tasks: old(self)@.tasks.push(task), ..old(self)@ }),
    {
        self.tasks.push(task);
    }
}

impl TcpView {
    /// The state after a disconnect of the address: its connection leaves
    /// the active set, and when the stored side is Responder (the node
    /// itself initiated the connection) the peer's statistics entry is
    /// removed with it. An address that is not connected changes nothing.
    pub open spec fn disconnect_state(self, addr: SocketAddr) -> TcpView {
        if self.is_connected(addr) {
            TcpView {
                connections: self.connections.remove(addr),
                known_peers: if self.connections[addr].side is Responder {
                    self.known_peers.remove(addr)
                } else {
                    self.known_peers
                },
                ..self
            }
        } else {
            self
        }
    }

    /// The state after a shutdown: no tasks, no pending and no active
    /// connections, and the statistics entries of the peers the node had
    /// initiated connections with are gone, as each disconnect removes
    /// them.
    pub open spec fn shut_down_state(self) -> TcpView {
        TcpView {
            connections: Map::<SocketAddr, ConnectionView>::empty(),
            connecting: Seq::<SocketAddr>::empty(),
            tasks: Seq::<u64>::empty(),
            known_peers: Map::new(
                |a: SocketAddr|
                    self.known_peers.dom().contains(a) && !(self.connections.dom().contains(a)
                        && self.connections[a].side is Responder),
                |a: SocketAddr| self.known_peers[a],
            ),
            ..self
        }
    }
}

/// What a shutdown hands back to the embedder to abort: the node's own
/// task handles (the listener first) and the torn-down connections, each
/// with its attached tasks, to be aborted in their reverse insertion
/// order.
pub struct ShutdownEffects {
    /// The node's background tasks, in registration order.
    pub tasks: Vec<u64>,
    /// The connections that were active, in no particular order.
    pub connections: Vec<Connection>,
}

impl Tcp {
    /// Whether a disconnect of the address should first trigger the
    /// disconnect handler: the slot is set and the address is connected.
    pub fn should_notify_disconnect(&self, addr: SocketAddr) -> (r: bool)
        requires
            self.wf(),
        ensures
            r == (self@.protocols.disconnect is Some && self@.is_connected(addr)),
    {
        self.protocols.disconnect.is_some() && self.is_connected(addr)
    }

    /// Disconnects from the provided address: removes and returns its
    /// connection, so that the embedder aborts the attached tasks in their
    /// reverse insertion order (`Connection::abort_order`). Returns None,
    /// changing nothing, when the address was not connected. When the
    /// stored side is Responder (the node itself initiated the
    /// connection), the peer's statistics entry is removed too.
    pub fn disconnect(&mut self, addr: SocketAddr) -> (r: Option<Connection>)
        requires
            old(self).wf(),
        ensures
            final(self).wf(),
            r is Some <==> old(self)@.is_connected(addr),
            r matches Some(conn) ==> conn@ == old(self)@.connections[addr] && conn.wf(),
            final(self)@ == old(self)@.disconnect_state(addr),
            !final(self)@.is_connected(addr),
    {
        proof {
            self.connections.lemma_dom_len();
        }
        let conn = self.connections.remove(addr);
        match conn {
            Some(conn) => {
                if matches!(conn.side(), ConnectionSide::Responder) {
                    self.known_peers.remove(addr);
                }
                proof {
                    vstd::set::axiom_set_remove_len(old(self)@.connections.dom(), addr);
                    assert(final(self)@.num_connected() == old(self)@.num_connected() - 1);
                    assert forall|a: SocketAddr|
                        final(self)@.connecting.contains(a) implies !(
                    #[trigger] final(self)@.connections.dom().contains(a)) by {
                        assert(!old(self)@.connections.dom().contains(a));
                    }
                }
                Some(conn)
            },
            None => {
                proof {
                    assert(final(self)@ =~= old(self)@.disconnect_state(addr));
                }
                None
            },
        }
    }

    /// Gracefully shuts the node down: hands back every task handle (the
    /// listener first, so the embedder aborts it before anything else) and
    /// every active connection, torn down as by `disconnect`, and empties
    /// the connecting set. Afterwards nothing is connected, nothing is
    /// connecting and no task handle is held, and a repeated shutdown is a
    /// no-op.
    pub fn shut_down(&mut self) -> (effects: ShutdownEffects)
        requires
            old(self).wf(),
        ensures
            final(self).wf(),
            final(self)@ == old(self)@.shut_down_state(),
            final(self)@.num_connected() == 0,
            final(self)@.num_connecting() == 0,
            final(self)@.tasks.len() == 0,
            effects.tasks@ == old(self)@.tasks,
            effects.connections@.len() == old(self)@.num_connected(),
            forall|k: int| #![auto]
                0 <= k < effects.connections@.len() ==> old(self)@.is_connected(
                    effects.connections@[k]@.addr,
                ) && effects.connections@[k]@ == old(self)@.connections[effects.connections@[k]@.addr],
            forall|a: SocketAddr| #[trigger]
                old(self)@.is_connected(a) ==> exists|k: int|
                    0 <= k < effects.connections@.len() && effects.connections@[k]@.addr == a,
    {
        proof {
            self.connections.lemma_dom_len();
        }
        let mut tasks: Vec<u64> = Vec::new();
        core::mem::swap(&mut tasks, &mut self.tasks);
        let conns = self.connections.drain();
        self.connecting = Vec::new();
        let ghost pre = old(self)@;
        let n = conns.len();
        let mut i: usize = 0;
        while i < n
            invariant
                i <= n,
                n == conns@.len(),
                self.connections.wf(),
                self.connections@ == Map::<SocketAddr, ConnectionView>::empty(),
                self.connecting@ == Seq::<SocketAddr>::empty(),
                self.tasks@ == Seq::<u64>::empty(),
                self.config@ == pre.config,
                self.listening_addr == pre.listening_addr,
                self.protocols == pre.protocols,
                self.stats == pre.stats,
                self.known_peers.wf(),
                forall|k: int, m: int| 0 <= k < m < n ==> conns@[k]@.addr != conns@[m]@.addr,
                forall|k: int| #![auto]
                    0 <= k < n ==> pre.connections.dom().contains(conns@[k]@.addr)
                        && pre.connections[conns@[k]@.addr] == conns@[k]@,
                self.known_peers@ == Map::new(
                    |a: SocketAddr|
                        pre.known_peers.dom().contains(a) && !(exists|k: int|
                            0 <= k < i && conns@[k]@.addr == a && conns@[k]@.side
                                is Responder),
                    |a: SocketAddr| pre.known_peers[a],
                ),
            decreases n - i,
        {
            let ghost kp_before = self.known_peers@;
            if matches!(conns[i].side(), ConnectionSide::Responder) {
                self.known_peers.remove(conns[i].addr());
            }
            proof {
                let inext = i + 1 as int;
                assert(self.known_peers@ =~= Map::new(
                    |a: SocketAddr|
                        pre.known_peers.dom().contains(a) && !(exists|k: int|
                            0 <= k < inext && conns@[k]@.addr == a && conns@[k]@.side
                                is Responder),
                    |a: SocketAddr| pre.known_peers[a],
                )) by {
                    assert forall|a: SocketAddr| #![trigger pre.known_peers.dom().contains(a)]
                        (exists|k: int|
                            0 <= k < inext && conns@[k]@.addr == a && conns@[k]@.side
                                is Responder) <==> ((exists|k: int|
                            0 <= k < i && conns@[k]@.addr == a && conns@[k]@.side is Responder)
                            || (conns@[i as int]@.addr == a && conns@[i as int]@.side
                            is Responder)) by {
                        if exists|k: int|
                            0 <= k < inext && conns@[k]@.addr == a && conns@[k]@.side
                                is Responder {
                            let k = choose|k: int|
                                0 <= k < inext && conns@[k]@.addr == a && conns@[k]@.side
                                    is Responder;
                            if k < i {
                                assert(exists|k: int|
                                    0 <= k < i && conns@[k]@.addr == a && conns@[k]@.side
                                        is Responder);
                            }
                        }
                    }
                }
            }
            i = i + 1;
        }
        proof {
            assert forall|a: SocketAddr|
                (exists|k: int|
                    0 <= k < n && conns@[k]@.addr == a && conns@[k]@.side is Responder) <==> (
            pre.connections.dom().contains(a) && pre.connections[a].side is Responder) by {
                if exists|k: int|
                    0 <= k < n && conns@[k]@.addr == a && conns@[k]@.side is Responder {
                    let k = choose|k: int|
                        0 <= k < n && conns@[k]@.addr == a && conns@[k]@.side is Responder;
                }
                if pre.connections.dom().contains(a) && pre.connections[a].side is Responder {
                    let k = choose|k: int| 0 <= k < conns@.len() && conns@[k]@.addr == a;
                    assert(conns@[k]@.side is Responder);
                }
            }
            assert(self@.known_peers =~= pre.shut_down_state().known_peers);
            assert(self@ =~= pre.shut_down_state());
            assert(self@.connections.dom() =~= Set::<SocketAddr>::empty());
        }
        ShutdownEffects { tasks, connections: conns }
    }
}

/// Every address is in the connecting set, in the active set, or in
/// neither, never in both.
pub proof fn lemma_address_partition(s: TcpView, addr: SocketAddr)
    requires
        s.wf(),
    ensures
        !(s.is_connecting(addr) && s.is_connected(addr)),
{
}

/// The populations respect the configured bound: the active count, and the
/// active and pending counts together, never exceed `max_connections`.
pub proof fn lemma_capacity_bound(s: TcpView)
    requires
        s.wf(),
    ensures
        s.num_connected() <= s.config.max_connections,
        s.num_connected() + s.num_connecting() <= s.config.max_connections,
{
}

/// A connected address stays connected across every transition except its
/// own disconnect or a shutdown: admitting another connect or accept, a
/// dial or pipeline failure of any address, finalizing any connection, and
/// disconnecting a different address all preserve it.
pub proof fn lemma_connected_until_disconnect(
    s: TcpView,
    addr: SocketAddr,
    other: SocketAddr,
    conn: ConnectionView,
)
    requires
        s.is_connected(addr),
    ensures
        s.connect_state(other).is_connected(addr),
        s.accept_state(other).is_connected(addr),
        s.dial_failed_state(other).is_connected(addr),
        s.pipeline_failed_state(other).is_connected(addr),
        s.finalize_state(conn).is_connected(addr),
        other != addr ==> s.disconnect_state(other).is_connected(addr),
{
}

/// A successfully admitted connect leaves the address connecting, and the
/// completion of its pipeline makes it connected; it stays connected until
/// its disconnect (`lemma_connected_until_disconnect`).
pub proof fn lemma_connect_then_finalize(s: TcpView, addr: SocketAddr, conn: ConnectionView)
    requires
        s.connect_result(addr) is Ok,
        conn.addr == addr,
    ensures
        s.connect_state(addr).is_connecting(addr),
        s.connect_state(addr).finalize_state(conn).is_connected(addr),
{
    let t = s.connect_state(addr);
    assert(t.connecting[t.connecting.len() - 1] == addr);
}

/// Disconnecting the same address twice removes it once: the second
/// disconnect finds nothing and leaves the state unchanged.
pub proof fn lemma_disconnect_idempotent(s: TcpView, addr: SocketAddr)
    ensures
        !s.disconnect_state(addr).is_connected(addr),
        s.disconnect_state(addr).disconnect_state(addr) == s.disconnect_state(addr),
{
}

/// Shutting down is idempotent: a second shutdown finds the empty
/// collections and changes nothing.
pub proof fn lemma_shut_down_idempotent(s: TcpView)
    ensures
        s.shut_down_state().shut_down_state() == s.shut_down_state(),
{
    let t = s.shut_down_state();
    assert(t.shut_down_state().known_peers =~= t.known_peers);
    assert(t.shut_down_state().connections =~= t.connections);
    assert(t.shut_down_state().connecting =~= t.connecting);
    assert(t.shut_down_state().tasks =~= t.tasks);
    assert(t.shut_down_state() =~= t);
}

/// The listening address resulting from a bind: the configured IP with the
/// port the embedder's listener reported.
pub open spec fn spec_bound_addr(c: ConfigView, bound_port: Option<u16>) -> Option<SocketAddr> {
    match (c.listener_ip, bound_port) {
        (Some(ip), Some(port)) => Some(SocketAddr { ip, port }),
        _ => None,
    }
}

} // verus!
