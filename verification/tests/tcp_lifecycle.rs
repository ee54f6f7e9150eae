//! Lifecycle tests of the `Tcp` node: admission, the connecting/active
//! partition, disconnects and shutdown.

use node_tcp::config::Config;
use node_tcp::connection::ConnectionSide;
use node_tcp::error::TcpError;
use node_tcp::protocols::PipelineStep;
use node_tcp::tcp::Tcp;
use node_tcp::{IpAddress, SocketAddr};

fn listening_config(max_connections: u16) -> Config {
    Config {
        name: None,
        listener_ip: Some(IpAddress::V4(0x7f00_0001)),
        desired_listening_port: None,
        allow_random_port: true,
        max_connections,
    }
}

fn listening_node(max_connections: u16, id: u64, port: u16) -> Tcp {
    Tcp::new(listening_config(max_connections), id, Some(port))
}

fn peer(n: u32) -> SocketAddr {
    SocketAddr::new(IpAddress::V4(0x0a00_0000 + n), 9000)
}

/// Establishes a connection with `addr` the way the embedder would: admit,
/// dial (assumed successful), run the pipeline, install.
fn establish(tcp: &mut Tcp, addr: SocketAddr, stream: u64) {
    tcp.connect(addr).expect("admission");
    let conn = tcp.begin_connection(addr, 0, stream, ConnectionSide::Initiator);
    let notifier = tcp.finalize_connection(conn);
    assert!(notifier.is_none());
}

#[test]
fn connect_reserves_address() {
    let mut tcp = listening_node(8, 0, 4130);
    let addr = peer(1);
    assert!(!tcp.is_connecting(addr));
    assert!(!tcp.is_connected(addr));
    tcp.connect(addr).expect("fresh connect is admitted");
    assert!(tcp.is_connecting(addr));
    assert!(!tcp.is_connected(addr));
    assert_eq!(tcp.num_connecting(), 1);
    assert_eq!(tcp.num_connected(), 0);
    assert_eq!(tcp.connecting_addrs(), vec![addr]);
}

#[test]
fn finalize_moves_address_to_active_set() {
    let mut tcp = listening_node(8, 0, 4130);
    let addr = peer(1);
    establish(&mut tcp, addr, 11);
    // the address is in the active set XOR the connecting set
    assert!(tcp.is_connected(addr));
    assert!(!tcp.is_connecting(addr));
    assert_eq!(tcp.num_connected(), 1);
    assert_eq!(tcp.num_connecting(), 0);
    assert_eq!(tcp.connected_addrs(), vec![addr]);
}

#[test]
fn self_dial_is_addr_in_use() {
    let mut tcp = listening_node(8, 0, 4130);
    let own = SocketAddr::new(IpAddress::V4(0x7f00_0001), 4130);
    assert_eq!(tcp.listening_addr(), Ok(own));
    assert_eq!(tcp.connect(own), Err(TcpError::AddrInUse));
    assert_eq!(tcp.num_connecting(), 0);
}

#[test]
fn loopback_alias_of_own_port_is_addr_in_use() {
    // bound to a specific non-loopback IP; loopback with the same port is
    // still refused
    let config = Config {
        name: None,
        listener_ip: Some(IpAddress::V4(0xc0a8_0102)),
        desired_listening_port: Some(4130),
        allow_random_port: false,
        max_connections: 8,
    };
    let mut tcp = Tcp::new(config, 0, Some(4130));
    let loopback_v4 = SocketAddr::new(IpAddress::V4(0x7f00_0001), 4130);
    let loopback_v6 = SocketAddr::new(IpAddress::V6(1), 4130);
    assert_eq!(tcp.connect(loopback_v4), Err(TcpError::AddrInUse));
    assert_eq!(tcp.connect(loopback_v6), Err(TcpError::AddrInUse));
    // a loopback address with another port is fine
    let other_port = SocketAddr::new(IpAddress::V4(0x7f00_0001), 4131);
    assert_eq!(tcp.connect(other_port), Ok(()));
}

#[test]
fn outbound_only_node_has_no_listening_addr() {
    let config = Config {
        name: None,
        listener_ip: None,
        desired_listening_port: None,
        allow_random_port: false,
        max_connections: 8,
    };
    let mut tcp = Tcp::new(config, 0, None);
    assert_eq!(tcp.listening_addr(), Err(TcpError::AddrNotAvailable));
    // without a listening address nothing is a self-dial
    assert_eq!(tcp.connect(peer(1)), Ok(()));
}

#[test]
fn capacity_counts_active_and_pending_together() {
    let mut tcp = listening_node(2, 0, 4130);
    tcp.connect(peer(1)).expect("first");
    tcp.connect(peer(2)).expect("second");
    // third concurrent pending connection is rejected
    assert_eq!(tcp.connect(peer(3)), Err(TcpError::PermissionDenied));
    assert_eq!(tcp.num_connecting(), 2);
}

#[test]
fn capacity_one_frees_up_after_disconnect() {
    let mut tcp = listening_node(1, 0, 4130);
    establish(&mut tcp, peer(1), 11);
    assert_eq!(tcp.connect(peer(2)), Err(TcpError::PermissionDenied));
    let removed = tcp.disconnect(peer(1));
    assert!(removed.is_some());
    assert_eq!(tcp.connect(peer(2)), Ok(()));
}

#[test]
fn duplicate_connect_already_exists() {
    let mut tcp = listening_node(8, 0, 4130);
    tcp.connect(peer(1)).expect("first");
    // a second connect before the first resolves
    assert_eq!(tcp.connect(peer(1)), Err(TcpError::AlreadyExists));
    // and one against an active connection
    let mut other = listening_node(8, 0, 4131);
    establish(&mut other, peer(2), 11);
    assert_eq!(other.connect(peer(2)), Err(TcpError::AlreadyExists));
}

#[test]
fn error_precedence_self_dial_before_capacity() {
    let mut tcp = listening_node(0, 0, 4130);
    let own = SocketAddr::new(IpAddress::V4(0x7f00_0001), 4130);
    // both conditions hold; the self-dial error wins
    assert_eq!(tcp.connect(own), Err(TcpError::AddrInUse));
    // capacity alone
    assert_eq!(tcp.connect(peer(1)), Err(TcpError::PermissionDenied));
}

#[test]
fn error_precedence_capacity_before_duplicate() {
    let mut tcp = listening_node(1, 0, 4130);
    establish(&mut tcp, peer(1), 11);
    // the admission check comes before the duplicate check, so a full node
    // refuses even an address that is already connected
    assert_eq!(tcp.connect(peer(1)), Err(TcpError::PermissionDenied));
}

#[test]
fn inbound_admission_and_coalescing() {
    let mut tcp = listening_node(2, 0, 4130);
    let addr = peer(1);
    assert!(tcp.handle_connection(addr));
    assert!(tcp.is_connecting(addr));
    // a duplicate offer is coalesced silently
    assert!(tcp.handle_connection(addr));
    assert_eq!(tcp.num_connecting(), 1);
    // beyond capacity the offer is refused
    assert!(tcp.handle_connection(peer(2)));
    assert!(!tcp.handle_connection(peer(3)));
    assert!(!tcp.is_connecting(peer(3)));
}

#[test]
fn dial_failure_releases_address_without_blame() {
    let mut tcp = listening_node(8, 0, 4130);
    let addr = peer(1);
    tcp.connect(addr).expect("admitted");
    tcp.dial_failed(addr);
    assert!(!tcp.is_connecting(addr));
    assert_eq!(tcp.known_peers().get(addr), None);
    assert_eq!(tcp.stats().failures, 0);
}

#[test]
fn pipeline_failure_releases_address_and_counts() {
    let mut tcp = listening_node(8, 0, 4130);
    let addr = peer(1);
    tcp.connect(addr).expect("admitted");
    let _conn = tcp.begin_connection(addr, 77, 11, ConnectionSide::Initiator);
    // the handshake failed; the connection is dropped by the embedder
    tcp.pipeline_failed(addr);
    assert!(!tcp.is_connecting(addr));
    assert!(!tcp.is_connected(addr));
    let stats = tcp.known_peers().get(addr).expect("seen");
    assert_eq!(stats.failures, 1);
    assert_eq!(stats.first_seen, 77);
    assert_eq!(tcp.stats().failures, 1);
}

#[test]
fn disconnect_twice_true_then_false() {
    let mut tcp = listening_node(8, 0, 4130);
    let addr = peer(1);
    establish(&mut tcp, addr, 11);
    let first = tcp.disconnect(addr);
    assert!(first.is_some());
    assert_eq!(first.unwrap().addr(), addr);
    let connected_after = tcp.connected_addrs();
    let connecting_after = tcp.connecting_addrs();
    let second = tcp.disconnect(addr);
    assert!(second.is_none());
    // the state is identical after the second call
    assert_eq!(tcp.connected_addrs(), connected_after);
    assert_eq!(tcp.connecting_addrs(), connecting_after);
}

#[test]
fn disconnect_forgets_initiated_peers() {
    let mut tcp = listening_node(8, 0, 4130);
    // outbound: we initiated; the stored side is the peer's, Responder
    let out_addr = peer(1);
    establish(&mut tcp, out_addr, 11);
    assert!(tcp.known_peers().contains(out_addr));
    tcp.disconnect(out_addr);
    assert!(!tcp.known_peers().contains(out_addr));
    // inbound: the peer initiated; its entry stays
    let in_addr = peer(2);
    assert!(tcp.handle_connection(in_addr));
    let conn = tcp.begin_connection(in_addr, 0, 12, ConnectionSide::Responder);
    assert_eq!(conn.side(), ConnectionSide::Initiator);
    tcp.finalize_connection(conn);
    tcp.disconnect(in_addr);
    assert!(tcp.known_peers().contains(in_addr));
}

#[test]
fn shutdown_empties_everything() {
    let mut tcp = listening_node(8, 0, 4130);
    tcp.register_task(100); // the listener task
    establish(&mut tcp, peer(1), 11);
    establish(&mut tcp, peer(2), 12);
    tcp.connect(peer(3)).expect("pending");
    tcp.connect(peer(4)).expect("pending");
    let effects = tcp.shut_down();
    assert_eq!(tcp.num_connected(), 0);
    assert_eq!(tcp.num_connecting(), 0);
    assert_eq!(effects.tasks, vec![100]);
    assert_eq!(effects.connections.len(), 2);
    let dropped: Vec<SocketAddr> = effects.connections.iter().map(|c| c.addr()).collect();
    assert!(dropped.contains(&peer(1)));
    assert!(dropped.contains(&peer(2)));
}

#[test]
fn shutdown_is_idempotent() {
    let mut tcp = listening_node(8, 0, 4130);
    tcp.register_task(100);
    establish(&mut tcp, peer(1), 11);
    tcp.shut_down();
    let known_after = tcp.known_peers().num_known();
    let effects = tcp.shut_down();
    assert_eq!(tcp.num_connected(), 0);
    assert_eq!(tcp.num_connecting(), 0);
    assert!(effects.tasks.is_empty());
    assert!(effects.connections.is_empty());
    assert_eq!(tcp.known_peers().num_known(), known_after);
}

#[test]
fn auto_names_are_distinct_integers() {
    // two nodes constructed without a name get sequential identifiers
    let a = listening_node(8, 5, 4130);
    let b = listening_node(8, 7, 4131);
    let name_a: u64 = a.name().parse().expect("integer name");
    let name_b: u64 = b.name().parse().expect("integer name");
    assert_eq!(name_a, 5);
    assert_eq!(name_b, 7);
    // the names differ by the count of intervening constructions
    assert_eq!(name_b - name_a, 2);
}

#[test]
fn explicit_name_is_kept() {
    let config = Config {
        name: Some("gateway".to_string()),
        listener_ip: None,
        desired_listening_port: None,
        allow_random_port: false,
        max_connections: 8,
    };
    let tcp = Tcp::new(config, 99, None);
    assert_eq!(tcp.name(), "gateway");
}

#[test]
fn handler_slots_set_once() {
    let mut tcp = listening_node(8, 0, 4130);
    assert_eq!(tcp.enable_handshake(1), Ok(()));
    assert_eq!(tcp.enable_handshake(2), Err(TcpError::AlreadyExists));
    assert_eq!(tcp.enable_reading(3), Ok(()));
    assert_eq!(tcp.enable_writing(4), Ok(()));
    assert_eq!(tcp.enable_disconnect(5), Ok(()));
    assert_eq!(tcp.enable_disconnect(6), Err(TcpError::AlreadyExists));
    assert_eq!(tcp.protocols().handshake, Some(1));
    assert_eq!(tcp.protocols().disconnect, Some(5));
}

#[test]
fn full_pipeline_with_wrapping_handshake() {
    // a handshake handler wraps the stream; the reading handler takes the
    // read half, attaches its task and installs the readiness notifier;
    // the connection then goes active and the notifier comes back out
    let mut tcp = listening_node(8, 0, 4130);
    tcp.enable_handshake(1).unwrap();
    tcp.enable_reading(2).unwrap();
    let addr = peer(1);
    tcp.connect(addr).expect("admitted");
    let mut conn = tcp.begin_connection(addr, 0, 10, ConnectionSide::Initiator);
    let steps = tcp.protocols().pipeline_steps();
    assert_eq!(
        steps,
        vec![PipelineStep::Handshake, PipelineStep::Split, PipelineStep::Reading]
    );
    // handshake: wrap the raw stream under a new handle
    let raw = conn.take_stream().expect("unsplit during handshake");
    assert_eq!(raw, 10);
    conn.put_stream(100);
    // split
    conn.split_stream(101, 102);
    // reading: consume the read half, attach a task, install the notifier
    assert_eq!(conn.take_reader(), Some(101));
    conn.attach_task(201);
    conn.set_readiness_notifier(300);
    let notifier = tcp.finalize_connection(conn);
    assert_eq!(notifier, Some(300));
    assert!(tcp.is_connected(addr));
    assert!(!tcp.is_connecting(addr));
    // the reader task now runs and accounts for one received message
    tcp.register_received_message(addr, 16);
    assert_eq!(tcp.stats().msgs_received, 1);
    assert_eq!(tcp.stats().bytes_received, 16);
    let entry = tcp.known_peers().get(addr).expect("known");
    assert_eq!(entry.msgs_received, 1);
    assert_eq!(entry.bytes_received, 16);
    assert_eq!(entry.connects, 1);
}

#[test]
fn sent_messages_are_accounted() {
    let mut tcp = listening_node(8, 0, 4130);
    let addr = peer(1);
    establish(&mut tcp, addr, 11);
    tcp.register_sent_message(addr, 32);
    tcp.register_sent_message(addr, 8);
    assert_eq!(tcp.stats().msgs_sent, 2);
    assert_eq!(tcp.stats().bytes_sent, 40);
    let entry = tcp.known_peers().get(addr).expect("known");
    assert_eq!(entry.msgs_sent, 2);
    assert_eq!(entry.bytes_sent, 40);
}

#[test]
fn disconnect_handler_fires_only_for_connected_peers() {
    let mut tcp = listening_node(8, 0, 4130);
    let addr = peer(1);
    assert!(!tcp.should_notify_disconnect(addr));
    tcp.enable_disconnect(5).unwrap();
    assert!(!tcp.should_notify_disconnect(addr));
    establish(&mut tcp, addr, 11);
    assert!(tcp.should_notify_disconnect(addr));
}
