//! Tests of the handler pipeline order, the connection state machine, and
//! the `Ping` codec.

use node_tcp::connection::{Connection, ConnectionSide};
use node_tcp::error::TcpError;
use node_tcp::ping::{DecodeError, NodeType, Ping, Status};
use node_tcp::protocols::{resolve_handler_reply, PipelineStep, Protocols};
use node_tcp::{IpAddress, SocketAddr};

fn addr() -> SocketAddr {
    SocketAddr::new(IpAddress::V4(0x0a00_0001), 9000)
}

#[test]
fn pipeline_order_with_all_slots() {
    let mut protocols = Protocols::new();
    protocols.set_handshake(1).unwrap();
    protocols.set_reading(2).unwrap();
    protocols.set_writing(3).unwrap();
    assert_eq!(
        protocols.pipeline_steps(),
        vec![
            PipelineStep::Handshake,
            PipelineStep::Split,
            PipelineStep::Reading,
            PipelineStep::Writing,
        ]
    );
}

#[test]
fn pipeline_skips_absent_slots() {
    let mut protocols = Protocols::new();
    assert_eq!(protocols.pipeline_steps(), vec![PipelineStep::Split]);
    protocols.set_reading(2).unwrap();
    assert_eq!(
        protocols.pipeline_steps(),
        vec![PipelineStep::Split, PipelineStep::Reading]
    );
}

#[test]
fn slot_set_twice_fails() {
    let mut protocols = Protocols::new();
    assert_eq!(protocols.set_writing(1), Ok(()));
    assert_eq!(protocols.set_writing(1), Err(TcpError::AlreadyExists));
    assert_eq!(protocols.set_disconnect(9), Ok(()));
    assert_eq!(protocols.set_disconnect(9), Err(TcpError::AlreadyExists));
}

#[test]
fn handler_reply_resolution() {
    // a dropped reply endpoint is a broken pipe
    let r = resolve_handler_reply(None);
    assert!(matches!(r, Err(TcpError::BrokenPipe)));
    // a handler error passes through verbatim
    let r = resolve_handler_reply(Some(Err(TcpError::Io(104))));
    assert!(matches!(r, Err(TcpError::Io(104))));
    // a returned connection passes through
    let conn = Connection::new(addr(), 7, ConnectionSide::Responder);
    let r = resolve_handler_reply(Some(Ok(conn)));
    assert_eq!(r.unwrap().addr(), addr());
}

#[test]
fn split_happens_once() {
    let mut conn = Connection::new(addr(), 7, ConnectionSide::Responder);
    conn.split_stream(70, 71);
    assert_eq!(conn.take_reader(), Some(70));
    assert_eq!(conn.take_writer(), Some(71));
    // a second split is a no-op: the stream is gone
    conn.split_stream(80, 81);
    assert_eq!(conn.take_reader(), None);
    assert_eq!(conn.take_writer(), None);
}

#[test]
fn handshake_may_wrap_the_stream_before_split() {
    let mut conn = Connection::new(addr(), 7, ConnectionSide::Responder);
    // a handshake handler takes the stream, wraps it, and puts it back
    let raw = conn.take_stream().expect("unsplit stream");
    assert_eq!(raw, 7);
    let wrapped = 700;
    conn.put_stream(wrapped);
    // the split then separates the wrapped stream
    conn.split_stream(701, 702);
    assert_eq!(conn.take_reader(), Some(701));
    assert_eq!(conn.take_writer(), Some(702));
}

#[test]
fn tasks_abort_in_reverse_order() {
    let mut conn = Connection::new(addr(), 7, ConnectionSide::Responder);
    conn.attach_task(1);
    conn.attach_task(2);
    conn.attach_task(3);
    assert_eq!(conn.tasks(), &vec![1, 2, 3]);
    assert_eq!(conn.abort_order(), vec![3, 2, 1]);
}

#[test]
fn readiness_notifier_is_taken_once() {
    let mut conn = Connection::new(addr(), 7, ConnectionSide::Responder);
    assert_eq!(conn.take_readiness_notifier(), None);
    conn.set_readiness_notifier(42);
    assert_eq!(conn.take_readiness_notifier(), Some(42));
    assert_eq!(conn.take_readiness_notifier(), None);
}

#[test]
fn side_negation() {
    assert_eq!(ConnectionSide::Initiator.flip(), ConnectionSide::Responder);
    assert_eq!(ConnectionSide::Responder.flip(), ConnectionSide::Initiator);
}

#[test]
fn ping_serializes_to_exact_bytes() {
    let ping = Ping {
        version: 12,
        fork_depth: 4096,
        node_type: NodeType::Validator,
        status: Status::Syncing,
    };
    let bytes = ping.serialize();
    assert_eq!(
        bytes,
        vec![
            12, 0, 0, 0, // version, little endian
            0, 16, 0, 0, // fork depth 4096
            2, 0, 0, 0, // Validator
            2, 0, 0, 0, // Syncing
        ]
    );
}

#[test]
fn ping_round_trips() {
    let ping = Ping {
        version: u32::MAX,
        fork_depth: 0,
        node_type: NodeType::Beacon,
        status: Status::ShuttingDown,
    };
    let decoded = Ping::deserialize(&ping.serialize()).expect("round trip");
    assert_eq!(decoded, ping);
}

#[test]
fn ping_rejects_bad_length() {
    assert_eq!(Ping::deserialize(&vec![0; 15]), Err(DecodeError::BadLength));
    assert_eq!(Ping::deserialize(&vec![0; 17]), Err(DecodeError::BadLength));
    assert_eq!(Ping::deserialize(&Vec::new()), Err(DecodeError::BadLength));
}

#[test]
fn ping_rejects_unknown_variants() {
    let mut bytes = vec![0u8; 16];
    bytes[8] = 4; // node-kind index out of range
    assert_eq!(Ping::deserialize(&bytes), Err(DecodeError::BadNodeType));
    bytes[8] = 1;
    bytes[12] = 200; // status index out of range
    assert_eq!(Ping::deserialize(&bytes), Err(DecodeError::BadStatus));
}

#[test]
fn ping_name() {
    let ping = Ping {
        version: 0,
        fork_depth: 0,
        node_type: NodeType::Client,
        status: Status::Ready,
    };
    assert_eq!(ping.name(), "Ping");
}
