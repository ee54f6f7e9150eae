//! The `Ping` wire message and its length-fixed binary encoding.
//!
//! The record carries the protocol version, the fork depth, the node's
//! kind and its status. Each field is encoded as four little-endian bytes,
//! the enums as their variant index, giving a sixteen-byte frame.

use vstd::bytes::{
    lemma_auto_spec_u32_to_from_le_bytes, spec_u32_from_le_bytes, spec_u32_to_le_bytes,
    u32_from_le_bytes, u32_to_le_bytes,
};
use vstd::prelude::*;
use vstd::slice::slice_subrange;

verus! {

/// The kind of node sending the message.
#[derive(Clone, Copy, PartialEq, Eq, Structural, Debug)]
pub enum NodeType {
    Client,
    Prover,
    Validator,
    Beacon,
}

/// The sender's status.
#[derive(Clone, Copy, PartialEq, Eq, Structural, Debug)]
pub enum Status {
    Ready,
    Peering,
    Syncing,
    ShuttingDown,
}

/// The variant index under which a node kind is encoded.
pub open spec fn node_type_index(t: NodeType) -> u32 {
    match t {
        NodeType::Client => 0,
        NodeType::Prover => 1,
        NodeType::Validator => 2,
        NodeType::Beacon => 3,
    }
}

/// The node kind encoded under an index, if any.
pub open spec fn node_type_from_index(i: u32) -> Option<NodeType> {
    if i == 0 {
        Some(NodeType::Client)
    } else if i == 1 {
        Some(NodeType::Prover)
    } else if i == 2 {
        Some(NodeType::Validator)
    } else if i == 3 {
        Some(NodeType::Beacon)
    } else {
        None
    }
}

/// The variant index under which a status is encoded.
pub open spec fn status_index(s: Status) -> u32 {
    match s {
        Status::Ready => 0,
        Status::Peering => 1,
        Status::Syncing => 2,
        Status::ShuttingDown => 3,
    }
}

/// The status encoded under an index, if any.
pub open spec fn status_from_index(i: u32) -> Option<Status> {
    if i == 0 {
        Some(Status::Ready)
    } else if i == 1 {
        Some(Status::Peering)
    } else if i == 2 {
        Some(Status::Syncing)
    } else if i == 3 {
        Some(Status::ShuttingDown)
    } else {
        None
    }
}

/// Why a buffer does not decode to a `Ping`.
#[derive(Clone, Copy, PartialEq, Eq, Structural, Debug)]
pub enum DecodeError {
    /// The buffer is not exactly sixteen bytes long.
    BadLength,
    /// The node-kind field holds no known variant index.
    BadNodeType,
    /// The status field holds no known variant index.
    BadStatus,
}

/// A ping message.
#[derive(Clone, Copy, PartialEq, Eq, Structural, Debug)]
pub struct Ping {
    pub version: u32,
    pub fork_depth: u32,
    pub node_type: NodeType,
    pub status: Status,
}

/// The sixteen-byte encoding of a ping: its four fields as little-endian
/// four-byte words, in declaration order.
pub open spec fn spec_serialize(p: Ping) -> Seq<u8> {
    spec_u32_to_le_bytes(p.version) + spec_u32_to_le_bytes(p.fork_depth) + spec_u32_to_le_bytes(
        node_type_index(p.node_type),
    ) + spec_u32_to_le_bytes(status_index(p.status))
}

/// What a buffer decodes to: the unique ping it encodes, or the first
/// reason (length, node kind, status, in that order) it encodes none.
pub open spec fn spec_deserialize(bytes: Seq<u8>) -> Result<Ping, DecodeError> {
    if bytes.len() != 16 {
        Err(DecodeError::BadLength)
    } else {
        let version = spec_u32_from_le_bytes(bytes.subrange(0, 4));
        let fork_depth = spec_u32_from_le_bytes(bytes.subrange(4, 8));
        let node_type = node_type_from_index(spec_u32_from_le_bytes(bytes.subrange(8, 12)));
        let status = status_from_index(spec_u32_from_le_bytes(bytes.subrange(12, 16)));
        match (node_type, status) {
            (None, _) => Err(DecodeError::BadNodeType),
            (_, None) => Err(DecodeError::BadStatus),
            (Some(node_type), Some(status)) => Ok(
                Ping { version, fork_depth, node_type, status },
            ),
        }
    }
}

impl Ping {
    /// The message name.
    pub fn name(&self) -> (r: &str)
        ensures
            r@ == "Ping"@,
    {
        "Ping"
    }

    /// Serializes the message into its sixteen-byte frame.
    pub fn serialize(&self) -> (r: Vec<u8>)
        ensures
            r@ == spec_serialize(*self),
            r@.len() == 16,
    {
        proof {
            lemma_auto_spec_u32_to_from_le_bytes();
        }
        let node_type_word: u32 = match self.node_type {
            NodeType::Client => 0,
            NodeType::Prover => 1,
            NodeType::Validator => 2,
            NodeType::Beacon => 3,
        };
        let status_word: u32 = match self.status {
            Status::Ready => 0,
            Status::Peering => 1,
            Status::Syncing => 2,
            Status::ShuttingDown => 3,
        };
        let mut r = u32_to_le_bytes(self.version);
        let mut fork_depth = u32_to_le_bytes(self.fork_depth);
        let mut node_type = u32_to_le_bytes(node_type_word);
        let mut status = u32_to_le_bytes(status_word);
        r.append(&mut fork_depth);
        r.append(&mut node_type);
        r.append(&mut status);
        assert(r@ =~= spec_serialize(*self));
        r
    }

    /// Deserializes a buffer into a message; fails exactly on a buffer
    /// that is not the encoding of one.
    pub fn deserialize(bytes: &Vec<u8>) -> (r: Result<Ping, DecodeError>)
        ensures
            r == spec_deserialize(bytes@),
            r matches Ok(p) ==> bytes@ == spec_serialize(p),
    {
        proof {
            lemma_auto_spec_u32_to_from_le_bytes();
        }
        if bytes.len() != 16 {
            return Err(DecodeError::BadLength);
        }
        let s = bytes.as_slice();
        let version = u32_from_le_bytes(slice_subrange(s, 0, 4));
        let fork_depth = u32_from_le_bytes(slice_subrange(s, 4, 8));
        let node_type_word = u32_from_le_bytes(slice_subrange(s, 8, 12));
        let status_word = u32_from_le_bytes(slice_subrange(s, 12, 16));
        let node_type = if node_type_word == 0 {
            NodeType::Client
        } else if node_type_word == 1 {
            NodeType::Prover
        } else if node_type_word == 2 {
            NodeType::Validator
        } else if node_type_word == 3 {
            NodeType::Beacon
        } else {
            return Err(DecodeError::BadNodeType);
        };
        if status_word > 3 {
            return Err(DecodeError::BadStatus);
        }
        let status = if status_word == 0 {
            Status::Ready
        } else if status_word == 1 {
            Status::Peering
        } else if status_word == 2 {
            Status::Syncing
        } else {
            Status::ShuttingDown
        };
        let p = Ping { version, fork_depth, node_type, status };
        proof {
            lemma_serialize_deserialize_bytes(bytes@, p);
        }
        Ok(p)
    }
}

/// A buffer whose four words decode to the fields of `p` is exactly the
/// encoding of `p`.
proof fn lemma_serialize_deserialize_bytes(bytes: Seq<u8>, p: Ping)
    requires
        bytes.len() == 16,
        spec_u32_from_le_bytes(bytes.subrange(0, 4)) == p.version,
        spec_u32_from_le_bytes(bytes.subrange(4, 8)) == p.fork_depth,
        spec_u32_from_le_bytes(bytes.subrange(8, 12)) == node_type_index(p.node_type),
        spec_u32_from_le_bytes(bytes.subrange(12, 16)) == status_index(p.status),
    ensures
        bytes == spec_serialize(p),
{
    lemma_auto_spec_u32_to_from_le_bytes();
    assert(spec_u32_to_le_bytes(p.version) =~= bytes.subrange(0, 4));
    assert(spec_u32_to_le_bytes(p.fork_depth) =~= bytes.subrange(4, 8));
    assert(spec_u32_to_le_bytes(node_type_index(p.node_type)) =~= bytes.subrange(8, 12));
    assert(spec_u32_to_le_bytes(status_index(p.status)) =~= bytes.subrange(12, 16));
    assert(bytes =~= spec_serialize(p));
}

/// Decoding inverts encoding: a serialized ping deserializes to itself.
pub proof fn lemma_ping_round_trip(p: Ping)
    ensures
        spec_deserialize(spec_serialize(p)) == Ok::<Ping, DecodeError>(p),
{
    lemma_auto_spec_u32_to_from_le_bytes();
    let bytes = spec_serialize(p);
    assert(bytes.len() == 16);
    assert(bytes.subrange(0, 4) =~= spec_u32_to_le_bytes(p.version));
    assert(bytes.subrange(4, 8) =~= spec_u32_to_le_bytes(p.fork_depth));
    assert(bytes.subrange(8, 12) =~= spec_u32_to_le_bytes(node_type_index(p.node_type)));
    assert(bytes.subrange(12, 16) =~= spec_u32_to_le_bytes(status_index(p.status)));
}

} // verus!
