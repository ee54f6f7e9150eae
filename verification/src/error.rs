//! Error kinds surfaced by the connection core.

use vstd::prelude::*;

verus! {

/// The errors the connection core can return.
#[derive(Clone, Copy, PartialEq, Eq, Structural, Debug)]
pub enum TcpError {
    /// The node is outbound-only: it has no listening address.
    AddrNotAvailable,
    /// The target of a connect is the node's own listening address.
    AddrInUse,
    /// Admission was refused because the capacity bound is reached.
    PermissionDenied,
    /// The target of a connect is already connected or connecting.
    AlreadyExists,
    /// A protocol handler's reply endpoint was dropped before replying.
    BrokenPipe,
    /// An operating-system I/O error, carrying the raw OS error code.
    Io(i32),
}

} // verus!
