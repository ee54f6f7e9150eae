//! A single peer connection: its address, its side, the state of its
//! stream, its attached background tasks and its readiness notifier.
//!
//! The I/O objects themselves (the stream, its read and write halves, the
//! spawned tasks, the one-shot notifier) live with the embedder; the
//! connection holds them as opaque numeric handles and tracks the states
//! the core's rules depend on.

use vstd::prelude::*;

use crate::addr::SocketAddr;

verus! {

/// Who established a connection: the initiator dialed, the responder
/// accepted.
#[derive(Clone, Copy, PartialEq, Eq, Structural, Debug)]
pub enum ConnectionSide {
    Initiator,
    Responder,
}

impl ConnectionSide {
    /// The opposite side: the peer of an initiator is a responder, and the
    /// other way round.
    pub open spec fn spec_flip(self) -> ConnectionSide {
        match self {
            ConnectionSide::Initiator => ConnectionSide::Responder,
            ConnectionSide::Responder => ConnectionSide::Initiator,
        }
    }

    /// Negates the side.
    pub fn flip(&self) -> (r: ConnectionSide)
        ensures
            r == self.spec_flip(),
    {
        match self {
            ConnectionSide::Initiator => ConnectionSide::Responder,
            ConnectionSide::Responder => ConnectionSide::Initiator,
        }
    }
}

/// The ghost value of a `Connection`.
#[verifier::ext_equal]
pub struct ConnectionView {
    pub addr: SocketAddr,
    pub side: ConnectionSide,
    pub stream: Option<u64>,
    pub reader: Option<u64>,
    pub writer: Option<u64>,
    pub tasks: Seq<u64>,
    pub readiness_notifier: Option<u64>,
}

/// An established or in-progress peer connection.
///
/// Either the unsplit stream is held, or it has been split and only the
/// read and write halves remain; `wf` states that exclusion. Handlers may
/// take the halves out for their own tasks, so they are optional too.
pub struct Connection {
    /// The remote peer's address.
    addr: SocketAddr,
    /// The peer's side of this connection (from our vantage point).
    side: ConnectionSide,
    /// The unsplit stream, as the embedder's handle for it.
    stream: Option<u64>,
    /// The read half, present only after the split.
    reader: Option<u64>,
    /// The write half, present only after the split.
    writer: Option<u64>,
    /// Handles of background tasks attached by handlers, in insertion
    /// order; they are aborted in reverse order on disconnect.
    tasks: Vec<u64>,
    /// A one-shot send endpoint installed by the reading handler and fired
    /// by the core once the connection is installed in the active set.
    readiness_notifier: Option<u64>,
}

impl View for Connection {
    type V = ConnectionView;

    closed spec fn view(&self) -> ConnectionView {
        ConnectionView {
            addr: self.addr,
            side: self.side,
            stream: self.stream,
            reader: self.reader,
            writer: self.writer,
            tasks: self.tasks@,
            readiness_notifier: self.readiness_notifier,
        }
    }
}

impl Connection {
    /// While the unsplit stream is held, the halves are absent.
    pub open spec fn wf(self) -> bool {
        self@.stream is Some ==> self@.reader is None && self@.writer is None
    }

    /// Creates a connection that still holds its unsplit stream and has no
    /// attached tasks.
    pub fn new(addr: SocketAddr, stream: u64, side: ConnectionSide) -> (conn: Connection)
        ensures
            conn.wf(),
            conn@ == (ConnectionView {
                addr,
                side,
                stream: Some(stream),
                reader: None,
                writer: None,
                tasks: Seq::<u64>::empty(),
                readiness_notifier: None,
            }),
    {
        let conn = Connection {
            addr,
            side,
            stream: Some(stream),
            reader: None,
            writer: None,
            tasks: Vec::new(),
            readiness_notifier: None,
        };
        assert(conn@.tasks =~= Seq::<u64>::empty());
        conn
    }

    /// The remote peer's address.
    pub fn addr(&self) -> (r: SocketAddr)
        ensures
            r == self@.addr,
    {
        self.addr
    }

    /// The peer's side of this connection.
    pub fn side(&self) -> (r: ConnectionSide)
        ensures
            r == self@.side,
    {
        self.side
    }

    /// The handles of the attached background tasks, in insertion order.
    pub fn tasks(&self) -> (r: &Vec<u64>)
        ensures
            r@ == self@.tasks,
    {
        &self.tasks
    }

    /// Splits the stream into its two halves, recorded under the given
    /// handles; a no-op when the stream was already taken or split.
    pub fn split_stream(&mut self, reader: u64, writer: u64)
        requires
            old(self).wf(),
        ensures
            final(self).wf(),
            old(self)@.stream is Some ==> final(self)@ == (ConnectionView {
                stream: None,
                reader: Some(reader),
                writer: Some(writer),
                ..old(self)@
            }),
            old(self)@.stream is None ==> final(self)@ == old(self)@,
    {
        if self.stream.is_some() {
            self.stream = None;
            self.reader = Some(reader);
            self.writer = Some(writer);
        }
    }

    /// Takes the unsplit stream out, for a handler that wraps it.
    pub fn take_stream(&mut self) -> (r: Option<u64>)
        requires
            old(self).wf(),
        ensures
            final(self).wf(),
            r == old(self)@.stream,
            final(self)@ == (ConnectionView { stream: None, ..old(self)@ }),
    {
        self.stream.take()
    }

    /// Puts a (possibly wrapped) unsplit stream back.
    pub fn put_stream(&mut self, stream: u64)
        requires
            old(self).wf(),
            old(self)@.reader is None,
            old(self)@.writer is None,
        ensures
            final(self).wf(),
            final(self)@ == (ConnectionView { stream: Some(stream), ..old(self)@ }),
    {
        self.stream = Some(stream);
    }

    /// Takes the read half out, for the reading handler's task.
    pub fn take_reader(&mut self) -> (r: Option<u64>)
        requires
            old(self).wf(),
        ensures
            final(self).wf(),
            r == old(self)@.reader,
            final(self)@ == (ConnectionView { reader: None, ..old(self)@ }),
    {
        self.reader.take()
    }

    /// Takes the write half out, for the writing handler's task.
    pub fn take_writer(&mut self) -> (r: Option<u64>)
        requires
            old(self).wf(),
        ensures
            final(self).wf(),
            r == old(self)@.writer,
            final(self)@ == (ConnectionView { writer: None, ..old(self)@ }),
    {
        self.writer.take()
    }

    /// Attaches a background task handle; tasks are aborted in the reverse
    /// of this insertion order on disconnect.
    pub fn attach_task(&mut self, task: u64)
        requires
            old(self).wf(),
            old(self)@.tasks.len() < usize::MAX,
        ensures
            final(self).wf(),
            final(self)@ == (ConnectionView { tasks: old(self)@.tasks.push(task), ..old(self)@ }),
    {
        self.tasks.push(task);
    }

    /// Installs the readiness notifier, fired by the core once the
    /// connection is visible in the active set.
    pub fn set_readiness_notifier(&mut self, notifier: u64)
        requires
            old(self).wf(),
        ensures
            final(self).wf(),
            final(self)@ == (ConnectionView {
                readiness_notifier: Some(notifier),
                ..old(self)@
            }),
    {
        self.readiness_notifier = Some(notifier);
    }

    /// Takes the readiness notifier out.
    pub fn take_readiness_notifier(&mut self) -> (r: Option<u64>)
        requires
            old(self).wf(),
        ensures
            final(self).wf(),
            r == old(self)@.readiness_notifier,
            final(self)@ == (ConnectionView { readiness_notifier: None, ..old(self)@ }),
    {
        self.readiness_notifier.take()
    }

    /// The order in which the attached tasks are aborted on disconnect:
    /// the reverse of their insertion order, so that higher-layer tasks
    /// stop consuming before lower-layer tasks stop producing.
    pub fn abort_order(&self) -> (r: Vec<u64>)
        ensures
            r@ == self@.tasks.reverse(),
    {
        let mut r: Vec<u64> = Vec::new();
        let n = self.tasks.len();
        let mut i: usize = 0;
        while i < n
            invariant
                n == self@.tasks.len(),
                i <= n,
                r@.len() == i,
                forall|k: int| 0 <= k < i ==> r@[k] == self@.tasks[n - 1 - k],
            decreases n - i,
        {
            r.push(self.tasks[n - 1 - i]);
            i = i + 1;
        }
        assert(r@ =~= self@.tasks.reverse());
        r
    }
}

} // verus!
