//! The optional protocol-handler slots and the fixed pipeline order in
//! which they are applied to a fresh connection.
//!
//! A handler is a message-passing endpoint owned by the embedder; the core
//! holds it as an opaque numeric handle. Each slot is settable at most
//! once. The pipeline applies the slots in the fixed order
//! handshake, split, reading, writing; an absent slot is simply skipped.

use vstd::prelude::*;

use crate::connection::Connection;
use crate::error::TcpError;

verus! {

/// The four optional handler slots.
#[derive(Clone, Copy, PartialEq, Eq, Structural, Debug)]
pub struct Protocols {
    /// Runs first, on the connection while it still holds the unsplit
    /// stream.
    pub handshake: Option<u64>,
    /// Consumes the read half and may install the readiness notifier.
    pub reading: Option<u64>,
    /// Consumes the write half.
    pub writing: Option<u64>,
    /// Triggered with the address before a connected peer is torn down.
    pub disconnect: Option<u64>,
}

impl Protocols {
    /// Creates the slots, all empty.
    pub fn new() -> (r: Protocols)
        ensures
            r == (Protocols { handshake: None, reading: None, writing: None, disconnect: None }),
    {
        Protocols { handshake: None, reading: None, writing: None, disconnect: None }
    }

    /// Fills the handshake slot; fails if it was already set.
    pub fn set_handshake(&mut self, handler: u64) -> (r: Result<(), TcpError>)
        ensures
            r is Ok <==> old(self).handshake is None,
            r is Ok ==> *final(self) == (Protocols { handshake: Some(handler), ..*old(self) }),
            r is Err ==> *final(self) == *old(self) && r == Err::<(), TcpError>(
                TcpError::AlreadyExists,
            ),
    {
        if self.handshake.is_some() {
            Err(TcpError::AlreadyExists)
        } else {
            self.handshake = Some(handler);
            Ok(())
        }
    }

    /// Fills the reading slot; fails if it was already set.
    pub fn set_reading(&mut self, handler: u64) -> (r: Result<(), TcpError>)
        ensures
            r is Ok <==> old(self).reading is None,
            r is Ok ==> *final(self) == (Protocols { reading: Some(handler), ..*old(self) }),
            r is Err ==> *final(self) == *old(self) && r == Err::<(), TcpError>(
                TcpError::AlreadyExists,
            ),
    {
        if self.reading.is_some() {
            Err(TcpError::AlreadyExists)
        } else {
            self.reading = Some(handler);
            Ok(())
        }
    }

    /// Fills the writing slot; fails if it was already set.
    pub fn set_writing(&mut self, handler: u64) -> (r: Result<(), TcpError>)
        ensures
            r is Ok <==> old(self).writing is None,
            r is Ok ==> *final(self) == (Protocols { writing: Some(handler), ..*old(self) }),
            r is Err ==> *final(self) == *old(self) && r == Err::<(), TcpError>(
                TcpError::AlreadyExists,
            ),
    {
        if self.writing.is_some() {
            Err(TcpError::AlreadyExists)
        } else {
            self.writing = Some(handler);
            Ok(())
        }
    }

    /// Fills the disconnect slot; fails if it was already set.
    pub fn set_disconnect(&mut self, handler: u64) -> (r: Result<(), TcpError>)
        ensures
            r is Ok <==> old(self).disconnect is None,
            r is Ok ==> *final(self) == (Protocols { disconnect: Some(handler), ..*old(self) }),
            r is Err ==> *final(self) == *old(self) && r == Err::<(), TcpError>(
                TcpError::AlreadyExists,
            ),
    {
        if self.disconnect.is_some() {
            Err(TcpError::AlreadyExists)
        } else {
            self.disconnect = Some(handler);
            Ok(())
        }
    }
}

/// One step of the connection pipeline.
#[derive(Clone, Copy, PartialEq, Eq, Structural, Debug)]
pub enum PipelineStep {
    /// Trigger the handshake handler on the unsplit connection.
    Handshake,
    /// Split the stream into its read and write halves, if still unsplit.
    Split,
    /// Trigger the reading handler.
    Reading,
    /// Trigger the writing handler.
    Writing,
}

/// The position of a step in the fixed pipeline order.
pub open spec fn step_rank(s: PipelineStep) -> int {
    match s {
        PipelineStep::Handshake => 0,
        PipelineStep::Split => 1,
        PipelineStep::Reading => 2,
        PipelineStep::Writing => 3,
    }
}

/// The pipeline for a given set of slots: the handler steps whose slot is
/// set, with the split between handshake and reading, in the fixed order.
pub open spec fn spec_pipeline(p: Protocols) -> Seq<PipelineStep> {
    let handshake: Seq<PipelineStep> = if p.handshake is Some {
        seq![PipelineStep::Handshake]
    } else {
        Seq::empty()
    };
    let reading: Seq<PipelineStep> = if p.reading is Some {
        seq![PipelineStep::Reading]
    } else {
        Seq::empty()
    };
    let writing: Seq<PipelineStep> = if p.writing is Some {
        seq![PipelineStep::Writing]
    } else {
        Seq::empty()
    };
    handshake + seq![PipelineStep::Split] + reading + writing
}

impl Protocols {
    /// The steps to run, in order, on a freshly accepted or dialed
    /// connection.
    pub fn pipeline_steps(&self) -> (steps: Vec<PipelineStep>)
        ensures
            steps@ == spec_pipeline(*self),
    {
        let mut steps: Vec<PipelineStep> = Vec::new();
        if self.handshake.is_some() {
            steps.push(PipelineStep::Handshake);
        }
        steps.push(PipelineStep::Split);
        if self.reading.is_some() {
            steps.push(PipelineStep::Reading);
        }
        if self.writing.is_some() {
            steps.push(PipelineStep::Writing);
        }
        assert(steps@ =~= spec_pipeline(*self));
        steps
    }
}

/// The pipeline is always ordered handshake, split, reading, writing, and
/// contains a handler step exactly when its slot is set: an absent slot is
/// a no-op pass-through.
pub proof fn lemma_pipeline_order(p: Protocols)
    ensures
        forall|i: int, j: int|
            0 <= i < j < spec_pipeline(p).len() ==> step_rank(spec_pipeline(p)[i]) < step_rank(
                spec_pipeline(p)[j],
            ),
        spec_pipeline(p).contains(PipelineStep::Handshake) <==> p.handshake is Some,
        spec_pipeline(p).contains(PipelineStep::Reading) <==> p.reading is Some,
        spec_pipeline(p).contains(PipelineStep::Writing) <==> p.writing is Some,
        spec_pipeline(p).contains(PipelineStep::Split),
{
    let s = spec_pipeline(p);
    assert(s.contains(PipelineStep::Split)) by {
        let i = if p.handshake is Some { 1int } else { 0int };
        assert(s[i] == PipelineStep::Split);
    }
    if p.handshake is Some {
        assert(s[0] == PipelineStep::Handshake);
    }
    if p.reading is Some {
        let i = if p.handshake is Some { 2int } else { 1int };
        assert(s[i] == PipelineStep::Reading);
    }
    if p.writing is Some {
        let i = s.len() - 1;
        assert(s[i] == PipelineStep::Writing);
    }
}

/// Resolves what came back on a handler's reply endpoint: no reply at all
/// (the endpoint was dropped) is a broken pipe; otherwise the handler's own
/// result stands.
pub fn resolve_handler_reply(reply: Option<Result<Connection, TcpError>>) -> (r: Result<
    Connection,
    TcpError,
>)
    ensures
        match reply {
            None => r == Err::<Connection, TcpError>(TcpError::BrokenPipe),
            Some(inner) => r == inner,
        },
{
    match reply {
        None => Err(TcpError::BrokenPipe),
        Some(inner) => inner,
    }
}

} // verus!
