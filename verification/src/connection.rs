//! The connection's pure half: the read buffer, the stop flag, and the
//! decisions of the read loop.
//!
//! The host owns the process and a dedicated reader: it performs each
//! blocking read, hands the bytes in here, slices complete frames out,
//! decodes each into a message and drives `dispatch` — in that order, one
//! frame at a time, so every node sees its events in wire order. Any read
//! failure or end of stream surfaces here as a connection-closed error, is
//! never retried, and fails every outstanding call uniformly through
//! `notify_closed`.

use vstd::prelude::*;

use crate::context::{Context, PendingCall};
use crate::error::Error;
use crate::json::JsonValue;
use crate::protocol::RequestEnvelope;
use crate::transport::{frame_payload, frame_rest, holds_frame, FrameBuffer};

verus! {

/// What one blocking read of the driver's output stream came back with.
pub enum ReadEvent {
    /// Some bytes arrived.
    Chunk(Vec<u8>),
    /// A zero-length read: the process has exited.
    Eof,
    /// The read itself failed.
    Failure(String),
}

/// One connection's engine state: the mirrored graph and pending calls, the
/// reader's byte buffer, and the stop flag the teardown path sets so the
/// loop exits promptly even mid-read.
pub struct Connection {
    pub ctx: Context,
    pub reader: FrameBuffer,
    pub should_stop: bool,
}

impl Connection {
    /// A fresh connection around a fresh context.
    pub fn new() -> (r: Connection)
        ensures
            r.ctx.wf(),
            r.ctx.objects@.len() == 1,
            r.ctx.callbacks@.len() == 0,
            r.reader@ == Seq::<u8>::empty(),
            !r.should_stop,
    {
        Connection { ctx: Context::new(), reader: FrameBuffer::new(), should_stop: false }
    }

    /// Take one read's outcome: bytes extend the buffer; a zero-length read
    /// is the connection-closed condition, never a retry; a failed read is
    /// fatal the same way.
    pub fn on_read(&mut self, ev: ReadEvent) -> (r: Result<(), Error>)
        ensures
            final(self).ctx == old(self).ctx,
            final(self).should_stop == old(self).should_stop,
            ev is Chunk ==> r is Ok && final(self).reader@ == old(self).reader@
                + ev->Chunk_0@,
            ev is Eof ==> (r matches Err(e) && e is ReceiverClosed) && final(self).reader@ == old(self).reader@,
            ev is Failure ==> (r matches Err(e) && e is Io) && final(self).reader@ == old(self).reader@,
    {
        match ev {
            ReadEvent::Chunk(bytes) => {
                proof {
                    assert(ev == ReadEvent::Chunk(bytes));
                }
                self.reader.push_chunk(bytes.as_slice());
                Ok(())
            },
            ReadEvent::Eof => Err(Error::ReceiverClosed),
            ReadEvent::Failure(m) => Err(Error::Io(m)),
        }
    }

    /// Slice the next complete frame's payload out of the buffer, if one has
    /// fully arrived.
    pub fn next_frame(&mut self) -> (r: Option<Vec<u8>>)
        ensures
            final(self).ctx == old(self).ctx,
            final(self).should_stop == old(self).should_stop,
            holds_frame(old(self).reader@) ==> (r matches Some(p) && p@ == frame_payload(
                old(self).reader@,
            ) && final(self).reader@ == frame_rest(old(self).reader@)),
            !holds_frame(old(self).reader@) ==> r is None && final(self).reader@ == old(self).reader@,
    {
        self.reader.take_frame()
    }

    /// Whether the read loop should still dispatch: teardown sets the flag
    /// and the loop exits before touching the next frame.
    pub fn keep_running(&self) -> (r: bool)
        ensures
            r == !self.should_stop,
    {
        !self.should_stop
    }

    /// Ask the read loop to stop.
    pub fn request_stop(&mut self)
        ensures
            final(self).ctx == old(self).ctx,
            final(self).reader@ == old(self).reader@,
            final(self).should_stop,
    {
        self.should_stop = true;
    }

    /// Issue the bootstrap handshake through the normal request path: an
    /// `initialize` call addressed to the root object, registered as a
    /// pending call like any other.
    pub fn send_initialize(&mut self, params: JsonValue) -> (r: Result<RequestEnvelope, Error>)
        requires
            old(self).ctx.wf(),
            old(self).ctx.last_id < u64::MAX,
        ensures
            final(self).ctx.wf(),
            final(self).ctx.objects@ == old(self).ctx.objects@,
            final(self).reader@ == old(self).reader@,
            final(self).should_stop == old(self).should_stop,
            crate::context::has_guid(old(self).ctx.objects@, Seq::<char>::empty()) ==> (r matches
                Ok(env) && env.guid@ == Seq::<char>::empty() && env.method@ == "initialize"@
                && env.params == params && env.id == old(self).ctx.last_id + 1 && final(self).ctx.last_id == env.id && final(self).ctx.callbacks@ == old(self).ctx.callbacks@.push(
                crate::context::PendingCall { id: env.id, receiver_alive: true },
            )),
            !crate::context::has_guid(old(self).ctx.objects@, Seq::<char>::empty()) ==> (r matches
                Err(e) && e is ObjectNotFound && final(self).ctx.callbacks@ == old(self).ctx.callbacks@ && final(self).ctx.last_id == old(self).ctx.last_id),
    {
        let r = self.ctx.send_message("", "initialize", params);
        proof {
            reveal_strlit("");
            assert(""@ =~= Seq::<char>::empty());
        }
        r
    }

    /// Tear the connection down: every pending call is handed back to be
    /// failed with the same terminal error, and the table is cleared.
    pub fn notify_closed(&mut self) -> (r: Vec<PendingCall>)
        requires
            old(self).ctx.wf(),
        ensures
            final(self).ctx.wf(),
            r@ == old(self).ctx.callbacks@,
            final(self).ctx.objects@.len() == 0,
            final(self).ctx.callbacks@.len() == 0,
    {
        self.ctx.notify_closed()
    }
}

} // verus!
