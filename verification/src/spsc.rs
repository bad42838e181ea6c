//! The single-producer/single-consumer pair: a direct projection of one
//! framed single channel's two split halves, with no additional logic.

use vstd::prelude::*;

use crate::addr::Addr;
use crate::bytebuf::bytes_content;
use crate::channel::{FramePoll, ReadHalf, RecvPoll, WriteHalf};
use crate::errors::SenderError;
use crate::frame::take_frame;

verus! {

/// The producing half: exactly one peer, written to in submission order.
pub struct Sender {
    pub inner: WriteHalf,
}

/// The consuming half: exactly one peer, read in arrival order.
pub struct Receiver {
    pub inner: ReadHalf,
}

impl Sender {
    pub open spec fn wf(self) -> bool {
        self.inner.wf()
    }

    pub fn local_addr(&self) -> (r: Addr)
        ensures
            r == self.inner.local,
    {
        self.inner.local
    }

    pub fn peer_addr(&self) -> (r: Addr)
        ensures
            r == self.inner.peer,
    {
        self.inner.peer
    }

    /// Sends one value: drives ready, submit and flush to completion
    /// against the in-memory queue; the transport driver then writes the
    /// wire bytes out via `drain_wire`.
    pub fn send(&mut self, item: u64) -> (r: Result<(), SenderError>)
        requires
            old(self).wf(),
        ensures
            final(self).wf(),
            final(self).inner.local == old(self).inner.local,
            final(self).inner.peer == old(self).inner.peer,
            final(self).inner.codec == old(self).inner.codec,
            final(self).inner.drained == old(self).inner.drained,
            final(self).inner.closed == old(self).inner.closed,
            final(self).inner.dead == old(self).inner.dead,
            old(self).inner.dead || old(self).inner.closed ==> r is Err && *final(self) == *old(self),
            !old(self).inner.dead && !old(self).inner.closed ==> {
                &&& r is Ok
                &&& final(self).inner.state is Idle
                &&& final(self).inner.sent@ == (if old(self).inner.state is Queued {
                    old(self).inner.sent@.push(old(self).inner.pending@->Some_0)
                } else {
                    old(self).inner.sent@
                }).push(item)
            },
    {
        self.inner.send(item)
    }

    /// Hands the transport driver the flushed bytes it has not yet taken.
    pub fn drain_wire(&mut self) -> (r: Vec<u8>)
        requires
            old(self).wf(),
        ensures
            final(self).wf(),
            r@ == old(self).inner.out@,
            final(self).inner.out@ == Seq::<u8>::empty(),
            final(self).inner.sent == old(self).inner.sent,
            final(self).inner.wire == old(self).inner.wire,
    {
        self.inner.drain_wire()
    }
}

impl Receiver {
    pub open spec fn wf(self) -> bool {
        self.inner.wf()
    }

    pub fn local_addr(&self) -> (r: Addr)
        ensures
            r == self.inner.local,
    {
        self.inner.local
    }

    pub fn peer_addr(&self) -> (r: Addr)
        ensures
            r == self.inner.peer,
    {
        self.inner.peer
    }

    /// Takes bytes the transport driver read off the socket.
    pub fn feed(&mut self, chunk: &Vec<u8>)
        requires
            old(self).wf(),
            bytes_content(old(self).inner.buf).len() + chunk@.len() <= 0x7fff_ffff,
        ensures
            final(self).wf(),
            final(self).inner.fed@ == old(self).inner.fed@ + chunk@,
            final(self).inner.taken == old(self).inner.taken,
            final(self).inner.local == old(self).inner.local,
            final(self).inner.peer == old(self).inner.peer,
            final(self).inner.codec == old(self).inner.codec,
    {
        self.inner.feed(chunk)
    }

    /// Records the peer's clean close.
    pub fn set_eof(&mut self)
        requires
            old(self).wf(),
        ensures
            final(self).wf(),
            *final(self) == (Receiver { inner: ReadHalf { eof: true, ..old(self).inner } }),
    {
        self.inner.set_eof()
    }

    /// The next decoded value: pending while no whole frame has arrived,
    /// ended only by transport failure or the peer's clean close.
    pub fn recv(&mut self) -> (r: RecvPoll)
        requires
            old(self).wf(),
        ensures
            final(self).wf(),
            final(self).inner.local == old(self).inner.local,
            final(self).inner.peer == old(self).inner.peer,
            final(self).inner.codec == old(self).inner.codec,
            final(self).inner.eof == old(self).inner.eof,
            final(self).inner.dead == old(self).inner.dead,
            final(self).inner.fed == old(self).inner.fed,
            take_frame(bytes_content(old(self).inner.buf)) matches Some(pr) ==> {
                &&& r == RecvPoll::Item(crate::codec::decode_spec(old(self).inner.codec, pr.0))
                &&& bytes_content(final(self).inner.buf) == pr.1
                &&& final(self).inner.taken@ == old(self).inner.taken@.push(pr.0)
            },
            !old(self).inner.has_frame() ==> *final(self) == *old(self),
            !old(self).inner.has_frame() && (old(self).inner.eof || old(self).inner.dead) ==> r
                == RecvPoll::End,
            !old(self).inner.has_frame() && !old(self).inner.eof && !old(self).inner.dead ==> r
                == RecvPoll::Pending,
    {
        self.inner.poll_value()
    }

    /// The next whole frame, undecoded.
    pub fn recv_frame(&mut self) -> (r: FramePoll)
        requires
            old(self).wf(),
        ensures
            final(self).wf(),
            final(self).inner.local == old(self).inner.local,
            final(self).inner.peer == old(self).inner.peer,
            final(self).inner.codec == old(self).inner.codec,
            final(self).inner.eof == old(self).inner.eof,
            final(self).inner.dead == old(self).inner.dead,
            final(self).inner.fed == old(self).inner.fed,
            take_frame(bytes_content(old(self).inner.buf)) matches Some(pr) ==> {
                &&& (r matches FramePoll::Frame(f) && bytes_content(f) == pr.0)
                &&& bytes_content(final(self).inner.buf) == pr.1
                &&& final(self).inner.taken@ == old(self).inner.taken@.push(pr.0)
            },
            !old(self).inner.has_frame() ==> *final(self) == *old(self),
            !old(self).inner.has_frame() && (old(self).inner.eof || old(self).inner.dead) ==> (r
                matches FramePoll::End),
            !old(self).inner.has_frame() && !old(self).inner.eof && !old(self).inner.dead ==> (r
                matches FramePoll::Pending),
    {
        self.inner.poll_frame()
    }
}

} // verus!
