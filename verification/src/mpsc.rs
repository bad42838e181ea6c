//! The multi-producer/single-consumer facade: the consumer is a
//! multiplexing multi-channel in accept-only mode, admitting producers one
//! at a time; each producer is an ordinary outbound framed single channel.
//! The facade forwards to the substrate and wraps its errors in the named
//! facade error types.

use vstd::prelude::*;

use crate::addr::{Addr, PeerConn};
use crate::broadcast;
use crate::bytebuf::bytes_content;
use crate::channel::{Channel, IoEvent, ReadHalf, SinkPoll, WriteHalf};
use crate::codec::Codec;
use crate::errors::{
    AcceptError, ChannelSinkError, ChannelStreamError, DecodeError, ProtocolMisuseError,
    ReceiverAcceptingError, ReceiverError, SenderError, SplitError, TransportError,
};
use crate::multi_channel;
use crate::multi_channel::{evict_step, item_step, MultiPoll};
use crate::spsc;

verus! {

/// How the facade wraps a substrate item: a decode error becomes the named
/// receive-side facade error carrying its cause.
pub open spec fn wrap_item(res: Result<u64, DecodeError>) -> Result<u64, ReceiverError> {
    match res {
        Ok(v) => Ok(v),
        Err(e) => Err(ReceiverError { source: ChannelStreamError::Decode(e) }),
    }
}

/// Some fan-in delivery from peer `a` happened and its wrapped result is
/// `rf`.
pub open spec fn item_step_wrapped(
    pre: multi_channel::Channel,
    post: multi_channel::Channel,
    rf: Result<u64, ReceiverError>,
    a: Addr,
) -> bool {
    exists|res: Result<u64, DecodeError>| #[trigger] item_step(pre, post, res, a) && rf
        == wrap_item(res)
}

/// Some fan-in delivery of the frame `payload` happened, from some peer.
pub open spec fn frame_step_some(
    pre: multi_channel::Channel,
    post: multi_channel::Channel,
    payload: Seq<u8>,
) -> bool {
    exists|a: Addr| #[trigger] crate::multi_channel::frame_step(pre, post, payload, a)
}

/// One typed receive step of the facade.
pub enum Recv {
    Pending,
    Item(Result<u64, ReceiverError>),
    End,
}

/// One typed receive step, tagged with the origin address.
pub enum RecvWithAddr {
    Pending,
    Item(Result<u64, ReceiverError>, Addr),
    End,
}

/// One raw-frame receive step.
pub enum RecvFrame {
    Pending,
    Frame(bytes::BytesMut),
    End,
}

/// One raw-frame receive step, tagged with the origin address.
pub enum RecvFrameWithAddr {
    Pending,
    Frame(bytes::BytesMut, Addr),
    End,
}

/// The producing endpoint: one outbound framed single channel.
pub struct Sender {
    pub write: WriteHalf,
    /// The unused inbound side, until `split` hands it to its own owner.
    pub read: Option<ReadHalf>,
    /// Whether `split` is still possible on the underlying transport.
    pub halvable: bool,
}

impl Sender {
    pub open spec fn wf(self) -> bool {
        &&& self.write.wf()
        &&& (self.read matches Some(rd) ==> rd.wf())
    }

    /// Wraps one established outbound connection.
    pub fn new(conn: PeerConn, codec: Codec) -> (r: Sender)
        ensures
            r.wf(),
            r.write.local == conn.local,
            r.write.peer == conn.peer,
            r.write.codec == codec,
            r.write.sent@ == Seq::<u64>::empty(),
            r.write.state == crate::channel::WriteState::Idle,
            r.write.out@ == Seq::<u8>::empty(),
            r.write.drained@ == Seq::<u8>::empty(),
            !r.write.dead,
            !r.write.closed,
            r.read is Some,
            r.halvable == conn.halvable,
    {
        let chan = Channel::new(conn, codec);
        Sender { write: chan.write, read: Some(chan.read), halvable: chan.halvable }
    }

    /// An already-split producing half, adopted as a sender; it cannot be
    /// split again.
    pub fn from(sender: spsc::Sender) -> (r: Sender)
        ensures
            r.write == sender.inner,
            r.read is None,
            !r.halvable,
    {
        Sender { write: sender.inner, read: None, halvable: false }
    }

    pub fn local_addr(&self) -> (r: Addr)
        ensures
            r == self.write.local,
    {
        self.write.local
    }

    pub fn peer_addr(&self) -> (r: Addr)
        ensures
            r == self.write.peer,
    {
        self.write.peer
    }

    /// Consumes this sender and yields an independently owned write-only
    /// sender and read-only receiver over the same connection; afterwards
    /// no operation on the original is possible. Fails only if the
    /// transport cannot be halved or was already split.
    pub fn split(self) -> (r: Result<(Sender, spsc::Receiver), SplitError>)
        ensures
            self.halvable && self.read is Some ==> (r matches Ok(pair) && pair.0.write
                == self.write && pair.0.read is None && !pair.0.halvable && pair.1.inner
                == self.read->Some_0),
            !(self.halvable && self.read is Some) ==> (r matches Err(e) && e
                == SplitError::NotHalvable),
    {
        if !self.halvable {
            return Err(SplitError::NotHalvable);
        }
        match self.read {
            None => Err(SplitError::NotHalvable),
            Some(rd) => Ok(
                (
                    Sender { write: self.write, read: None, halvable: false },
                    spsc::Receiver { inner: rd },
                ),
            ),
        }
    }

    /// Sends one value, driving ready, submit and flush to completion
    /// against the in-memory queue; the transport driver writes the wire
    /// out via `drain_wire`.
    pub fn send(&mut self, item: u64) -> (r: Result<(), SenderError>)
        requires
            old(self).wf(),
        ensures
            final(self).wf(),
            final(self).read == old(self).read,
            final(self).halvable == old(self).halvable,
            final(self).write.local == old(self).write.local,
            final(self).write.peer == old(self).write.peer,
            final(self).write.codec == old(self).write.codec,
            final(self).write.drained == old(self).write.drained,
            final(self).write.closed == old(self).write.closed,
            final(self).write.dead == old(self).write.dead,
            old(self).write.dead || old(self).write.closed ==> r is Err && final(self).write
                == old(self).write,
            !old(self).write.dead && !old(self).write.closed ==> {
                &&& r is Ok
                &&& final(self).write.state is Idle
                &&& final(self).write.sent@ == (if old(self).write.state is Queued {
                    old(self).write.sent@.push(old(self).write.pending@->Some_0)
                } else {
                    old(self).write.sent@
                }).push(item)
            },
    {
        self.write.send(item)
    }

    /// Probes whether a send may proceed, from the transport driver's
    /// observation. Never Ready on a pending or failed transport, and a
    /// failure is reported as exactly the transport cause, never swallowed.
    pub fn poll_ready(&mut self, ev: IoEvent) -> (r: SinkPoll)
        requires
            old(self).wf(),
        ensures
            final(self).wf(),
            final(self).read == old(self).read,
            final(self).halvable == old(self).halvable,
            final(self).write.sent == old(self).write.sent,
            final(self).write.wire == old(self).write.wire,
            final(self).write.out == old(self).write.out,
            final(self).write.closed == old(self).write.closed,
            old(self).write.dead ==> final(self).write == old(self).write && r == SinkPoll::Failed(
                ChannelSinkError::Transport(TransportError),
            ),
            !old(self).write.dead && ev == IoEvent::Pending ==> final(self).write == old(self).write && r == SinkPoll::Pending,
            !old(self).write.dead && ev == IoEvent::Failed ==> final(self).write.dead && r
                == SinkPoll::Failed(ChannelSinkError::Transport(TransportError)),
            !old(self).write.dead && ev == IoEvent::Ready ==> {
                &&& !final(self).write.dead
                &&& r == SinkPoll::Ready
                &&& final(self).write.state == (if old(self).write.state is Queued {
                    crate::channel::WriteState::Queued
                } else {
                    crate::channel::WriteState::Ready
                })
            },
    {
        self.write.poll_ready(ev)
    }

    /// Queues exactly one value. A call without a preceding ready signal,
    /// or while a previous value is still unflushed, is a distinct
    /// synchronous protocol-misuse failure; nothing is queued or written.
    pub fn start_send(&mut self, item: u64) -> (r: Result<(), ChannelSinkError>)
        requires
            old(self).wf(),
        ensures
            final(self).wf(),
            final(self).read == old(self).read,
            final(self).halvable == old(self).halvable,
            final(self).write.sent == old(self).write.sent,
            final(self).write.wire == old(self).write.wire,
            final(self).write.out == old(self).write.out,
            final(self).write.dead == old(self).write.dead,
            final(self).write.closed == old(self).write.closed,
            old(self).write.dead || old(self).write.closed ==> final(self).write == old(self).write && r == Err::<(), ChannelSinkError>(
                ChannelSinkError::Transport(TransportError),
            ),
            !old(self).write.dead && !old(self).write.closed && old(self).write.state is Idle
                ==> final(self).write == old(self).write && r == Err::<(), ChannelSinkError>(
                ChannelSinkError::Misuse(ProtocolMisuseError::SubmitWithoutReady),
            ),
            !old(self).write.dead && !old(self).write.closed && old(self).write.state is Queued
                ==> final(self).write == old(self).write && r == Err::<(), ChannelSinkError>(
                ChannelSinkError::Misuse(ProtocolMisuseError::OverlappingSubmit),
            ),
            !old(self).write.dead && !old(self).write.closed && old(self).write.state is Ready
                ==> {
                &&& r == Ok::<(), ChannelSinkError>(())
                &&& final(self).write.state is Queued
                &&& final(self).write.pending@ == Some(item)
            },
    {
        self.write.start_send(item)
    }

    /// Drives the queued frame to the transport: Ready only once the
    /// transport took it — on a pending transport nothing changes and the
    /// caller suspends; a failure is terminal and reported as the
    /// transport cause. On completion the queued value counts as sent, its
    /// frame joining the wire in submission order.
    pub fn poll_flush(&mut self, ev: IoEvent) -> (r: SinkPoll)
        requires
            old(self).wf(),
        ensures
            final(self).wf(),
            final(self).read == old(self).read,
            final(self).halvable == old(self).halvable,
            final(self).write.closed == old(self).write.closed,
            old(self).write.dead ==> final(self).write == old(self).write && r == SinkPoll::Failed(
                ChannelSinkError::Transport(TransportError),
            ),
            !old(self).write.dead && ev == IoEvent::Pending ==> final(self).write == old(self).write && r == SinkPoll::Pending,
            !old(self).write.dead && ev == IoEvent::Failed ==> final(self).write.dead && r
                == SinkPoll::Failed(ChannelSinkError::Transport(TransportError)) && final(self).write.sent == old(self).write.sent && final(self).write.wire == old(self).write.wire,
            !old(self).write.dead && ev == IoEvent::Ready && old(self).write.state is Queued ==> {
                &&& r == SinkPoll::Ready
                &&& final(self).write.state is Idle
                &&& final(self).write.sent@ == old(self).write.sent@.push(
                    old(self).write.pending@->Some_0,
                )
                &&& final(self).write.wire@ == old(self).write.wire@ + old(self).write.queued@
            },
            !old(self).write.dead && ev == IoEvent::Ready && !(old(self).write.state is Queued)
                ==> r == SinkPoll::Ready && final(self).write == old(self).write,
    {
        self.write.poll_flush(ev)
    }

    /// Flushes what remains — a still-queued value counts as sent before
    /// shutdown — then shuts the write side down; idempotent once closed.
    /// Pending leaves everything as it was; a transport failure is
    /// terminal and reported as its cause.
    pub fn poll_close(&mut self, ev: IoEvent) -> (r: SinkPoll)
        requires
            old(self).wf(),
        ensures
            final(self).wf(),
            final(self).read == old(self).read,
            final(self).halvable == old(self).halvable,
            old(self).write.dead ==> final(self).write == old(self).write && r == SinkPoll::Failed(
                ChannelSinkError::Transport(TransportError),
            ),
            !old(self).write.dead && ev == IoEvent::Pending ==> final(self).write == old(self).write && r == SinkPoll::Pending,
            !old(self).write.dead && ev == IoEvent::Failed ==> final(self).write.dead && r
                == SinkPoll::Failed(ChannelSinkError::Transport(TransportError)) && final(self).write.sent == old(self).write.sent,
            !old(self).write.dead && ev == IoEvent::Ready ==> {
                &&& r == SinkPoll::Ready
                &&& !final(self).write.dead
                &&& final(self).write.closed
                &&& final(self).write.state is Idle
                &&& final(self).write.sent@ == (if old(self).write.state is Queued {
                    old(self).write.sent@.push(old(self).write.pending@->Some_0)
                } else {
                    old(self).write.sent@
                })
            },
    {
        self.write.poll_close(ev)
    }

    /// Hands the transport driver the flushed bytes it has not yet taken.
    pub fn drain_wire(&mut self) -> (r: Vec<u8>)
        requires
            old(self).wf(),
        ensures
            final(self).wf(),
            r@ == old(self).write.out@,
            final(self).write.out@ == Seq::<u8>::empty(),
            final(self).write.sent == old(self).write.sent,
            final(self).read == old(self).read,
            final(self).halvable == old(self).halvable,
    {
        self.write.drain_wire()
    }
}

/// The consuming endpoint: a multiplexing multi-channel in accept-only
/// mode, admitting producers one at a time.
pub struct Receiver {
    pub inner: multi_channel::Channel,
}

impl Receiver {
    pub open spec fn wf(self) -> bool {
        self.inner.wf()
    }

    pub fn from_channel(channel: multi_channel::Channel) -> (r: Receiver)
        ensures
            r.inner == channel,
    {
        Receiver { inner: channel }
    }

    /// How many producers are live right now.
    pub fn len(&self) -> (r: usize)
        ensures
            r == self.inner.entries@.len(),
    {
        self.inner.len()
    }

    /// The configured capacity, if one was set.
    pub fn limit(&self) -> (r: Option<usize>)
        ensures
            self.inner.limit == 0 ==> r is None,
            self.inner.limit != 0 ==> r == Some(self.inner.limit),
    {
        self.inner.limit()
    }

    pub fn local_addr(&self) -> (r: Addr)
        ensures
            r == self.inner.local,
    {
        self.inner.local_addr()
    }

    /// A snapshot of the currently live producer addresses.
    pub fn peer_addrs(&self) -> (r: Vec<Addr>)
        ensures
            r@ == self.inner.addrs(),
    {
        self.inner.peer_addrs()
    }

    /// Consumes this receiver and partitions it into a continuing
    /// multi-receiver — which keeps the listening role — and a broadcaster
    /// owning write access to every live and every later-admitted peer.
    pub fn split(self) -> (r: Result<(Receiver, broadcast::Sender), SplitError>)
        requires
            self.wf(),
        ensures
            (forall|i: int|
                0 <= i < self.inner.entries@.len() ==> (#[trigger] self.inner.entries@[i]).write
                    is Some) && self.inner.wf() ==> (r matches Ok(pair) && pair.0.wf()
                && pair.1.wf() && pair.0.inner.accepting && pair.0.inner.entries@.len()
                == self.inner.entries@.len() && pair.1.peers@.len() == self.inner.entries@.len()
                && pair.0.inner.local == self.inner.local && pair.1.local == self.inner.local
                && pair.0.inner.limit == self.inner.limit && pair.1.limit == self.inner.limit && (
            forall|i: int|
                0 <= i < self.inner.entries@.len() ==> (#[trigger] pair.1.peers@[i]).addr
                    == self.inner.entries@[i].addr && pair.1.peers@[i].w
                    == self.inner.entries@[i].write->Some_0 && (
                #[trigger] pair.0.inner.entries@[i]).addr == self.inner.entries@[i].addr
                    && pair.0.inner.entries@[i].read == self.inner.entries@[i].read)),
            (forall|i: int|
                0 <= i < self.inner.entries@.len() ==> (#[trigger] self.inner.entries@[i]).write
                    is Some) <==> r is Ok,
            // a registry whose write halves were already taken away cannot
            // be split again
            r matches Err(e) ==> e == SplitError::NotHalvable,
    {
        if !self.check_wf() {
            return Err(SplitError::NotHalvable);
        }
        match self.inner.split(true) {
            Err(e) => Err(e),
            Ok((rx, tx)) => Ok((Receiver { inner: rx }, tx)),
        }
    }

    /// Admits one producer's established connection; `CapacityExceeded`
    /// exactly when the registry is full of other peers.
    pub fn accept(&mut self, conn: PeerConn) -> (r: Result<Addr, ReceiverAcceptingError>)
        requires
            old(self).wf(),
        ensures
            final(self).wf(),
            final(self).inner.local == old(self).inner.local,
            final(self).inner.limit == old(self).inner.limit,
            final(self).inner.codec == old(self).inner.codec,
            final(self).inner.accepting == old(self).inner.accepting,
            !old(self).inner.accepting ==> *final(self) == *old(self) && (r matches Err(e) && e
                == (ReceiverAcceptingError { source: AcceptError::Rejected })),
            old(self).inner.accepting && old(self).inner.at_capacity() && !old(self).inner.contains_addr(conn.peer) ==> *final(self) == *old(self) && (r matches Err(e)
                && e == (ReceiverAcceptingError { source: AcceptError::CapacityExceeded })),
            old(self).inner.accepting && !(old(self).inner.at_capacity() && !old(self).inner.contains_addr(conn.peer)) ==> r == Ok::<Addr, ReceiverAcceptingError>(
                conn.peer,
            ) && final(self).inner.entries@.len() == old(self).inner.entries@.len() + (if old(self).inner.contains_addr(conn.peer) {
                0int
            } else {
                1int
            }) && final(self).inner.contains_addr(conn.peer) && (!old(self).inner.contains_addr(
                conn.peer,
            ) ==> final(self).inner.entries@.drop_last() == old(self).inner.entries@
                && crate::multi_channel::is_fresh_entry(
                final(self).inner.entries@.last(),
                conn,
                old(self).inner.codec,
            )) && (exists|i: int|
                0 <= i < final(self).inner.entries@.len() && crate::multi_channel::is_fresh_entry(
                    #[trigger] final(self).inner.entries@[i],
                    conn,
                    old(self).inner.codec,
                ) && (forall|j: int|
                    0 <= j < final(self).inner.entries@.len() && j != i
                        ==> #[trigger] final(self).inner.entries@[j] == old(self).inner.entries@[j])),
    {
        match self.inner.accept(conn, true) {
            Ok(a) => Ok(a),
            Err(e) => Err(ReceiverAcceptingError { source: e }),
        }
    }

    /// The next value from any producer, in fair round-robin order; a
    /// malformed frame is an item-level error from that producer alone.
    pub fn recv(&mut self) -> (r: Recv)
        requires
            old(self).wf(),
        ensures
            final(self).wf(),
            final(self).inner.accepting == old(self).inner.accepting,
            final(self).inner.local == old(self).inner.local,
            final(self).inner.limit == old(self).inner.limit,
            final(self).inner.codec == old(self).inner.codec,
            r is End ==> old(self).inner.entries@.len() == 0 && !old(self).inner.accepting,
            r matches Recv::Item(rf) ==> exists|res: Result<u64, DecodeError>, a: Addr|
                #[trigger] item_step(old(self).inner, final(self).inner, res, a) && rf
                    == wrap_item(res),
            r is Pending ==> forall|i: int|
                0 <= i < old(self).inner.entries@.len() ==> !(#[trigger] old(self).inner.entries@[i]).read.has_frame(),
            r is Pending ==> (*final(self) == *old(self) || evict_step(
                old(self).inner,
                final(self).inner,
            )),
            r is Pending && (exists|i: int|
                0 <= i < old(self).inner.entries@.len() && (#[trigger] old(self).inner.entries@[i]).read.at_end()) ==> evict_step(
                old(self).inner,
                final(self).inner,
            ),
    {
        match self.inner.poll_next() {
            MultiPoll::Pending => Recv::Pending,
            MultiPoll::End => Recv::End,
            MultiPoll::Item(res, a) => {
                let ghost res0 = res;
                let wrapped = match res {
                    Ok(v) => Ok(v),
                    Err(e) => Err(ReceiverError { source: ChannelStreamError::Decode(e) }),
                };
                proof {
                    assert(wrapped == wrap_item(res0));
                }
                Recv::Item(wrapped)
            },
        }
    }

    /// As `recv`, with the origin address of each item.
    pub fn recv_with_addr(&mut self) -> (r: RecvWithAddr)
        requires
            old(self).wf(),
        ensures
            final(self).wf(),
            final(self).inner.accepting == old(self).inner.accepting,
            final(self).inner.local == old(self).inner.local,
            final(self).inner.limit == old(self).inner.limit,
            final(self).inner.codec == old(self).inner.codec,
            r is End ==> old(self).inner.entries@.len() == 0 && !old(self).inner.accepting,
            r matches RecvWithAddr::Item(rf, a) ==> item_step_wrapped(
                old(self).inner,
                final(self).inner,
                rf,
                a,
            ),
            r is Pending ==> forall|i: int|
                0 <= i < old(self).inner.entries@.len() ==> !(#[trigger] old(self).inner.entries@[i]).read.has_frame(),
            r is Pending ==> (*final(self) == *old(self) || evict_step(
                old(self).inner,
                final(self).inner,
            )),
            r is Pending && (exists|i: int|
                0 <= i < old(self).inner.entries@.len() && (#[trigger] old(self).inner.entries@[i]).read.at_end()) ==> evict_step(
                old(self).inner,
                final(self).inner,
            ),
    {
        match self.inner.poll_next() {
            MultiPoll::Pending => RecvWithAddr::Pending,
            MultiPoll::End => RecvWithAddr::End,
            MultiPoll::Item(res, a) => {
                let ghost res0 = res;
                let wrapped = match res {
                    Ok(v) => Ok(v),
                    Err(e) => Err(ReceiverError { source: ChannelStreamError::Decode(e) }),
                };
                proof {
                    assert(wrapped == wrap_item(res0));
                    assert(item_step(old(self).inner, self.inner, res0, a));
                    assert(item_step_wrapped(old(self).inner, self.inner, wrapped, a));
                }
                RecvWithAddr::Item(wrapped, a)
            },
        }
    }

    /// The next whole frame from any producer, undecoded.
    pub fn recv_frame(&mut self) -> (r: RecvFrame)
        requires
            old(self).wf(),
        ensures
            final(self).wf(),
            final(self).inner.accepting == old(self).inner.accepting,
            final(self).inner.local == old(self).inner.local,
            final(self).inner.limit == old(self).inner.limit,
            final(self).inner.codec == old(self).inner.codec,
            r is End ==> old(self).inner.entries@.len() == 0 && !old(self).inner.accepting,
            r matches RecvFrame::Frame(f) ==> frame_step_some(
                old(self).inner,
                final(self).inner,
                bytes_content(f),
            ),
            r is Pending ==> forall|i: int|
                0 <= i < old(self).inner.entries@.len() ==> !(#[trigger] old(self).inner.entries@[i]).read.has_frame(),
            r is Pending ==> (*final(self) == *old(self) || evict_step(
                old(self).inner,
                final(self).inner,
            )),
            r is Pending && (exists|i: int|
                0 <= i < old(self).inner.entries@.len() && (#[trigger] old(self).inner.entries@[i]).read.at_end()) ==> evict_step(
                old(self).inner,
                final(self).inner,
            ),
    {
        match self.inner.poll_next_frame() {
            crate::multi_channel::MultiFramePoll::Pending => RecvFrame::Pending,
            crate::multi_channel::MultiFramePoll::End => RecvFrame::End,
            crate::multi_channel::MultiFramePoll::Frame(f, a) => {
                proof {
                    assert(crate::multi_channel::frame_step(
                        old(self).inner,
                        self.inner,
                        bytes_content(f),
                        a,
                    ));
                    assert(frame_step_some(old(self).inner, self.inner, bytes_content(f)));
                }
                RecvFrame::Frame(f)
            },
        }
    }

    /// As `recv_frame`, with the origin address of each frame.
    pub fn recv_frame_with_addr(&mut self) -> (r: RecvFrameWithAddr)
        requires
            old(self).wf(),
        ensures
            final(self).wf(),
            final(self).inner.accepting == old(self).inner.accepting,
            final(self).inner.local == old(self).inner.local,
            final(self).inner.limit == old(self).inner.limit,
            final(self).inner.codec == old(self).inner.codec,
            r is End ==> old(self).inner.entries@.len() == 0 && !old(self).inner.accepting,
            r matches RecvFrameWithAddr::Frame(f, a) ==> crate::multi_channel::frame_step(
                old(self).inner,
                final(self).inner,
                bytes_content(f),
                a,
            ),
            r is Pending ==> forall|i: int|
                0 <= i < old(self).inner.entries@.len() ==> !(#[trigger] old(self).inner.entries@[i]).read.has_frame(),
            r is Pending ==> (*final(self) == *old(self) || evict_step(
                old(self).inner,
                final(self).inner,
            )),
            r is Pending && (exists|i: int|
                0 <= i < old(self).inner.entries@.len() && (#[trigger] old(self).inner.entries@[i]).read.at_end()) ==> evict_step(
                old(self).inner,
                final(self).inner,
            ),
    {
        match self.inner.poll_next_frame() {
            crate::multi_channel::MultiFramePoll::Pending => RecvFrameWithAddr::Pending,
            crate::multi_channel::MultiFramePoll::End => RecvFrameWithAddr::End,
            crate::multi_channel::MultiFramePoll::Frame(f, a) => RecvFrameWithAddr::Frame(f, a),
        }
    }

    /// One step of the stream view: identical to `recv`.
    pub fn poll_next(&mut self) -> (r: Recv)
        requires
            old(self).wf(),
        ensures
            final(self).wf(),
            final(self).inner.accepting == old(self).inner.accepting,
            r is End ==> old(self).inner.entries@.len() == 0 && !old(self).inner.accepting,
            r matches Recv::Item(rf) ==> exists|res: Result<u64, DecodeError>, a: Addr|
                #[trigger] item_step(old(self).inner, final(self).inner, res, a) && rf
                    == wrap_item(res),
            r is Pending ==> forall|i: int|
                0 <= i < old(self).inner.entries@.len() ==> !(#[trigger] old(self).inner.entries@[i]).read.has_frame(),
            r is Pending ==> (*final(self) == *old(self) || evict_step(
                old(self).inner,
                final(self).inner,
            )),
            r is Pending && (exists|i: int|
                0 <= i < old(self).inner.entries@.len() && (#[trigger] old(self).inner.entries@[i]).read.at_end()) ==> evict_step(
                old(self).inner,
                final(self).inner,
            ),
    {
        self.recv()
    }

    /// Hands one producer's read half the bytes its transport delivered.
    pub fn feed_peer(&mut self, addr: Addr, chunk: &Vec<u8>) -> (r: bool)
        requires
            old(self).wf(),
        ensures
            final(self).wf(),
            final(self).inner.accepting == old(self).inner.accepting,
            final(self).inner.local == old(self).inner.local,
            final(self).inner.limit == old(self).inner.limit,
            final(self).inner.codec == old(self).inner.codec,
            final(self).inner.cursor == old(self).inner.cursor,
            !r ==> *final(self) == *old(self),
            !old(self).inner.contains_addr(addr) ==> !r,
            multi_channel::can_feed(old(self).inner, addr, chunk@) ==> r,
            r ==> exists|i: int|
                0 <= i < old(self).inner.entries@.len() && (#[trigger] old(self).inner.entries@[i]).addr == addr && final(self).inner.entries@ == old(self).inner.entries@.update(i, final(self).inner.entries@[i]) && final(self).inner.entries@[i].addr == addr && final(self).inner.entries@[i].write == old(self).inner.entries@[i].write && final(self).inner.entries@[i].read.fed@ == old(self).inner.entries@[i].read.fed@ + chunk@ && bytes_content(
                    final(self).inner.entries@[i].read.buf,
                ) == bytes_content(old(self).inner.entries@[i].read.buf) + chunk@ && final(self).inner.entries@[i].read.taken == old(self).inner.entries@[i].read.taken,
    {
        self.inner.feed_peer(addr, chunk)
    }

    /// Records one producer's clean close; its buffered frames stay
    /// readable, then the entry is evicted silently.
    pub fn eof_peer(&mut self, addr: Addr) -> (r: bool)
        requires
            old(self).wf(),
        ensures
            final(self).wf(),
            final(self).inner.accepting == old(self).inner.accepting,
            final(self).inner.local == old(self).inner.local,
            final(self).inner.limit == old(self).inner.limit,
            final(self).inner.codec == old(self).inner.codec,
            final(self).inner.cursor == old(self).inner.cursor,
            !r ==> *final(self) == *old(self),
            r <==> old(self).inner.contains_addr(addr),
            r ==> exists|i: int|
                0 <= i < old(self).inner.entries@.len() && (#[trigger] old(self).inner.entries@[i]).addr == addr && final(self).inner.entries@ == old(self).inner.entries@.update(
                    i,
                    multi_channel::Entry {
                        read: ReadHalf { eof: true, ..old(self).inner.entries@[i].read },
                        ..old(self).inner.entries@[i]
                    },
                ),
    {
        self.inner.eof_peer(addr)
    }

    /// Records one producer's transport failure.
    pub fn fail_peer(&mut self, addr: Addr) -> (r: bool)
        requires
            old(self).wf(),
        ensures
            final(self).wf(),
            final(self).inner.accepting == old(self).inner.accepting,
            final(self).inner.local == old(self).inner.local,
            final(self).inner.limit == old(self).inner.limit,
            final(self).inner.codec == old(self).inner.codec,
            final(self).inner.cursor == old(self).inner.cursor,
            !r ==> *final(self) == *old(self),
            r <==> old(self).inner.contains_addr(addr),
            r ==> exists|i: int|
                0 <= i < old(self).inner.entries@.len() && (#[trigger] old(self).inner.entries@[i]).addr == addr && final(self).inner.entries@ == old(self).inner.entries@.update(
                    i,
                    multi_channel::Entry {
                        read: ReadHalf { dead: true, ..old(self).inner.entries@[i].read },
                        ..old(self).inner.entries@[i]
                    },
                ),
    {
        self.inner.fail_peer(addr)
    }

    /// Removes and returns one peer's write capability, for attachment to
    /// a broadcaster obtained from `split`.
    pub fn take_write(&mut self, addr: Addr) -> (r: Option<WriteHalf>)
        requires
            old(self).wf(),
        ensures
            final(self).wf(),
            final(self).inner.accepting == old(self).inner.accepting,
            final(self).inner.local == old(self).inner.local,
            final(self).inner.limit == old(self).inner.limit,
            final(self).inner.codec == old(self).inner.codec,
            final(self).inner.cursor == old(self).inner.cursor,
            r is None ==> final(self).inner.entries@ == old(self).inner.entries@,
            multi_channel::has_peer_write(old(self).inner, addr) ==> r is Some,
            r matches Some(w) ==> w.wf() && !w.dead && !w.closed && w.state is Idle && w.codec
                == old(self).inner.codec && w.peer == addr && (exists|i: int|
                0 <= i < old(self).inner.entries@.len() && (#[trigger] old(self).inner.entries@[i]).addr == addr && old(self).inner.entries@[i].write == Some(w)
                    && final(self).inner.entries@ == old(self).inner.entries@.update(
                    i,
                    crate::multi_channel::Entry { write: None, ..old(self).inner.entries@[i] },
                )),
    {
        self.inner.take_write(addr)
    }

    /// Whether the registry invariant is checkable here: the facade's
    /// split needs every write capability still present.
    fn check_wf(&self) -> (r: bool)
        ensures
            r ==> forall|i: int|
                0 <= i < self.inner.entries@.len() ==> (#[trigger] self.inner.entries@[i]).write
                    is Some,
            self.inner.wf() && (forall|i: int|
                0 <= i < self.inner.entries@.len() ==> (#[trigger] self.inner.entries@[i]).write
                    is Some) ==> r,
    {
        let mut i: usize = 0;
        while i < self.inner.entries.len()
            invariant
                i <= self.inner.entries@.len(),
                forall|j: int|
                    0 <= j < i ==> (#[trigger] self.inner.entries@[j]).write is Some,
            decreases self.inner.entries@.len() - i,
        {
            match &self.inner.entries[i].write {
                Some(_) => {},
                None => {
                    return false;
                },
            }
            i = i + 1;
        }
        true
    }
}

} // verus!
