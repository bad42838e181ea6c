//! The framed single channel: one duplex byte transport exposed as a
//! backpressured typed sink and a typed/raw-frame source.
//!
//! The transport itself is driven outside: readiness, flush completion,
//! arriving bytes, end-of-stream and transport failure come in as events,
//! and every transition is a pure, contracted step. Splitting transfers the
//! read capability and the write capability to two new owners and consumes
//! the original, so no two live handles ever share mutable access to one
//! connection.

use vstd::prelude::*;

use crate::addr::{Addr, PeerConn};
use crate::bytebuf::{bm_get, bm_len, bm_new, bm_split_to, bm_to_vec, bm_extend, bytes_content};
use crate::codec::{decode_spec, encode_spec, Codec};
use crate::errors::{
    ChannelSinkError, DecodeError, ProtocolMisuseError, SplitError, TransportError,
};
use crate::frame::{
    all_frameable, encode_frame, frame_of, frameable, frames_of, header_value, take_frame,
    wire_of_frames,
};

verus! {

/// What the transport driver observed when it was asked to make progress.
#[derive(Clone, Copy, Debug, PartialEq, Eq, Structural)]
pub enum IoEvent {
    /// No progress is possible yet; the caller's task will be woken later.
    Pending,
    /// The transport accepted the work.
    Ready,
    /// The transport failed; terminal for this peer connection.
    Failed,
}

/// The outcome of one write-path step.
#[derive(Clone, Copy, Debug, PartialEq, Eq, Structural)]
pub enum SinkPoll {
    Pending,
    Ready,
    Failed(ChannelSinkError),
}

/// The write discipline: a ready signal must precede each submit, and a
/// submitted value must be flushed before the next may be submitted.
#[derive(Clone, Copy, Debug, PartialEq, Eq, Structural)]
pub enum WriteState {
    /// No ready signal observed since the last submit.
    Idle,
    /// A ready signal was observed; exactly one submit may follow.
    Ready,
    /// One value is queued and must be flushed before anything else.
    Queued,
}

/// The wire a channel with this codec produces for these values, in order:
/// one frame per value.
pub open spec fn wire_of_values(c: Codec, vs: Seq<u64>) -> Seq<u8> {
    wire_of_frames(vs.map_values(|v: u64| encode_spec(c, v)))
}

/// The write capability of one peer connection: owns the submit queue and
/// the bytes flushed towards the transport.
pub struct WriteHalf {
    pub local: Addr,
    pub peer: Addr,
    pub codec: Codec,
    /// Where the ready/submit/flush discipline stands.
    pub state: WriteState,
    /// The frame of the one submitted, not yet flushed value.
    pub queued: Vec<u8>,
    /// Flushed bytes the transport driver has not yet taken.
    pub out: Vec<u8>,
    pub closed: bool,
    pub dead: bool,
    /// Every value flushed so far, in submission order.
    pub sent: Ghost<Seq<u64>>,
    /// Every byte flushed so far: the channel's side of the wire.
    pub wire: Ghost<Seq<u8>>,
    /// The prefix of the wire the transport driver has already taken.
    pub drained: Ghost<Seq<u8>>,
    /// The submitted value while one is queued.
    pub pending: Ghost<Option<u64>>,
}

impl WriteHalf {
    /// The write half's internal consistency: the wire is exactly the
    /// framed encodings of the flushed values, the driver has taken a
    /// prefix of it, and a queued frame matches the pending value.
    pub open spec fn wf(self) -> bool {
        &&& self.wire@ == wire_of_values(self.codec, self.sent@)
        &&& self.drained@ + self.out@ == self.wire@
        &&& (self.state is Queued <==> self.pending@ is Some)
        &&& (self.pending@ matches Some(v) ==> self.queued@ == frame_of(
            encode_spec(self.codec, v),
        ))
        &&& (self.pending@ is None ==> self.queued@.len() == 0)
    }

    pub fn new(local: Addr, peer: Addr, codec: Codec) -> (r: WriteHalf)
        ensures
            r.wf(),
            r.local == local,
            r.peer == peer,
            r.codec == codec,
            r.state == WriteState::Idle,
            r.sent@ == Seq::<u64>::empty(),
            r.drained@ == Seq::<u8>::empty(),
            r.out@ == Seq::<u8>::empty(),
            !r.closed,
            !r.dead,
    {
        let r = WriteHalf {
            local,
            peer,
            codec,
            state: WriteState::Idle,
            queued: Vec::new(),
            out: Vec::new(),
            closed: false,
            dead: false,
            sent: Ghost(Seq::empty()),
            wire: Ghost(Seq::empty()),
            drained: Ghost(Seq::empty()),
            pending: Ghost(None),
        };
        proof {
            assert(wire_of_values(codec, Seq::<u64>::empty()) =~= Seq::<u8>::empty()) by {
                assert(Seq::<u64>::empty().map_values(|v: u64| encode_spec(codec, v)).len()
                    == 0);
            };
            assert(r.drained@ + r.out@ =~= r.wire@);
        }
        r
    }

    /// Probes whether a send may proceed, given what the transport driver
    /// observed. Never touches the histories; a ready transport moves an
    /// idle channel to ready.
    pub fn poll_ready(&mut self, ev: IoEvent) -> (r: SinkPoll)
        requires
            old(self).wf(),
        ensures
            final(self).wf(),
            final(self).sent == old(self).sent,
            final(self).wire == old(self).wire,
            final(self).drained == old(self).drained,
            final(self).out == old(self).out,
            final(self).queued == old(self).queued,
            final(self).pending == old(self).pending,
            final(self).local == old(self).local,
            final(self).peer == old(self).peer,
            final(self).codec == old(self).codec,
            final(self).closed == old(self).closed,
            old(self).dead ==> *final(self) == *old(self) && r == SinkPoll::Failed(
                ChannelSinkError::Transport(TransportError),
            ),
            !old(self).dead && ev == IoEvent::Pending ==> *final(self) == *old(self) && r
                == SinkPoll::Pending,
            !old(self).dead && ev == IoEvent::Failed ==> final(self).dead && r == SinkPoll::Failed(
                ChannelSinkError::Transport(TransportError),
            ),
            !old(self).dead && ev == IoEvent::Ready ==> {
                &&& !final(self).dead
                &&& r == SinkPoll::Ready
                &&& final(self).state == (if old(self).state is Queued {
                    WriteState::Queued
                } else {
                    WriteState::Ready
                })
            },
    {
        if self.dead {
            return SinkPoll::Failed(ChannelSinkError::Transport(TransportError));
        }
        match ev {
            IoEvent::Pending => SinkPoll::Pending,
            IoEvent::Failed => {
                self.dead = true;
                SinkPoll::Failed(ChannelSinkError::Transport(TransportError))
            },
            IoEvent::Ready => {
                match self.state {
                    WriteState::Queued => {},
                    _ => {
                        self.state = WriteState::Ready;
                    },
                }
                SinkPoll::Ready
            },
        }
    }

    /// Encodes and queues exactly one value. Fails immediately, changing
    /// nothing, if no ready signal preceded it, if a value is still
    /// unflushed, or if the channel is closed or dead.
    pub fn start_send(&mut self, item: u64) -> (r: Result<(), ChannelSinkError>)
        requires
            old(self).wf(),
        ensures
            final(self).wf(),
            final(self).sent == old(self).sent,
            final(self).wire == old(self).wire,
            final(self).drained == old(self).drained,
            final(self).out == old(self).out,
            final(self).local == old(self).local,
            final(self).peer == old(self).peer,
            final(self).codec == old(self).codec,
            final(self).closed == old(self).closed,
            final(self).dead == old(self).dead,
            old(self).dead || old(self).closed ==> *final(self) == *old(self) && r == Err::<
                (),
                ChannelSinkError,
            >(ChannelSinkError::Transport(TransportError)),
            !old(self).dead && !old(self).closed && old(self).state is Idle ==> *final(self) == *old(self) && r == Err::<(), ChannelSinkError>(
                ChannelSinkError::Misuse(ProtocolMisuseError::SubmitWithoutReady),
            ),
            !old(self).dead && !old(self).closed && old(self).state is Queued ==> *final(self)
                == *old(self) && r == Err::<(), ChannelSinkError>(
                ChannelSinkError::Misuse(ProtocolMisuseError::OverlappingSubmit),
            ),
            !old(self).dead && !old(self).closed && old(self).state is Ready ==> {
                &&& r == Ok::<(), ChannelSinkError>(())
                &&& final(self).state is Queued
                &&& final(self).pending@ == Some(item)
                &&& final(self).queued@ == frame_of(encode_spec(old(self).codec, item))
            },
    {
        if self.dead || self.closed {
            return Err(ChannelSinkError::Transport(TransportError));
        }
        match self.state {
            WriteState::Idle => Err(
                ChannelSinkError::Misuse(ProtocolMisuseError::SubmitWithoutReady),
            ),
            WriteState::Queued => Err(
                ChannelSinkError::Misuse(ProtocolMisuseError::OverlappingSubmit),
            ),
            WriteState::Ready => {
                let payload = self.codec.encode(item);
                proof {
                    crate::codec::lemma_encode_spec_len(self.codec, item);
                }
                let framed = encode_frame(&payload);
                self.queued = framed;
                self.state = WriteState::Queued;
                self.pending = Ghost(Some(item));
                Ok(())
            },
        }
    }

    /// Drives the queued frame to the transport. On flush completion the
    /// queued value counts as sent: its frame joins the wire, in submission
    /// order.
    pub fn poll_flush(&mut self, ev: IoEvent) -> (r: SinkPoll)
        requires
            old(self).wf(),
        ensures
            final(self).wf(),
            final(self).local == old(self).local,
            final(self).peer == old(self).peer,
            final(self).codec == old(self).codec,
            final(self).closed == old(self).closed,
            final(self).drained == old(self).drained,
            old(self).dead ==> *final(self) == *old(self) && r == SinkPoll::Failed(
                ChannelSinkError::Transport(TransportError),
            ),
            !old(self).dead && ev == IoEvent::Pending ==> *final(self) == *old(self) && r
                == SinkPoll::Pending,
            !old(self).dead && ev == IoEvent::Failed ==> final(self).dead && r == SinkPoll::Failed(
                ChannelSinkError::Transport(TransportError),
            ) && final(self).sent == old(self).sent && final(self).wire == old(self).wire,
            !old(self).dead && ev == IoEvent::Ready && old(self).state is Queued ==> {
                &&& r == SinkPoll::Ready
                &&& !final(self).dead
                &&& final(self).state is Idle
                &&& final(self).sent@ == old(self).sent@.push(old(self).pending@->Some_0)
                &&& final(self).wire@ == old(self).wire@ + old(self).queued@
                &&& final(self).out@ == old(self).out@ + old(self).queued@
            },
            !old(self).dead && ev == IoEvent::Ready && !(old(self).state is Queued) ==> *final(self) == *old(self) && r == SinkPoll::Ready,
    {
        if self.dead {
            return SinkPoll::Failed(ChannelSinkError::Transport(TransportError));
        }
        match ev {
            IoEvent::Pending => SinkPoll::Pending,
            IoEvent::Failed => {
                self.dead = true;
                SinkPoll::Failed(ChannelSinkError::Transport(TransportError))
            },
            IoEvent::Ready => {
                match self.state {
                    WriteState::Queued => {
                        self.flush_step();
                        SinkPoll::Ready
                    },
                    _ => SinkPoll::Ready,
                }
            },
        }
    }

    /// The flush transition itself: the queued frame joins the wire and the
    /// driver's outbox, and the channel returns to idle.
    fn flush_step(&mut self)
        requires
            old(self).wf(),
            old(self).state is Queued,
        ensures
            final(self).wf(),
            final(self).local == old(self).local,
            final(self).peer == old(self).peer,
            final(self).codec == old(self).codec,
            final(self).closed == old(self).closed,
            final(self).dead == old(self).dead,
            final(self).drained == old(self).drained,
            final(self).state is Idle,
            final(self).sent@ == old(self).sent@.push(old(self).pending@->Some_0),
            final(self).wire@ == old(self).wire@ + old(self).queued@,
            final(self).out@ == old(self).out@ + old(self).queued@,
    {
        let v = Ghost(self.pending@->Some_0);
        let mut q: Vec<u8> = Vec::new();
        core::mem::swap(&mut q, &mut self.queued);
        let mut i: usize = 0;
        while i < q.len()
            invariant
                i <= q@.len(),
                self.out@ == old(self).out@ + q@.take(i as int),
                *self == (WriteHalf { out: self.out, queued: self.queued, ..*old(self) }),
                q@ == old(self).queued@,
                self.queued@.len() == 0,
            decreases q@.len() - i,
        {
            let b = q[i];
            self.out.push(b);
            proof {
                assert(self.out@ =~= old(self).out@ + q@.take(i + 1));
            }
            i = i + 1;
        }
        proof {
            assert(q@.take(q@.len() as int) =~= q@);
        }
        self.state = WriteState::Idle;
        self.sent = Ghost(self.sent@.push(v@));
        self.wire = Ghost(self.wire@ + q@);
        self.pending = Ghost(None);
        proof {
            lemma_wire_of_values_push(old(self).codec, old(self).sent@, v@);
            assert(self.drained@ + self.out@ =~= self.wire@);
        }
    }

    /// Flushes what remains, then shuts the write side down; idempotent
    /// once closed.
    pub fn poll_close(&mut self, ev: IoEvent) -> (r: SinkPoll)
        requires
            old(self).wf(),
        ensures
            final(self).wf(),
            final(self).local == old(self).local,
            final(self).peer == old(self).peer,
            final(self).codec == old(self).codec,
            final(self).drained == old(self).drained,
            old(self).dead ==> *final(self) == *old(self) && r == SinkPoll::Failed(
                ChannelSinkError::Transport(TransportError),
            ),
            !old(self).dead && ev == IoEvent::Pending ==> *final(self) == *old(self) && r
                == SinkPoll::Pending,
            !old(self).dead && ev == IoEvent::Failed ==> final(self).dead && r == SinkPoll::Failed(
                ChannelSinkError::Transport(TransportError),
            ) && final(self).sent == old(self).sent,
            !old(self).dead && ev == IoEvent::Ready ==> {
                &&& r == SinkPoll::Ready
                &&& !final(self).dead
                &&& final(self).closed
                &&& final(self).state is Idle
                &&& final(self).sent@ == (if old(self).state is Queued {
                    old(self).sent@.push(old(self).pending@->Some_0)
                } else {
                    old(self).sent@
                })
            },
    {
        if self.dead {
            return SinkPoll::Failed(ChannelSinkError::Transport(TransportError));
        }
        match ev {
            IoEvent::Pending => SinkPoll::Pending,
            IoEvent::Failed => {
                self.dead = true;
                SinkPoll::Failed(ChannelSinkError::Transport(TransportError))
            },
            IoEvent::Ready => {
                match self.state {
                    WriteState::Queued => self.flush_step(),
                    _ => {},
                }
                self.state = WriteState::Idle;
                self.closed = true;
                SinkPoll::Ready
            },
        }
    }

    /// Hands the transport driver the flushed bytes it has not yet taken;
    /// the driver writes them to the socket verbatim.
    pub fn drain_wire(&mut self) -> (r: Vec<u8>)
        requires
            old(self).wf(),
        ensures
            final(self).wf(),
            r@ == old(self).out@,
            final(self).out@ == Seq::<u8>::empty(),
            final(self).drained@ == old(self).drained@ + old(self).out@,
            *final(self) == (WriteHalf {
                out: final(self).out,
                drained: final(self).drained,
                ..*old(self)
            }),
    {
        let mut r: Vec<u8> = Vec::new();
        core::mem::swap(&mut r, &mut self.out);
        self.drained = Ghost(self.drained@ + r@);
        proof {
            assert(self.drained@ + self.out@ =~= old(self).drained@ + old(self).out@);
        }
        r
    }

    /// The convenience send: drives ready, submit and flush to completion
    /// against the in-memory queue, so that on success the value — preceded
    /// by any value still queued from an earlier submit — counts as sent.
    /// The transport driver then writes the wire bytes out.
    pub fn send(&mut self, item: u64) -> (r: Result<(), crate::errors::SenderError>)
        requires
            old(self).wf(),
        ensures
            final(self).wf(),
            final(self).local == old(self).local,
            final(self).peer == old(self).peer,
            final(self).codec == old(self).codec,
            final(self).drained == old(self).drained,
            final(self).closed == old(self).closed,
            final(self).dead == old(self).dead,
            old(self).dead || old(self).closed ==> *final(self) == *old(self) && r == Err::<
                (),
                crate::errors::SenderError,
            >(crate::errors::SenderError {
                source: ChannelSinkError::Transport(TransportError),
            }),
            !old(self).dead && !old(self).closed ==> {
                &&& r == Ok::<(), crate::errors::SenderError>(())
                &&& final(self).state is Idle
                &&& final(self).sent@ == (if old(self).state is Queued {
                    old(self).sent@.push(old(self).pending@->Some_0)
                } else {
                    old(self).sent@
                }).push(item)
            },
    {
        if self.dead || self.closed {
            return Err(
                crate::errors::SenderError { source: ChannelSinkError::Transport(TransportError) },
            );
        }
        match self.state {
            WriteState::Queued => self.flush_step(),
            _ => {},
        }
        self.state = WriteState::Ready;
        let sent = self.start_send(item);
        proof {
            assert(sent is Ok);
        }
        self.flush_step();
        Ok(())
    }
}

/// One frame of one value appends exactly that value's frame to the wire.
proof fn lemma_wire_of_frames_push(ps: Seq<Seq<u8>>, p: Seq<u8>)
    ensures
        wire_of_frames(ps.push(p)) == wire_of_frames(ps) + frame_of(p),
    decreases ps.len(),
{
    if ps.len() == 0 {
        assert(ps.push(p).skip(1) =~= Seq::<Seq<u8>>::empty());
        assert(ps.push(p)[0] == p);
        assert(wire_of_frames(Seq::<Seq<u8>>::empty()) == Seq::<u8>::empty());
        assert(wire_of_frames(ps.push(p)) == frame_of(p) + Seq::<u8>::empty());
        assert(ps =~= Seq::<Seq<u8>>::empty());
        assert(wire_of_frames(ps.push(p)) =~= wire_of_frames(ps) + frame_of(p));
    } else {
        assert(ps.push(p)[0] == ps[0]);
        assert(ps.push(p).skip(1) =~= ps.skip(1).push(p));
        lemma_wire_of_frames_push(ps.skip(1), p);
        assert(wire_of_frames(ps.push(p)) =~= wire_of_frames(ps) + frame_of(p));
    }
}

/// Sending one more value appends exactly its frame to the channel's wire.
proof fn lemma_wire_of_values_push(c: Codec, vs: Seq<u64>, v: u64)
    ensures
        wire_of_values(c, vs.push(v)) == wire_of_values(c, vs) + frame_of(encode_spec(c, v)),
{
    let f = |x: u64| encode_spec(c, x);
    assert(vs.push(v).map_values(f) =~= vs.map_values(f).push(f(v)));
    lemma_wire_of_frames_push(vs.map_values(f), f(v));
}


/// The outcome of one read-path step on the raw-frame surface.
pub enum FramePoll {
    /// No whole frame has arrived yet and the peer is still live.
    Pending,
    /// One whole frame, undecoded.
    Frame(bytes::BytesMut),
    /// The peer closed or failed and no whole frame remains: terminal.
    End,
}

/// The outcome of one read-path step on the typed surface. A decode error
/// is an item — the channel stays readable.
pub enum RecvPoll {
    Pending,
    Item(Result<u64, DecodeError>),
    End,
}

/// The read capability of one peer connection: owns the buffer of arrived
/// bytes and splits whole frames off its front.
pub struct ReadHalf {
    pub local: Addr,
    pub peer: Addr,
    pub codec: Codec,
    /// Arrived bytes not yet taken as frames.
    pub buf: bytes::BytesMut,
    /// Every byte the transport driver ever fed, in arrival order.
    pub fed: Ghost<Seq<u8>>,
    /// Every frame payload delivered so far, in arrival order.
    pub taken: Ghost<Seq<Seq<u8>>>,
    /// The peer closed its write side cleanly.
    pub eof: bool,
    /// The peer's transport failed.
    pub dead: bool,
}

impl ReadHalf {
    /// The read half's internal consistency: the fed bytes are exactly the
    /// frames already delivered followed by the still-buffered rest.
    pub open spec fn wf(self) -> bool {
        &&& self.fed@ == wire_of_frames(self.taken@) + bytes_content(self.buf)
        &&& all_frameable(self.taken@)
    }

    pub fn new(local: Addr, peer: Addr, codec: Codec) -> (r: ReadHalf)
        ensures
            r.wf(),
            r.local == local,
            r.peer == peer,
            r.codec == codec,
            r.fed@ == Seq::<u8>::empty(),
            r.taken@ == Seq::<Seq<u8>>::empty(),
            bytes_content(r.buf) == Seq::<u8>::empty(),
            !r.eof,
            !r.dead,
    {
        let r = ReadHalf {
            local,
            peer,
            codec,
            buf: bm_new(),
            fed: Ghost(Seq::empty()),
            taken: Ghost(Seq::empty()),
            eof: false,
            dead: false,
        };
        proof {
            assert(wire_of_frames(r.taken@) + bytes_content(r.buf) =~= Seq::<u8>::empty());
        }
        r
    }

    /// Takes bytes the transport driver read off the socket, verbatim.
    pub fn feed(&mut self, chunk: &Vec<u8>)
        requires
            old(self).wf(),
            bytes_content(old(self).buf).len() + chunk@.len() <= 0x7fff_ffff,
        ensures
            final(self).wf(),
            final(self).fed@ == old(self).fed@ + chunk@,
            bytes_content(final(self).buf) == bytes_content(old(self).buf) + chunk@,
            final(self).taken == old(self).taken,
            final(self).local == old(self).local,
            final(self).peer == old(self).peer,
            final(self).codec == old(self).codec,
            final(self).eof == old(self).eof,
            final(self).dead == old(self).dead,
    {
        bm_extend(&mut self.buf, chunk);
        self.fed = Ghost(self.fed@ + chunk@);
        proof {
            assert(self.fed@ =~= wire_of_frames(self.taken@) + bytes_content(self.buf));
        }
    }

    /// Records the peer's clean close of its write side.
    pub fn set_eof(&mut self)
        requires
            old(self).wf(),
        ensures
            final(self).wf(),
            *final(self) == (ReadHalf { eof: true, ..*old(self) }),
    {
        self.eof = true;
    }

    /// Records a terminal transport failure on this peer.
    pub fn set_failed(&mut self)
        requires
            old(self).wf(),
        ensures
            final(self).wf(),
            *final(self) == (ReadHalf { dead: true, ..*old(self) }),
    {
        self.dead = true;
    }

    /// Whether a whole frame is buffered and ready to be taken.
    pub open spec fn has_frame(self) -> bool {
        take_frame(bytes_content(self.buf)) is Some
    }

    /// Whether this half is terminal: the peer closed or failed and no
    /// whole frame remains to deliver.
    pub open spec fn at_end(self) -> bool {
        !self.has_frame() && (self.eof || self.dead)
    }


    /// Whether a whole frame is already buffered, without taking it.
    pub fn ready_frame(&self) -> (r: bool)
        ensures
            r == self.has_frame(),
    {
        let len = bm_len(&self.buf);
        let ghost content = bytes_content(self.buf);
        if len < 4 {
            return false;
        }
        let b0 = bm_get(&self.buf, 0) as u64;
        let b1 = bm_get(&self.buf, 1) as u64;
        let b2 = bm_get(&self.buf, 2) as u64;
        let b3 = bm_get(&self.buf, 3) as u64;
        let n: u64 = ((b0 * 256 + b1) * 256 + b2) * 256 + b3;
        proof {
            assert(n == header_value(content));
        }
        (len as u64) >= 4 + n
    }

    /// Whether this half is terminal right now: closed or failed, with no
    /// whole frame left to deliver.
    pub fn poll_terminal(&self) -> (r: bool)
        ensures
            r == self.at_end(),
    {
        (self.eof || self.dead) && !self.ready_frame()
    }

    /// Takes the next whole frame, undecoded; suspends while none has
    /// arrived; ends only on transport failure or clean peer close, and
    /// only after every buffered whole frame has been delivered.
    pub fn poll_frame(&mut self) -> (r: FramePoll)
        requires
            old(self).wf(),
        ensures
            final(self).wf(),
            final(self).local == old(self).local,
            final(self).peer == old(self).peer,
            final(self).codec == old(self).codec,
            final(self).eof == old(self).eof,
            final(self).dead == old(self).dead,
            final(self).fed == old(self).fed,
            take_frame(bytes_content(old(self).buf)) matches Some(pr) ==> {
                &&& r matches FramePoll::Frame(f) && bytes_content(f) == pr.0
                &&& bytes_content(final(self).buf) == pr.1
                &&& final(self).taken@ == old(self).taken@.push(pr.0)
            },
            !old(self).has_frame() ==> *final(self) == *old(self) && (r matches FramePoll::Frame(
                _,
            ) == false),
            !old(self).has_frame() && (old(self).eof || old(self).dead) ==> (r matches
                FramePoll::End),
            !old(self).has_frame() && !old(self).eof && !old(self).dead ==> (r matches
                FramePoll::Pending),
    {
        let len = bm_len(&self.buf);
        let ghost content = bytes_content(self.buf);
        if len >= 4 {
            let b0 = bm_get(&self.buf, 0) as u64;
            let b1 = bm_get(&self.buf, 1) as u64;
            let b2 = bm_get(&self.buf, 2) as u64;
            let b3 = bm_get(&self.buf, 3) as u64;
            let n: u64 = ((b0 * 256 + b1) * 256 + b2) * 256 + b3;
            proof {
                assert(n == header_value(content));
            }
            if (len as u64) >= 4 + n {
                proof {
                    assert(take_frame(content) is Some);
                    crate::frame::lemma_take_frame_shape(content);
                }
                let _hdr = bm_split_to(&mut self.buf, 4);
                let payload = bm_split_to(&mut self.buf, n as usize);
                proof {
                    let p = content.subrange(4, 4 + n as int);
                    let rest = content.skip(4 + n as int);
                    assert(bytes_content(payload) =~= p);
                    assert(bytes_content(self.buf) =~= rest);
                    let taken0 = self.taken@;
                    self.taken@ = taken0.push(p);
                    lemma_wire_of_frames_push(taken0, p);
                    assert(content == frame_of(p) + rest);
                    assert(wire_of_frames(taken0.push(p)) + rest =~= wire_of_frames(taken0)
                        + content);
                    assert(all_frameable(taken0.push(p))) by {
                        assert(forall|i: int|
                            0 <= i < taken0.len() ==> taken0.push(p)[i] == #[trigger] taken0[i]);
                        assert(taken0.push(p)[taken0.len() as int] == p);
                    };
                }
                return FramePoll::Frame(payload);
            }
        }
        proof {
            assert(bytes_content(self.buf) == content);
            assert(!(take_frame(content) is Some));
        }
        if self.eof || self.dead {
            FramePoll::End
        } else {
            FramePoll::Pending
        }
    }

    /// Takes the next whole frame and decodes it; a malformed frame is an
    /// item-level error and later frames remain readable.
    pub fn poll_value(&mut self) -> (r: RecvPoll)
        requires
            old(self).wf(),
        ensures
            final(self).wf(),
            final(self).local == old(self).local,
            final(self).peer == old(self).peer,
            final(self).codec == old(self).codec,
            final(self).eof == old(self).eof,
            final(self).dead == old(self).dead,
            final(self).fed == old(self).fed,
            take_frame(bytes_content(old(self).buf)) matches Some(pr) ==> {
                &&& r == RecvPoll::Item(decode_spec(old(self).codec, pr.0))
                &&& bytes_content(final(self).buf) == pr.1
                &&& final(self).taken@ == old(self).taken@.push(pr.0)
            },
            !old(self).has_frame() ==> *final(self) == *old(self),
            !old(self).has_frame() && (old(self).eof || old(self).dead) ==> r == RecvPoll::End,
            !old(self).has_frame() && !old(self).eof && !old(self).dead ==> r == RecvPoll::Pending,
    {
        match self.poll_frame() {
            FramePoll::Pending => RecvPoll::Pending,
            FramePoll::End => RecvPoll::End,
            FramePoll::Frame(f) => {
                let bytes = bm_to_vec(&f);
                let res = self.codec.decode(&bytes);
                RecvPoll::Item(res)
            },
        }
    }
}

/// One framed single channel: a read half and a write half over one duplex
/// transport, consumed whole by `split`.
pub struct Channel {
    pub read: ReadHalf,
    pub write: WriteHalf,
    /// Whether the transport supports halving into two independent sides.
    pub halvable: bool,
}

impl Channel {
    pub open spec fn wf(self) -> bool {
        &&& self.read.wf()
        &&& self.write.wf()
    }

    /// Wraps one established connection with the codec chosen at
    /// construction time.
    pub fn new(conn: PeerConn, codec: Codec) -> (r: Channel)
        ensures
            r.wf(),
            r.read.local == conn.local,
            r.read.peer == conn.peer,
            r.read.codec == codec,
            r.write.local == conn.local,
            r.write.peer == conn.peer,
            r.write.codec == codec,
            r.halvable == conn.halvable,
            r.read.fed@ == Seq::<u8>::empty(),
            r.write.sent@ == Seq::<u64>::empty(),
            r.read.taken@ == Seq::<Seq<u8>>::empty(),
            bytes_content(r.read.buf) == Seq::<u8>::empty(),
            !r.read.eof && !r.read.dead && !r.write.dead && !r.write.closed,
            r.write.state == WriteState::Idle,
            r.write.out@ == Seq::<u8>::empty(),
    {
        Channel {
            read: ReadHalf::new(conn.local, conn.peer, codec),
            write: WriteHalf::new(conn.local, conn.peer, codec),
            halvable: conn.halvable,
        }
    }

    pub fn local_addr(&self) -> (r: Addr)
        ensures
            r == self.read.local,
    {
        self.read.local
    }

    pub fn peer_addr(&self) -> (r: Addr)
        ensures
            r == self.read.peer,
    {
        self.read.peer
    }

    /// Consumes the channel and hands its read capability and its write
    /// capability to two new, independently owned objects. After this call
    /// the original is gone; no operation on it is possible, so the two
    /// halves can be driven concurrently without sharing any mutable state.
    pub fn split(self) -> (r: Result<(ReadHalf, WriteHalf), SplitError>)
        ensures
            self.halvable ==> (r matches Ok(pair) && pair.0 == self.read && pair.1
                == self.write),
            !self.halvable ==> (r matches Err(e) && e == SplitError::NotHalvable),
    {
        if self.halvable {
            Ok((self.read, self.write))
        } else {
            Err(SplitError::NotHalvable)
        }
    }
}

/// Order law of one channel: whatever sequence of values the send side
/// flushes, the wire carries one frame per value, and a receive side fed
/// exactly those bytes observes exactly those values, in submission order —
/// no loss, no duplication, no reordering — whichever codec the channel
/// uses.
pub proof fn lemma_single_channel_order(c: Codec, vs: Seq<u64>)
    ensures
        frames_of(wire_of_values(c, vs)).len() == vs.len(),
        forall|i: int|
            0 <= i < vs.len() ==> decode_spec(c, #[trigger] frames_of(wire_of_values(c, vs))[i])
                == Ok::<u64, DecodeError>(vs[i]),
{
    let f = |v: u64| encode_spec(c, v);
    let ps = vs.map_values(f);
    assert(all_frameable(ps)) by {
        assert forall|i: int| 0 <= i < ps.len() implies frameable(#[trigger] ps[i]) by {
            crate::codec::lemma_encode_spec_len(c, vs[i]);
        };
    };
    crate::frame::lemma_frames_of_wire(ps);
    assert forall|i: int|
        0 <= i < vs.len() implies decode_spec(
        c,
        #[trigger] frames_of(wire_of_values(c, vs))[i],
    ) == Ok::<u64, DecodeError>(vs[i]) by {
        crate::codec::lemma_codec_round_trip(c, vs[i]);
        assert(frames_of(wire_of_values(c, vs))[i] == encode_spec(c, vs[i]));
    };
}



/// The order law tied to channel state: a read half that was fed exactly
/// the bytes some send half flushed for the values `vs`, and has no bytes
/// left buffered, has delivered exactly the encodings of `vs`, in
/// submission order — so its decoded items are exactly `vs`, with no loss
/// and no duplication.
pub proof fn lemma_receiver_observes_sent(c: Codec, vs: Seq<u64>, rh: ReadHalf)
    requires
        rh.wf(),
        rh.codec == c,
        rh.fed@ == wire_of_values(c, vs),
        bytes_content(rh.buf).len() == 0,
    ensures
        rh.taken@.len() == vs.len(),
        forall|i: int|
            0 <= i < vs.len() ==> decode_spec(c, #[trigger] rh.taken@[i]) == Ok::<
                u64,
                DecodeError,
            >(vs[i]),
{
    let f = |v: u64| encode_spec(c, v);
    let ps = vs.map_values(f);
    assert(bytes_content(rh.buf) =~= Seq::<u8>::empty());
    assert(rh.fed@ =~= wire_of_frames(rh.taken@));
    crate::frame::lemma_frames_of_wire(rh.taken@);
    assert(all_frameable(ps)) by {
        assert forall|i: int| 0 <= i < ps.len() implies frameable(#[trigger] ps[i]) by {
            crate::codec::lemma_encode_spec_len(c, vs[i]);
        };
    };
    crate::frame::lemma_frames_of_wire(ps);
    assert(rh.taken@ == ps);
    assert forall|i: int|
        0 <= i < vs.len() implies decode_spec(c, #[trigger] rh.taken@[i]) == Ok::<
        u64,
        DecodeError,
    >(vs[i]) by {
        crate::codec::lemma_codec_round_trip(c, vs[i]);
        assert(rh.taken@[i] == encode_spec(c, vs[i]));
    };
}

} // verus!
