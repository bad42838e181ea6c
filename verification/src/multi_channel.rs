//! The multiplexing multi-channel: a bounded, dynamically-growing registry
//! of framed single channels, one per connected peer, keyed by peer
//! address, presented as one logical source of (value, origin). Admission
//! is capacity-checked, a dead or cleanly-closed peer is evicted without
//! surfacing a stream item, fan-in is round-robin with skip-if-empty so no
//! peer can starve the rest, and `split` partitions the registry's write
//! capability from its read capability.

use vstd::prelude::*;

use crate::addr::{Addr, PeerConn};
use crate::bytebuf::{bm_to_vec, bytes_content};
use crate::channel::{FramePoll, ReadHalf, WriteHalf, WriteState};
use crate::codec::{decode_spec, Codec};
use crate::errors::{AcceptError, DecodeError, SplitError};
use crate::frame::take_frame;

verus! {

/// One live peer in the registry: its address, the read capability the
/// fan-in scans, and — until `split` moves it to a broadcaster — the write
/// capability.
pub struct Entry {
    pub addr: Addr,
    pub read: ReadHalf,
    pub write: Option<WriteHalf>,
}

impl Entry {
    /// A registry entry is consistent when both halves belong to this peer,
    /// use the registry's codec, and the write capability — while still
    /// here — is untouched: live, idle, nothing queued.
    pub open spec fn wf(self, codec: Codec) -> bool {
        &&& self.read.wf()
        &&& self.read.codec == codec
        &&& self.read.peer == self.addr
        &&& (self.write matches Some(w) ==> {
            &&& w.wf()
            &&& w.codec == codec
            &&& w.peer == self.addr
            &&& !w.dead
            &&& !w.closed
            &&& w.state is Idle
        })
    }
}

/// The position visited at step `k` of a round-robin scan that starts at
/// `c` over `n` slots.
pub open spec fn scan_pos(c: int, k: int, n: int) -> int {
    if c + k < n {
        c + k
    } else {
        c + k - n
    }
}

/// The outcome of one fan-in step on the raw-frame surface.
pub enum MultiFramePoll {
    Pending,
    Frame(bytes::BytesMut, Addr),
    End,
}

/// The outcome of one fan-in step on the typed surface: a decoded value or
/// a per-peer decode error, tagged with the origin address.
pub enum MultiPoll {
    Pending,
    Item(Result<u64, DecodeError>, Addr),
    End,
}

/// The multiplexing registry itself.
pub struct Channel {
    pub local: Addr,
    /// Maximum simultaneous peers; zero means unbounded.
    pub limit: usize,
    pub codec: Codec,
    pub entries: Vec<Entry>,
    /// Where the next round-robin scan starts.
    pub cursor: usize,
    /// Whether this handle still admits new peers.
    pub accepting: bool,
}

impl Channel {
    pub open spec fn addrs(self) -> Seq<Addr> {
        self.entries@.map_values(|e: Entry| e.addr)
    }

    pub open spec fn contains_addr(self, a: Addr) -> bool {
        exists|i: int| 0 <= i < self.entries@.len() && (#[trigger] self.entries@[i]).addr == a
    }

    /// The registry's invariant: entries are consistent, a peer address
    /// maps to at most one live entry, and the scan cursor is in range.
    pub open spec fn wf(self) -> bool {
        &&& forall|i: int|
            0 <= i < self.entries@.len() ==> (#[trigger] self.entries@[i]).wf(self.codec)
        &&& forall|i: int, j: int|
            0 <= i < j < self.entries@.len() ==> (#[trigger] self.entries@[i]).addr != (
            #[trigger] self.entries@[j]).addr
        &&& (self.cursor == 0 || self.cursor < self.entries@.len())
        &&& (self.limit == 0 || self.entries@.len() <= self.limit)
    }

    pub open spec fn at_capacity(self) -> bool {
        self.limit != 0 && self.entries@.len() >= self.limit
    }

    /// An empty registry bound at `local`, admitting up to `limit` peers
    /// (zero: unbounded), all speaking `codec`.
    pub fn new(local: Addr, limit: usize, codec: Codec) -> (r: Channel)
        ensures
            r.wf(),
            r.local == local,
            r.limit == limit,
            r.codec == codec,
            r.entries@.len() == 0,
            r.cursor == 0,
            r.accepting,
    {
        Channel { local, limit, codec, entries: Vec::new(), cursor: 0, accepting: true }
    }

    /// How many peers are live right now; a point-in-time snapshot.
    pub fn len(&self) -> (r: usize)
        ensures
            r == self.entries@.len(),
    {
        self.entries.len()
    }

    /// The configured capacity, if one was set.
    pub fn limit(&self) -> (r: Option<usize>)
        ensures
            self.limit == 0 ==> r is None,
            self.limit != 0 ==> r == Some(self.limit),
    {
        if self.limit == 0 {
            None
        } else {
            Some(self.limit)
        }
    }

    pub fn local_addr(&self) -> (r: Addr)
        ensures
            r == self.local,
    {
        self.local
    }

    /// A snapshot of the currently live peer addresses, in registry order.
    pub fn peer_addrs(&self) -> (r: Vec<Addr>)
        ensures
            r@ == self.addrs(),
    {
        let mut r: Vec<Addr> = Vec::new();
        let mut i: usize = 0;
        while i < self.entries.len()
            invariant
                i <= self.entries@.len(),
                r@.len() == i,
                forall|j: int| 0 <= j < i ==> r@[j] == (#[trigger] self.entries@[j]).addr,
            decreases self.entries@.len() - i,
        {
            r.push(self.entries[i].addr);
            i = i + 1;
        }
        proof {
            assert(r@ =~= self.addrs());
        }
        r
    }

    /// The registry slot holding this address, if any.
    fn find_idx(&self, a: Addr) -> (r: Option<usize>)
        ensures
            r matches Some(i) ==> i < self.entries@.len() && self.entries@[i as int].addr == a,
            r is None ==> !self.contains_addr(a),
    {
        let mut i: usize = 0;
        while i < self.entries.len()
            invariant
                i <= self.entries@.len(),
                forall|j: int| 0 <= j < i ==> (#[trigger] self.entries@[j]).addr != a,
            decreases self.entries@.len() - i,
        {
            if self.entries[i].addr == a {
                return Some(i);
            }
            i = i + 1;
        }
        None
    }

    /// Admits one new connection, constructing a framed single channel for
    /// it keyed by its peer address. `filter_ok` is the external admission
    /// filter's verdict on that address. Admission fails — changing nothing
    /// — when this handle no longer accepts, when the filter declined, or
    /// with `CapacityExceeded` when the registry is full; a connection from
    /// an address that is already live replaces that peer's entry.
    pub fn accept(&mut self, conn: PeerConn, filter_ok: bool) -> (r: Result<Addr, AcceptError>)
        requires
            old(self).wf(),
        ensures
            final(self).wf(),
            final(self).local == old(self).local,
            final(self).limit == old(self).limit,
            final(self).codec == old(self).codec,
            final(self).accepting == old(self).accepting,
            final(self).cursor == old(self).cursor,
            !old(self).accepting ==> *final(self) == *old(self) && r == Err::<Addr, AcceptError>(
                AcceptError::Rejected,
            ),
            old(self).accepting && !filter_ok ==> *final(self) == *old(self) && r == Err::<
                Addr,
                AcceptError,
            >(AcceptError::Rejected),
            old(self).accepting && filter_ok && old(self).at_capacity() && !old(self).contains_addr(conn.peer) ==> *final(self) == *old(self) && r == Err::<
                Addr,
                AcceptError,
            >(AcceptError::CapacityExceeded),
            old(self).accepting && filter_ok && !(old(self).at_capacity() && !old(self).contains_addr(conn.peer)) ==> {
                &&& r == Ok::<Addr, AcceptError>(conn.peer)
                &&& final(self).entries@.len() == old(self).entries@.len() + (if old(self).contains_addr(conn.peer) {
                    0int
                } else {
                    1int
                })
                &&& exists|i: int|
                    0 <= i < final(self).entries@.len() && is_fresh_entry(
                        #[trigger] final(self).entries@[i],
                        conn,
                        old(self).codec,
                    ) && (forall|j: int|
                        0 <= j < final(self).entries@.len() && j != i
                            ==> #[trigger] final(self).entries@[j] == old(self).entries@[j])
                &&& (!old(self).contains_addr(conn.peer) ==> final(self).entries@.drop_last()
                    == old(self).entries@ && is_fresh_entry(
                    final(self).entries@.last(),
                    conn,
                    old(self).codec,
                ))
            },
    {
        if !self.accepting {
            return Err(AcceptError::Rejected);
        }
        if !filter_ok {
            return Err(AcceptError::Rejected);
        }
        let fresh = Entry {
            addr: conn.peer,
            read: ReadHalf::new(conn.local, conn.peer, self.codec),
            write: Some(WriteHalf::new(conn.local, conn.peer, self.codec)),
        };
        match self.find_idx(conn.peer) {
            Some(i) => {
                let ghost pre = self.entries@;
                let _old_entry = self.entries.remove(i);
                self.entries.insert(i, fresh);
                proof {
                    assert(self.entries@ =~= pre.update(i as int, self.entries@[i as int]));
                    assert(is_fresh_entry(self.entries@[i as int], conn, self.codec));
                }
                Ok(conn.peer)
            },
            None => {
                if self.limit != 0 && self.entries.len() >= self.limit {
                    return Err(AcceptError::CapacityExceeded);
                }
                let ghost pre = self.entries@;
                self.entries.push(fresh);
                proof {
                    let n = pre.len() as int;
                    assert(self.entries@[n] == fresh);
                    assert(is_fresh_entry(self.entries@[n], conn, self.codec));
                    assert(forall|j: int| 0 <= j < n ==> self.entries@[j] == pre[j]);
                    assert(self.entries@.drop_last() =~= pre);
                    assert(self.entries@.last() == fresh);
                }
                Ok(conn.peer)
            },
        }
    }

    /// Hands one peer's read half the bytes its transport delivered.
    /// Returns false — feeding nothing — when the peer is not live or the
    /// chunk would grow its buffer beyond bounds.
    pub fn feed_peer(&mut self, addr: Addr, chunk: &Vec<u8>) -> (r: bool)
        requires
            old(self).wf(),
        ensures
            final(self).wf(),
            final(self).local == old(self).local,
            final(self).limit == old(self).limit,
            final(self).codec == old(self).codec,
            final(self).accepting == old(self).accepting,
            final(self).cursor == old(self).cursor,
            !r ==> *final(self) == *old(self),
            !old(self).contains_addr(addr) ==> !r,
            can_feed(*old(self), addr, chunk@) ==> r,
            r ==> exists|i: int|
                0 <= i < old(self).entries@.len() && (#[trigger] old(self).entries@[i]).addr
                    == addr && final(self).entries@ == old(self).entries@.update(
                    i,
                    final(self).entries@[i],
                ) && final(self).entries@[i].addr == addr && final(self).entries@[i].write == old(self).entries@[i].write && final(self).entries@[i].read.fed@ == old(self).entries@[i].read.fed@ + chunk@ && bytes_content(final(self).entries@[i].read.buf)
                    == bytes_content(old(self).entries@[i].read.buf) + chunk@ && final(self).entries@[i].read.taken == old(self).entries@[i].read.taken && final(self).entries@[i].read.eof == old(self).entries@[i].read.eof && final(self).entries@[i].read.dead == old(self).entries@[i].read.dead,
    {
        match self.find_idx(addr) {
            None => false,
            Some(i) => {
                let buffered = crate::bytebuf::bm_len(&self.entries[i].read.buf);
                if chunk.len() > 0x7fff_ffff {
                    return false;
                }
                if buffered > 0x7fff_ffff - chunk.len() {
                    proof {
                        assert forall|j: int|
                            0 <= j < self.entries@.len() && (#[trigger] self.entries@[j]).addr
                                == addr implies bytes_content(self.entries@[j].read.buf).len()
                            + chunk@.len() > 0x7fff_ffff by {
                            if j < i as int {
                                assert(self.entries@[j].addr != self.entries@[i as int].addr);
                            } else if j > i as int {
                                assert(self.entries@[i as int].addr != self.entries@[j].addr);
                            }
                        };
                    }
                    return false;
                }
                let ghost pre = self.entries@;
                self.entries[i].read.feed(chunk);
                proof {
                    assert(self.entries@ =~= pre.update(i as int, self.entries@[i as int]));
                }
                true
            },
        }
    }

    /// Records a peer's clean close; false when the peer is not live.
    pub fn eof_peer(&mut self, addr: Addr) -> (r: bool)
        requires
            old(self).wf(),
        ensures
            final(self).wf(),
            final(self).local == old(self).local,
            final(self).limit == old(self).limit,
            final(self).codec == old(self).codec,
            final(self).accepting == old(self).accepting,
            final(self).cursor == old(self).cursor,
            !r ==> *final(self) == *old(self),
            r <==> old(self).contains_addr(addr),
            r ==> exists|i: int|
                0 <= i < old(self).entries@.len() && (#[trigger] old(self).entries@[i]).addr
                    == addr && final(self).entries@ == old(self).entries@.update(
                    i,
                    Entry {
                        read: ReadHalf { eof: true, ..old(self).entries@[i].read },
                        ..old(self).entries@[i]
                    },
                ),
    {
        match self.find_idx(addr) {
            None => false,
            Some(i) => {
                let ghost pre = self.entries@;
                self.entries[i].read.set_eof();
                proof {
                    assert(self.entries@ =~= pre.update(
                        i as int,
                        Entry { read: ReadHalf { eof: true, ..pre[i as int].read }, ..pre[i as int] },
                    ));
                }
                true
            },
        }
    }

    /// Records a peer's terminal transport failure; false when the peer is
    /// not live.
    pub fn fail_peer(&mut self, addr: Addr) -> (r: bool)
        requires
            old(self).wf(),
        ensures
            final(self).wf(),
            final(self).local == old(self).local,
            final(self).limit == old(self).limit,
            final(self).codec == old(self).codec,
            final(self).accepting == old(self).accepting,
            final(self).cursor == old(self).cursor,
            !r ==> *final(self) == *old(self),
            r <==> old(self).contains_addr(addr),
            r ==> exists|i: int|
                0 <= i < old(self).entries@.len() && (#[trigger] old(self).entries@[i]).addr
                    == addr && final(self).entries@ == old(self).entries@.update(
                    i,
                    Entry {
                        read: ReadHalf { dead: true, ..old(self).entries@[i].read },
                        ..old(self).entries@[i]
                    },
                ),
    {
        match self.find_idx(addr) {
            None => false,
            Some(i) => {
                let ghost pre = self.entries@;
                self.entries[i].read.set_failed();
                proof {
                    assert(self.entries@ =~= pre.update(
                        i as int,
                        Entry {
                            read: ReadHalf { dead: true, ..pre[i as int].read },
                            ..pre[i as int]
                        },
                    ));
                }
                true
            },
        }
    }

    /// One fan-in step on the raw-frame surface. Round-robin with
    /// skip-if-empty: any call that finds at least one peer with a whole
    /// frame buffered delivers from the first such peer at or after the
    /// cursor, so no peer can starve the rest. When no peer has a frame,
    /// one terminal peer — dead or cleanly closed with nothing left — is
    /// evicted without surfacing an item; the source ends only once the
    /// registry is empty and no longer accepting.
    pub fn poll_next_frame(&mut self) -> (r: MultiFramePoll)
        requires
            old(self).wf(),
        ensures
            final(self).wf(),
            final(self).local == old(self).local,
            final(self).limit == old(self).limit,
            final(self).codec == old(self).codec,
            final(self).accepting == old(self).accepting,
            r is End ==> old(self).entries@.len() == 0 && !old(self).accepting && *final(self)
                == *old(self),
            r matches MultiFramePoll::Frame(f, a) ==> frame_step(
                *old(self),
                *final(self),
                bytes_content(f),
                a,
            ),
            r is Pending ==> forall|i: int|
                0 <= i < old(self).entries@.len() ==> !(#[trigger] old(self).entries@[i]).read.has_frame(),
            r is Pending ==> (*final(self) == *old(self) || evict_step(*old(self), *final(self))),
            r is Pending && (exists|i: int|
                0 <= i < old(self).entries@.len() && (#[trigger] old(self).entries@[i]).read.at_end()) ==> evict_step(*old(self), *final(self)),
    {
        let n = self.entries.len();
        if n == 0 {
            if self.accepting {
                return MultiFramePoll::Pending;
            } else {
                return MultiFramePoll::End;
            }
        }
        let c = self.cursor;
        proof {
            assert(c < n);
        }
        let mut k: usize = 0;
        while k < n
            invariant
                k <= n,
                n == self.entries@.len(),
                n > 0,
                c == old(self).cursor,
                c < n,
                old(self).wf(),
                *self == *old(self),
                forall|j: int|
                    0 <= j < k ==> !old(self).entries@[scan_pos(c as int, j, n as int)].read.has_frame(),
            decreases n - k,
        {
            let idx = if k < n - c {
                c + k
            } else {
                k - (n - c)
            };
            proof {
                assert(idx as int == scan_pos(c as int, k as int, n as int));
            }
            let has = self.entries[idx].read.ready_frame();
            if has {
                let ghost pre = self.entries@;
                let got = self.entries[idx].read.poll_frame();
                match got {
                    FramePoll::Frame(f) => {
                        let a = self.entries[idx].addr;
                        self.cursor = if idx + 1 < n {
                            idx + 1
                        } else {
                            0
                        };
                        proof {
                            assert(self.entries@ =~= pre.update(idx as int, self.entries@[idx as int]));
                            assert(frame_step_at(
                                *old(self),
                                *self,
                                bytes_content(f),
                                a,
                                k as int,
                            ));
                        }
                        return MultiFramePoll::Frame(f, a);
                    },
                    _ => {
                        proof {
                            assert(false);
                        }
                        return MultiFramePoll::Pending;
                    },
                }
            }
            k = k + 1;
        }
        proof {
            assert forall|i: int|
                0 <= i < n implies !(#[trigger] old(self).entries@[i]).read.has_frame() by {
                let k0 = if i >= c {
                    i - c
                } else {
                    i + n - c
                };
                assert(scan_pos(c as int, k0, n as int) == i);
                assert(!old(self).entries@[scan_pos(c as int, k0, n as int)].read.has_frame());
            };
        }
        let mut i: usize = 0;
        while i < n
            invariant
                i <= n,
                n == self.entries@.len(),
                old(self).wf(),
                *self == *old(self),
                forall|j: int|
                    0 <= j < n ==> !(#[trigger] old(self).entries@[j]).read.has_frame(),
                forall|j: int| 0 <= j < i ==> !(#[trigger] self.entries@[j]).read.at_end(),
            decreases n - i,
        {
            let term = self.entries[i].read.poll_terminal();
            if term {
                let ghost pre = self.entries@;
                let _gone = self.entries.remove(i);
                self.cursor = 0;
                proof {
                    assert(self.entries@ =~= pre.remove(i as int));
                    assert forall|x: int|
                        0 <= x < self.entries@.len() implies (#[trigger] self.entries@[x]).wf(
                        self.codec,
                    ) by {
                        if x < i {
                            assert(self.entries@[x] == pre[x]);
                        } else {
                            assert(self.entries@[x] == pre[x + 1]);
                        }
                    };
                    assert forall|x: int, y: int|
                        0 <= x < y < self.entries@.len() implies (#[trigger] self.entries@[x]).addr
                        != (#[trigger] self.entries@[y]).addr by {
                        if y < i {
                            assert(self.entries@[x] == pre[x] && self.entries@[y] == pre[y]);
                        } else if x < i {
                            assert(self.entries@[x] == pre[x] && self.entries@[y] == pre[y + 1]);
                        } else {
                            assert(self.entries@[x] == pre[x + 1] && self.entries@[y] == pre[y
                                + 1]);
                        }
                    };
                    assert(0 <= i < pre.len() && pre[i as int].read.at_end());
                    assert(evict_step(*old(self), *self));
                }
                return MultiFramePoll::Pending;
            }
            i = i + 1;
        }
        proof {
            assert(forall|j: int|
                0 <= j < old(self).entries@.len() ==> !(#[trigger] old(self).entries@[j]).read.at_end());
        }
        MultiFramePoll::Pending
    }

    /// One fan-in step on the typed surface: the next peer's frame, decoded
    /// with the registry's codec; a malformed frame is a per-peer item
    /// error and that peer stays live.
    pub fn poll_next(&mut self) -> (r: MultiPoll)
        requires
            old(self).wf(),
        ensures
            final(self).wf(),
            final(self).local == old(self).local,
            final(self).limit == old(self).limit,
            final(self).codec == old(self).codec,
            final(self).accepting == old(self).accepting,
            r is End ==> old(self).entries@.len() == 0 && !old(self).accepting && *final(self)
                == *old(self),
            r matches MultiPoll::Item(res, a) ==> item_step(*old(self), *final(self), res, a),
            r is Pending ==> forall|i: int|
                0 <= i < old(self).entries@.len() ==> !(#[trigger] old(self).entries@[i]).read.has_frame(),
            r is Pending ==> (*final(self) == *old(self) || evict_step(*old(self), *final(self))),
            r is Pending && (exists|i: int|
                0 <= i < old(self).entries@.len() && (#[trigger] old(self).entries@[i]).read.at_end()) ==> evict_step(*old(self), *final(self)),
    {
        match self.poll_next_frame() {
            MultiFramePoll::Pending => MultiPoll::Pending,
            MultiFramePoll::End => MultiPoll::End,
            MultiFramePoll::Frame(f, a) => {
                let bytes = bm_to_vec(&f);
                let res = self.codec.decode(&bytes);
                proof {
                    assert(frame_step(*old(self), *self, bytes@, a));
                    assert(res == decode_spec(old(self).codec, bytes@));
                    assert(item_step(*old(self), *self, res, a));
                }
                MultiPoll::Item(res, a)
            },
        }
    }

    /// Partitions the registry: the read capability of every live peer
    /// stays in the returned receive half, and the write capability of
    /// every live peer moves into the returned broadcast sender. The
    /// original handle is consumed; the flag says whether the receive half
    /// keeps the listening role and admits further peers, whose write
    /// halves then reach the broadcaster through `take_write` and
    /// `attach`. Fails only if some peer's write capability has already
    /// been split away.
    pub fn split(self, readhalf_is_listener: bool) -> (r: Result<
        (Channel, crate::broadcast::Sender),
        SplitError,
    >)
        requires
            self.wf(),
        ensures
            (forall|i: int|
                0 <= i < self.entries@.len() ==> (#[trigger] self.entries@[i]).write is Some)
                <==> r is Ok,
            r matches Ok(pair) ==> {
                &&& pair.0.wf()
                &&& pair.1.wf()
                &&& pair.0.local == self.local
                &&& pair.0.limit == self.limit
                &&& pair.0.codec == self.codec
                &&& pair.0.cursor == 0
                &&& pair.0.accepting == readhalf_is_listener
                &&& pair.0.entries@.len() == self.entries@.len()
                &&& forall|i: int|
                    0 <= i < self.entries@.len() ==> {
                        &&& (#[trigger] pair.0.entries@[i]).addr == self.entries@[i].addr
                        &&& pair.0.entries@[i].read == self.entries@[i].read
                        &&& pair.0.entries@[i].write is None
                    }
                &&& pair.1.local == self.local
                &&& pair.1.limit == self.limit
                &&& pair.1.codec == self.codec
                &&& pair.1.peers@.len() == self.entries@.len()
                &&& forall|i: int|
                    0 <= i < self.entries@.len() ==> {
                        &&& (#[trigger] pair.1.peers@[i]).addr == self.entries@[i].addr
                        &&& pair.1.peers@[i].w == self.entries@[i].write->Some_0
                    }
            },
            r matches Err(e) ==> e == SplitError::NotHalvable,
    {
        let ghost orig = self.entries@;
        let local = self.local;
        let limit = self.limit;
        let codec = self.codec;
        let mut src = self.entries;
        let mut reads: Vec<Entry> = Vec::new();
        let mut writes: Vec<crate::broadcast::BEntry> = Vec::new();
        proof {
            assert(src@ =~= orig.skip(0));
        }
        while src.len() > 0
            invariant
                orig == self.entries@,
                reads@.len() == writes@.len(),
                reads@.len() <= orig.len(),
                src@ == orig.skip(reads@.len() as int),
                forall|j: int| 0 <= j < orig.len() ==> (#[trigger] orig[j]).wf(codec),
                forall|j: int, k: int|
                    0 <= j < k < orig.len() ==> (#[trigger] orig[j]).addr != (
                    #[trigger] orig[k]).addr,
                forall|j: int|
                    0 <= j < reads@.len() ==> {
                        &&& (#[trigger] reads@[j]).addr == orig[j].addr
                        &&& reads@[j].read == orig[j].read
                        &&& reads@[j].write is None
                    },
                forall|j: int|
                    0 <= j < writes@.len() ==> {
                        &&& (#[trigger] writes@[j]).addr == orig[j].addr
                        &&& orig[j].write is Some
                        &&& writes@[j].w == orig[j].write->Some_0
                    },
            decreases src@.len(),
        {
            let ghost k = reads@.len();
            let e = src.remove(0);
            proof {
                assert(e == orig[k as int]);
                assert(src@ =~= orig.skip(k as int + 1));
            }
            match e.write {
                Some(w) => {
                    writes.push(crate::broadcast::BEntry { addr: e.addr, w });
                    reads.push(Entry { addr: e.addr, read: e.read, write: None });
                },
                None => {
                    proof {
                        assert((#[trigger] orig[k as int]).write is None);
                    }
                    return Err(SplitError::NotHalvable);
                },
            }
        }
        proof {
            assert(reads@.len() == orig.len());
            assert forall|i: int| 0 <= i < orig.len() implies (#[trigger] orig[i]).write
                is Some by {
                assert(writes@[i].addr == orig[i].addr);
            };
        }
        let rx = Channel {
            local,
            limit,
            codec,
            entries: reads,
            cursor: 0,
            accepting: readhalf_is_listener,
        };
        let tx = crate::broadcast::Sender { local, limit, codec, peers: writes };
        proof {
            assert forall|i: int, j: int|
                0 <= i < j < rx.entries@.len() implies (#[trigger] rx.entries@[i]).addr != (
                #[trigger] rx.entries@[j]).addr by {
                assert(rx.entries@[i].addr == orig[i].addr && rx.entries@[j].addr == orig[j].addr);
            };
            assert forall|i: int, j: int|
                0 <= i < j < tx.peers@.len() implies (#[trigger] tx.peers@[i]).addr != (
                #[trigger] tx.peers@[j]).addr by {
                assert(tx.peers@[i].addr == orig[i].addr && tx.peers@[j].addr == orig[j].addr);
            };
        }
        Ok((rx, tx))
    }

    /// Removes and returns the write capability of one live peer — the
    /// hand-off by which a peer admitted after `split` joins the
    /// broadcaster. Nothing changes when the peer is not live or its write
    /// capability is already gone.
    pub fn take_write(&mut self, addr: Addr) -> (r: Option<WriteHalf>)
        requires
            old(self).wf(),
        ensures
            final(self).wf(),
            final(self).local == old(self).local,
            final(self).limit == old(self).limit,
            final(self).codec == old(self).codec,
            final(self).accepting == old(self).accepting,
            final(self).cursor == old(self).cursor,
            r is None ==> final(self).entries@ == old(self).entries@,
            has_peer_write(*old(self), addr) ==> r is Some,
            r matches Some(w) ==> {
                &&& w.wf()
                &&& !w.dead
                &&& !w.closed
                &&& w.state is Idle
                &&& w.codec == old(self).codec
                &&& w.peer == addr
                &&& exists|i: int|
                    0 <= i < old(self).entries@.len() && (#[trigger] old(self).entries@[i]).addr
                        == addr && old(self).entries@[i].write == Some(w) && final(self).entries@
                        == old(self).entries@.update(
                        i,
                        Entry { write: None, ..old(self).entries@[i] },
                    )
            },
    {
        match self.find_idx(addr) {
            None => None,
            Some(i) => {
                let ghost pre = self.entries@;
                let mut taken: Option<WriteHalf> = None;
                core::mem::swap(&mut taken, &mut self.entries[i].write);
                match taken {
                    None => {
                        proof {
                            assert(self.entries@ =~= pre);
                            assert forall|j: int|
                                0 <= j < pre.len() && (#[trigger] pre[j]).addr == addr implies !(
                                pre[j].write is Some) by {
                                if j < i as int {
                                    assert(pre[j].addr != pre[i as int].addr);
                                } else if j > i as int {
                                    assert(pre[i as int].addr != pre[j].addr);
                                }
                            };
                        }
                        None
                    },
                    Some(w) => {
                        proof {
                            assert(self.entries@ =~= pre.update(
                                i as int,
                                Entry { write: None, ..pre[i as int] },
                            ));
                            assert((#[trigger] self.entries@[i as int]).wf(self.codec));
                            assert(forall|j: int|
                                0 <= j < self.entries@.len() && j != i ==> #[trigger] self.entries@[j]
                                    == pre[j]);
                            assert(pre[i as int].wf(self.codec));
                        }
                        Some(w)
                    },
                }
            },
        }
    }
}

/// A live entry for this address whose buffer can still take the chunk
/// within the byte-buffer bound.
pub open spec fn can_feed(c: Channel, addr: Addr, chunk: Seq<u8>) -> bool {
    exists|i: int|
        0 <= i < c.entries@.len() && (#[trigger] c.entries@[i]).addr == addr && bytes_content(
            c.entries@[i].read.buf,
        ).len() + chunk.len() <= 0x7fff_ffff
}

/// A live entry for this address that still holds its write capability.
pub open spec fn has_peer_write(c: Channel, addr: Addr) -> bool {
    exists|i: int|
        0 <= i < c.entries@.len() && (#[trigger] c.entries@[i]).addr == addr && c.entries@[i].write
            is Some
}

/// What `accept` installs for a newly admitted connection: a framed single
/// channel with empty histories, live in both directions.
pub open spec fn is_fresh_entry(e: Entry, conn: PeerConn, codec: Codec) -> bool {
    &&& e.addr == conn.peer
    &&& e.read.wf()
    &&& e.read.local == conn.local
    &&& e.read.peer == conn.peer
    &&& e.read.codec == codec
    &&& e.read.fed@ == Seq::<u8>::empty()
    &&& e.read.taken@ == Seq::<Seq<u8>>::empty()
    &&& bytes_content(e.read.buf) == Seq::<u8>::empty()
    &&& !e.read.eof
    &&& !e.read.dead
    &&& (e.write matches Some(w) ==> {
        &&& w.wf()
        &&& w.local == conn.local
        &&& w.peer == conn.peer
        &&& w.codec == codec
        &&& w.sent@ == Seq::<u64>::empty()
        &&& w.out@ == Seq::<u8>::empty()
        &&& !w.dead
        &&& !w.closed
        &&& w.state == WriteState::Idle
    })
    &&& e.write is Some
}


/// One fan-in delivery, described from outside: at step `k` of the
/// round-robin scan that starts at the pre-state's cursor the first peer
/// with a whole frame was found, that frame — `payload` — was split off its
/// buffer, the cursor moved just past that peer, and nothing else changed.
pub open spec fn frame_step_at(pre: Channel, post: Channel, payload: Seq<u8>, a: Addr, k: int) -> bool {
    let n = pre.entries@.len() as int;
    let i = scan_pos(pre.cursor as int, k, n);
    &&& 0 <= k < n
    &&& 0 <= pre.cursor < n
    &&& pre.entries@[i].addr == a
    &&& (take_frame(bytes_content(pre.entries@[i].read.buf)) matches Some(pr) && payload == pr.0
        && bytes_content(post.entries@[i].read.buf) == pr.1 && post.entries@[i].read.taken@
        == pre.entries@[i].read.taken@.push(pr.0))
    &&& post.entries@.len() == n
    &&& forall|j: int| 0 <= j < n && j != i ==> #[trigger] post.entries@[j] == pre.entries@[j]
    &&& post.entries@[i].addr == a
    &&& post.entries@[i].write == pre.entries@[i].write
    &&& post.entries@[i].read.fed == pre.entries@[i].read.fed
    &&& post.entries@[i].read.eof == pre.entries@[i].read.eof
    &&& post.entries@[i].read.dead == pre.entries@[i].read.dead
    &&& forall|j: int|
        0 <= j < k ==> !pre.entries@[scan_pos(pre.cursor as int, j, n)].read.has_frame()
    &&& post.cursor == (if i + 1 < n {
        i + 1
    } else {
        0
    })
    &&& post.local == pre.local
    &&& post.limit == pre.limit
    &&& post.codec == pre.codec
    &&& post.accepting == pre.accepting
}

/// Some fan-in delivery happened between the two states: fairness and the
/// frame's origin are pinned by `frame_step_at`.
pub open spec fn frame_step(pre: Channel, post: Channel, payload: Seq<u8>, a: Addr) -> bool {
    exists|k: int| #[trigger] frame_step_at(pre, post, payload, a, k)
}

/// Some fan-in delivery happened and its payload decoded to `res` under the
/// registry's codec.
pub open spec fn item_step(pre: Channel, post: Channel, res: Result<u64, crate::errors::DecodeError>, a: Addr) -> bool {
    exists|p: Seq<u8>| #[trigger] frame_step(pre, post, p, a) && res == decode_spec(pre.codec, p)
}

/// One silent eviction: a terminal peer — dead or cleanly closed, with no
/// whole frame left to deliver — left the registry; nothing else changed.
pub open spec fn evict_step(pre: Channel, post: Channel) -> bool {
    &&& exists|i: int|
        0 <= i < pre.entries@.len() && (#[trigger] pre.entries@[i]).read.at_end() && post.entries@
            == pre.entries@.remove(i)
    &&& post.cursor == 0
    &&& post.local == pre.local
    &&& post.limit == pre.limit
    &&& post.codec == pre.codec
    &&& post.accepting == pre.accepting
}

} // verus!
