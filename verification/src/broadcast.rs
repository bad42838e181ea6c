//! The broadcast sender: the write capability of every peer of a
//! multi-channel, split off as one independently owned fan-out handle.
//! `send_all` encodes a value once per peer's write half and queues its
//! frame to every currently live peer; a per-peer transport failure evicts
//! exactly that peer and never blocks or poisons delivery to the others.

use vstd::prelude::*;

use crate::addr::Addr;
use crate::channel::WriteHalf;
use crate::codec::Codec;

verus! {

/// One live peer of the broadcaster: its address and its write capability.
pub struct BEntry {
    pub addr: Addr,
    pub w: WriteHalf,
}

/// The fan-out handle.
pub struct Sender {
    pub local: Addr,
    /// The capacity the registry was configured with; zero means unbounded.
    pub limit: usize,
    pub codec: Codec,
    pub peers: Vec<BEntry>,
}

impl Sender {
    pub open spec fn addrs(self) -> Seq<Addr> {
        self.peers@.map_values(|e: BEntry| e.addr)
    }

    pub open spec fn contains_addr(self, a: Addr) -> bool {
        exists|i: int| 0 <= i < self.peers@.len() && (#[trigger] self.peers@[i]).addr == a
    }

    /// The broadcaster's invariant: each held write half is consistent,
    /// live, idle between fan-outs, belongs to its entry's peer and speaks
    /// the registry's codec; a peer address occurs at most once.
    pub open spec fn wf(self) -> bool {
        &&& forall|i: int|
            0 <= i < self.peers@.len() ==> {
                let e = #[trigger] self.peers@[i];
                &&& e.w.wf()
                &&& e.w.codec == self.codec
                &&& e.w.peer == e.addr
                &&& !e.w.dead
                &&& !e.w.closed
                &&& e.w.state is Idle
            }
        &&& forall|i: int, j: int|
            0 <= i < j < self.peers@.len() ==> (#[trigger] self.peers@[i]).addr != (
            #[trigger] self.peers@[j]).addr
    }

    /// How many peers are still receiving broadcasts.
    pub fn len(&self) -> (r: usize)
        ensures
            r == self.peers@.len(),
    {
        self.peers.len()
    }

    /// The capacity the underlying registry was configured with.
    pub fn limit(&self) -> (r: Option<usize>)
        ensures
            self.limit == 0 ==> r is None,
            self.limit != 0 ==> r == Some(self.limit),
    {
        if self.limit == 0 {
            None
        } else {
            Some(self.limit)
        }
    }

    pub fn local_addr(&self) -> (r: Addr)
        ensures
            r == self.local,
    {
        self.local
    }

    /// A snapshot of the peers still receiving broadcasts.
    pub fn peer_addrs(&self) -> (r: Vec<Addr>)
        ensures
            r@ == self.addrs(),
    {
        let mut r: Vec<Addr> = Vec::new();
        let mut i: usize = 0;
        while i < self.peers.len()
            invariant
                i <= self.peers@.len(),
                r@.len() == i,
                forall|j: int| 0 <= j < i ==> r@[j] == (#[trigger] self.peers@[j]).addr,
            decreases self.peers@.len() - i,
        {
            r.push(self.peers[i].addr);
            i = i + 1;
        }
        proof {
            assert(r@ =~= self.addrs());
        }
        r
    }

    /// Fan-out: queues the value's frame to every currently live peer, in
    /// registry order. No peer is skipped and no peer receives it twice;
    /// the transport driver then writes each peer's wire independently, so
    /// one slow peer cannot block the others.
    pub fn send_all(&mut self, item: u64)
        requires
            old(self).wf(),
        ensures
            final(self).wf(),
            final(self).local == old(self).local,
            final(self).limit == old(self).limit,
            final(self).codec == old(self).codec,
            final(self).peers@.len() == old(self).peers@.len(),
            forall|i: int|
                0 <= i < old(self).peers@.len() ==> {
                    let pre = #[trigger] old(self).peers@[i];
                    let post = #[trigger] final(self).peers@[i];
                    &&& post.addr == pre.addr
                    &&& post.w.sent@ == pre.w.sent@.push(item)
                    &&& post.w.drained == pre.w.drained
                },
    {
        let n = self.peers.len();
        let mut i: usize = 0;
        while i < n
            invariant
                i <= n,
                n == self.peers@.len(),
                n == old(self).peers@.len(),
                self.local == old(self).local,
                self.limit == old(self).limit,
                self.codec == old(self).codec,
                forall|j: int|
                    0 <= j < n ==> {
                        let e = #[trigger] self.peers@[j];
                        &&& e.w.wf()
                        &&& e.w.codec == self.codec
                        &&& e.w.peer == e.addr
                        &&& !e.w.dead
                        &&& !e.w.closed
                        &&& e.w.state is Idle
                    },
                forall|j: int, k: int|
                    0 <= j < k < n ==> (#[trigger] self.peers@[j]).addr != (
                    #[trigger] self.peers@[k]).addr,
                forall|j: int|
                    i <= j < n ==> #[trigger] self.peers@[j] == old(self).peers@[j],
                forall|j: int|
                    0 <= j < i ==> {
                        let pre = #[trigger] old(self).peers@[j];
                        let post = #[trigger] self.peers@[j];
                        &&& post.addr == pre.addr
                        &&& post.w.sent@ == pre.w.sent@.push(item)
                        &&& post.w.drained == pre.w.drained
                    },
            decreases n - i,
        {
            let r = self.peers[i].w.send(item);
            proof {
                assert(r is Ok);
            }
            i = i + 1;
        }
    }

    /// One peer's transport write failed: evicts exactly that peer, leaving
    /// every other peer untouched. False when the peer was not live.
    pub fn peer_failed(&mut self, addr: Addr) -> (r: bool)
        requires
            old(self).wf(),
        ensures
            final(self).wf(),
            final(self).local == old(self).local,
            final(self).limit == old(self).limit,
            final(self).codec == old(self).codec,
            !r ==> *final(self) == *old(self),
            r <==> old(self).contains_addr(addr),
            r ==> final(self).peers@.len() + 1 == old(self).peers@.len(),
            r ==> exists|i: int|
                0 <= i < old(self).peers@.len() && (#[trigger] old(self).peers@[i]).addr == addr
                    && final(self).peers@ == old(self).peers@.remove(i),
    {
        let n = self.peers.len();
        let mut i: usize = 0;
        while i < n
            invariant
                i <= n,
                n == self.peers@.len(),
                old(self).wf(),
                *self == *old(self),
                forall|j: int| 0 <= j < i ==> (#[trigger] self.peers@[j]).addr != addr,
            decreases n - i,
        {
            if self.peers[i].addr == addr {
                let ghost pre = self.peers@;
                let _gone = self.peers.remove(i);
                proof {
                    assert(self.peers@ =~= pre.remove(i as int));
                    assert forall|j: int, k: int|
                        0 <= j < k < self.peers@.len() implies (#[trigger] self.peers@[j]).addr
                        != (#[trigger] self.peers@[k]).addr by {
                        if k < i {
                            assert(self.peers@[j] == pre[j] && self.peers@[k] == pre[k]);
                        } else if j < i {
                            assert(self.peers@[j] == pre[j] && self.peers@[k] == pre[k + 1]);
                        } else {
                            assert(self.peers@[j] == pre[j + 1] && self.peers@[k] == pre[k + 1]);
                        }
                    };
                    assert forall|j: int| 0 <= j < self.peers@.len() implies ({
                        let e = #[trigger] self.peers@[j];
                        &&& e.w.wf()
                        &&& e.w.codec == self.codec
                        &&& e.w.peer == e.addr
                        &&& !e.w.dead
                        &&& !e.w.closed
                        &&& e.w.state is Idle
                    }) by {
                        if j < i {
                            assert(self.peers@[j] == pre[j]);
                        } else {
                            assert(self.peers@[j] == pre[j + 1]);
                        }
                    };
                    assert(0 <= i < pre.len() && pre[i as int].addr == addr);
                    assert(old(self).contains_addr(addr));
                    assert(self.peers@ == pre.remove(i as int));
                }
                return true;
            }
            i = i + 1;
        }
        false
    }

    /// Hands the transport driver the flushed bytes waiting for one peer's
    /// socket; nothing for a peer that is not live.
    pub fn drain_peer(&mut self, addr: Addr) -> (r: Option<Vec<u8>>)
        requires
            old(self).wf(),
        ensures
            final(self).wf(),
            final(self).local == old(self).local,
            final(self).limit == old(self).limit,
            final(self).codec == old(self).codec,
            r is None ==> *final(self) == *old(self) && !old(self).contains_addr(addr),
            r matches Some(bytes) ==> exists|i: int|
                0 <= i < old(self).peers@.len() && (#[trigger] old(self).peers@[i]).addr == addr
                    && bytes@ == old(self).peers@[i].w.out@ && final(self).peers@ == old(self).peers@.update(i, final(self).peers@[i]) && final(self).peers@[i].addr == addr
                    && final(self).peers@[i].w.out@ == Seq::<u8>::empty() && final(self).peers@[i].w.sent == old(self).peers@[i].w.sent,
    {
        let n = self.peers.len();
        let mut i: usize = 0;
        while i < n
            invariant
                i <= n,
                n == self.peers@.len(),
                old(self).wf(),
                *self == *old(self),
                forall|j: int| 0 <= j < i ==> (#[trigger] self.peers@[j]).addr != addr,
            decreases n - i,
        {
            if self.peers[i].addr == addr {
                let ghost pre = self.peers@;
                let bytes = self.peers[i].w.drain_wire();
                proof {
                    assert(self.peers@ =~= pre.update(i as int, self.peers@[i as int]));
                }
                return Some(bytes);
            }
            i = i + 1;
        }
        None
    }

    /// Attaches the write capability of a peer admitted after the split, so
    /// that broadcasts reach it too. Rejects — changing nothing — a half
    /// that is not live and idle, speaks another codec, or duplicates a
    /// live peer.
    pub fn attach(&mut self, addr: Addr, w: WriteHalf) -> (r: bool)
        requires
            old(self).wf(),
            w.wf(),
        ensures
            final(self).wf(),
            final(self).local == old(self).local,
            final(self).limit == old(self).limit,
            final(self).codec == old(self).codec,
            !r ==> *final(self) == *old(self),
            r <==> (!old(self).contains_addr(addr) && !w.dead && !w.closed && w.state is Idle
                && w.codec == old(self).codec && w.peer == addr),
            r ==> final(self).peers@ == old(self).peers@.push(BEntry { addr, w }),
    {
        if w.dead || w.closed {
            return false;
        }
        match w.state {
            crate::channel::WriteState::Idle => {},
            _ => {
                return false;
            },
        }
        if !(w.codec == self.codec) {
            return false;
        }
        if !(w.peer == addr) {
            return false;
        }
        match self.find_idx(addr) {
            Some(_) => false,
            None => {
                let ghost pre = self.peers@;
                self.peers.push(BEntry { addr, w });
                proof {
                    assert(forall|j: int| 0 <= j < pre.len() ==> self.peers@[j] == pre[j]);
                    assert(self.peers@[pre.len() as int] == (BEntry { addr, w }));
                }
                true
            },
        }
    }

    /// The broadcaster's slot for this address, if any.
    fn find_idx(&self, a: Addr) -> (r: Option<usize>)
        ensures
            r matches Some(i) ==> i < self.peers@.len() && self.peers@[i as int].addr == a,
            r is None ==> !self.contains_addr(a),
    {
        let mut i: usize = 0;
        while i < self.peers.len()
            invariant
                i <= self.peers@.len(),
                forall|j: int| 0 <= j < i ==> (#[trigger] self.peers@[j]).addr != a,
            decreases self.peers@.len() - i,
        {
            if self.peers[i].addr == a {
                return Some(i);
            }
            i = i + 1;
        }
        None
    }
}

/// Fan-out idempotence under partial failure: when a broadcaster with k
/// live peers fans a value out and exactly one peer's write then fails,
/// evicting it, the k−1 surviving peers have all received the value exactly
/// once — it is the last entry of each survivor's send history — and the
/// live count has decreased by exactly one.
pub proof fn lemma_fanout_partial_failure(pre: Sender, mid: Sender, post: Sender, item: u64, a: Addr)
    requires
        pre.wf(),
        mid.peers@.len() == pre.peers@.len(),
        forall|i: int|
            0 <= i < pre.peers@.len() ==> (#[trigger] mid.peers@[i]).addr == pre.peers@[i].addr
                && mid.peers@[i].w.sent@ == pre.peers@[i].w.sent@.push(item),
        exists|i: int|
            0 <= i < mid.peers@.len() && (#[trigger] mid.peers@[i]).addr == a && post.peers@
                == mid.peers@.remove(i),
    ensures
        post.peers@.len() + 1 == pre.peers@.len(),
        forall|j: int|
            0 <= j < post.peers@.len() ==> (#[trigger] post.peers@[j]).addr != a
                && post.peers@[j].w.sent@.len() > 0 && post.peers@[j].w.sent@.last() == item,
{
    let i = choose|i: int|
        0 <= i < mid.peers@.len() && (#[trigger] mid.peers@[i]).addr == a && post.peers@
            == mid.peers@.remove(i);
    assert forall|j: int|
        0 <= j < post.peers@.len() implies (#[trigger] post.peers@[j]).addr != a
        && post.peers@[j].w.sent@.len() > 0 && post.peers@[j].w.sent@.last() == item by {
        if j < i {
            assert(post.peers@[j] == mid.peers@[j]);
            assert(pre.peers@[j].addr != pre.peers@[i].addr);
        } else {
            assert(post.peers@[j] == mid.peers@[j + 1]);
            assert(pre.peers@[j + 1].addr != pre.peers@[i].addr);
        }
    };
}

} // verus!
