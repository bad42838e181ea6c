//! The framing boundary: each transmitted unit is one self-delimited frame —
//! a four-byte big-endian length followed by exactly one codec-encoded
//! payload. Frame boundaries are independent of codec choice, so raw-frame
//! access works identically for every codec.

use vstd::prelude::*;

verus! {

/// The largest payload a frame can carry: its length must fit the four-byte
/// header.
pub open spec fn frameable(p: Seq<u8>) -> bool {
    p.len() <= 0xffff_ffff
}

/// One frame on the wire: the length header, then the payload.
pub open spec fn frame_of(p: Seq<u8>) -> Seq<u8> {
    let n = p.len();
    let q1 = n / 256;
    let q2 = q1 / 256;
    let q3 = q2 / 256;
    seq![(q3 % 256) as u8, (q2 % 256) as u8, (q1 % 256) as u8, (n % 256) as u8] + p
}

/// The length carried by a four-byte big-endian header.
pub open spec fn header_value(s: Seq<u8>) -> int {
    let a1 = s[0] * 256 + s[1];
    let a2 = a1 * 256 + s[2];
    a2 * 256 + s[3]
}

/// Splits one complete frame off the front of a byte stream: the payload and
/// the rest, or nothing while the stream still lacks a full frame.
pub open spec fn take_frame(s: Seq<u8>) -> Option<(Seq<u8>, Seq<u8>)> {
    if s.len() < 4 {
        None
    } else {
        let n = header_value(s);
        if s.len() >= 4 + n {
            Some((s.subrange(4, 4 + n), s.skip(4 + n)))
        } else {
            None
        }
    }
}

/// All complete frames at the front of a byte stream, in arrival order.
pub open spec fn frames_of(s: Seq<u8>) -> Seq<Seq<u8>>
    decreases s.len(),
{
    match take_frame(s) {
        Some(pr) => seq![pr.0] + frames_of(pr.1),
        None => Seq::empty(),
    }
}

/// The byte stream that carries the given payloads, one frame each, in
/// order.
pub open spec fn wire_of_frames(ps: Seq<Seq<u8>>) -> Seq<u8>
    decreases ps.len(),
{
    if ps.len() == 0 {
        Seq::empty()
    } else {
        frame_of(ps[0]) + wire_of_frames(ps.skip(1))
    }
}

pub open spec fn all_frameable(ps: Seq<Seq<u8>>) -> bool {
    forall|i: int| 0 <= i < ps.len() ==> frameable(#[trigger] ps[i])
}

/// Framing is prefix-free: the first frame of a stream that starts with a
/// whole frame is exactly that frame's payload, whatever follows it.
pub proof fn lemma_take_frame_prefix(p: Seq<u8>, rest: Seq<u8>)
    requires
        frameable(p),
    ensures
        take_frame(frame_of(p) + rest) == Some((p, rest)),
{
    let f = frame_of(p);
    let s = f + rest;
    let n = p.len();
    let q1 = n / 256;
    let q2 = q1 / 256;
    let q3 = q2 / 256;
    let hdr = seq![(q3 % 256) as u8, (q2 % 256) as u8, (q1 % 256) as u8, (n % 256) as u8];
    assert(f == hdr + p);
    assert(f.len() == 4 + p.len());
    assert(f[0] == hdr[0] && f[1] == hdr[1] && f[2] == hdr[2] && f[3] == hdr[3]);
    assert(s[0] == f[0] && s[1] == f[1] && s[2] == f[2] && s[3] == f[3]);
    assert(s[0] == (q3 % 256) as u8);
    assert(s[1] == (q2 % 256) as u8);
    assert(s[2] == (q1 % 256) as u8);
    assert(s[3] == (n % 256) as u8);
    assert(q3 < 256 && q3 % 256 == q3);
    assert(q3 * 256 + q2 % 256 == q2);
    assert(q2 * 256 + q1 % 256 == q1);
    assert(q1 * 256 + n % 256 == n);
    assert(header_value(s) == n);
    assert(s.subrange(4, 4 + n as int) =~= p);
    assert(s.skip(4 + n as int) =~= rest);
}

/// Parsing undoes framing: the frames of the wire that carries a sequence of
/// payloads are exactly those payloads, in order — none lost, none
/// duplicated, none reordered.
pub proof fn lemma_frames_of_wire(ps: Seq<Seq<u8>>)
    requires
        all_frameable(ps),
    ensures
        frames_of(wire_of_frames(ps)) == ps,
    decreases ps.len(),
{
    if ps.len() == 0 {
        assert(frames_of(wire_of_frames(ps)) =~= ps);
    } else {
        lemma_take_frame_prefix(ps[0], wire_of_frames(ps.skip(1)));
        assert(all_frameable(ps.skip(1))) by {
            assert(forall|i: int|
                0 <= i < ps.skip(1).len() ==> ps.skip(1)[i] == #[trigger] ps[i + 1]);
        };
        lemma_frames_of_wire(ps.skip(1));
        assert(frames_of(wire_of_frames(ps)) =~= ps);
    }
}


/// A stream whose front holds a whole frame is exactly that frame followed
/// by the rest: the four header bytes are determined by the payload length.
pub proof fn lemma_take_frame_shape(s: Seq<u8>)
    requires
        take_frame(s) is Some,
    ensures
        take_frame(s) matches Some(pr) ==> {
            &&& frameable(pr.0)
            &&& s == frame_of(pr.0) + pr.1
        },
{
    let n = header_value(s);
    let p = s.subrange(4, 4 + n);
    let rest = s.skip(4 + n);
    let b0 = s[0] as int;
    let b1 = s[1] as int;
    let b2 = s[2] as int;
    let b3 = s[3] as int;
    let m2 = b0 * 256 + b1;
    let m1 = m2 * 256 + b2;
    assert(n == m1 * 256 + b3);
    vstd::arithmetic::div_mod::lemma_fundamental_div_mod_converse(n, 256, m1, b3);
    vstd::arithmetic::div_mod::lemma_fundamental_div_mod_converse(m1, 256, m2, b2);
    vstd::arithmetic::div_mod::lemma_fundamental_div_mod_converse(m2, 256, b0, b1);
    assert(p.len() == n);
    let f = frame_of(p);
    let nn = p.len();
    let q1 = nn / 256;
    let q2 = q1 / 256;
    let q3 = q2 / 256;
    let hdr = seq![(q3 % 256) as u8, (q2 % 256) as u8, (q1 % 256) as u8, (nn % 256) as u8];
    assert(f == hdr + p);
    assert(q1 == m1 && q2 == m2 && q3 == b0);
    assert(b0 % 256 == b0);
    assert(f[0] == s[0] && f[1] == s[1] && f[2] == s[2] && f[3] == s[3]);
    assert(forall|i: int| 4 <= i < 4 + n ==> f[i] == #[trigger] s[i]) by {
        assert(forall|i: int| 4 <= i < 4 + n ==> f[i] == p[i - 4] && p[i - 4] == #[trigger] s[i]);
    };
    assert(s =~= f + rest);
}

/// Builds the frame that carries one payload.
pub fn encode_frame(p: &Vec<u8>) -> (r: Vec<u8>)
    requires
        frameable(p@),
    ensures
        r@ == frame_of(p@),
{
    let n: u64 = p.len() as u64;
    let q1: u64 = n / 256;
    let q2: u64 = q1 / 256;
    let q3: u64 = q2 / 256;
    let mut r: Vec<u8> = vec![
        (q3 % 256) as u8,
        (q2 % 256) as u8,
        (q1 % 256) as u8,
        (n % 256) as u8,
    ];
    proof {
        assert(r@ =~= frame_of(p@).take(4));
    }
    let mut i: usize = 0;
    while i < p.len()
        invariant
            i <= p@.len(),
            frameable(p@),
            r@ == frame_of(p@).take(4 + i),
        decreases p@.len() - i,
    {
        r.push(p[i]);
        proof {
            assert(r@ =~= frame_of(p@).take(4 + i + 1));
        }
        i = i + 1;
    }
    proof {
        assert(frame_of(p@).take(4 + p@.len() as int) =~= frame_of(p@));
    }
    r
}

} // verus!
