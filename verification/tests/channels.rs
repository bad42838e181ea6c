use netchan::addr::{Addr, PeerConn};
use netchan::broadcast;
use netchan::channel::{Channel, IoEvent, ReadHalf, RecvPoll, SinkPoll};
use netchan::codec::Codec;
use netchan::errors::{
    AcceptError, ChannelSinkError, DecodeError, ProtocolMisuseError, SplitError,
};
use netchan::frame::encode_frame;
use netchan::mpsc;
use netchan::multi_channel;
use netchan::spsc;

fn addr(d: u8, port: u16) -> Addr {
    Addr::new(127, 0, 0, d, port)
}

fn conn(local: Addr, peer: Addr) -> PeerConn {
    PeerConn { local, peer, halvable: true }
}

#[test]
fn binary_codec_round_trip() {
    let c = Codec::Binary;
    let encoded = c.encode(0x0102030405060708);
    assert_eq!(encoded, vec![1u8, 2, 3, 4, 5, 6, 7, 8]);
    assert_eq!(c.decode(&encoded), Ok(0x0102030405060708));
    for v in [0u64, 1, 255, 256, 42, u64::MAX] {
        assert_eq!(c.decode(&c.encode(v)), Ok(v));
    }
}

#[test]
fn json_codec_round_trip_and_wire_form() {
    let c = Codec::Json;
    let encoded = c.encode(1);
    assert_eq!(encoded, b"{\"id\":1}".to_vec());
    assert_eq!(c.decode(&encoded), Ok(1));
    for v in [0u64, 9, 10, 12345, u64::MAX] {
        assert_eq!(c.decode(&c.encode(v)), Ok(v));
    }
    assert_eq!(c.encode(u64::MAX), b"{\"id\":18446744073709551615}".to_vec());
}

#[test]
fn binary_codec_rejects_wrong_length() {
    let c = Codec::Binary;
    assert_eq!(c.decode(&vec![1u8, 2, 3]), Err(DecodeError::BadLength));
    assert_eq!(c.decode(&vec![0u8; 9]), Err(DecodeError::BadLength));
}

#[test]
fn json_codec_rejects_malformed() {
    let c = Codec::Json;
    assert_eq!(c.decode(&b"{\"id\":x}".to_vec()), Err(DecodeError::BadSyntax));
    assert_eq!(c.decode(&b"{\"id\":}".to_vec()), Err(DecodeError::BadSyntax));
    assert_eq!(c.decode(&b"[7]".to_vec()), Err(DecodeError::BadSyntax));
    assert_eq!(c.decode(&b"{\"no\":1}".to_vec()), Err(DecodeError::BadSyntax));
}

#[test]
fn json_codec_rejects_overflow() {
    let c = Codec::Json;
    // one above the largest value of the value type
    assert_eq!(
        c.decode(&b"{\"id\":18446744073709551616}".to_vec()),
        Err(DecodeError::Overflow)
    );
}

#[test]
fn frame_layout_is_length_prefixed() {
    let f = encode_frame(&vec![9u8, 8, 7]);
    assert_eq!(f, vec![0u8, 0, 0, 3, 9, 8, 7]);
}

#[test]
fn single_channel_preserves_submission_order() {
    let s = addr(1, 4000);
    let r = addr(2, 5000);
    let sender = mpsc::Sender::new(conn(s, r), Codec::Binary);
    let (mut sender, _their_read) = sender.split().unwrap();
    let mut rx = spsc::Receiver { inner: ReadHalf::new(r, s, Codec::Binary) };
    for v in [10u64, 20, 30] {
        sender.send(v).unwrap();
    }
    let wire = sender.drain_wire();
    rx.feed(&wire);
    for v in [10u64, 20, 30] {
        match rx.recv() {
            RecvPoll::Item(Ok(got)) => assert_eq!(got, v),
            _ => panic!("expected a value"),
        }
    }
    assert!(matches!(rx.recv(), RecvPoll::Pending));
    rx.set_eof();
    assert!(matches!(rx.recv(), RecvPoll::End));
}

#[test]
fn partial_frames_are_reassembled() {
    let s = addr(1, 4000);
    let r = addr(2, 5000);
    let mut sender = mpsc::Sender::new(conn(s, r), Codec::Json);
    let mut rx = spsc::Receiver { inner: ReadHalf::new(r, s, Codec::Json) };
    sender.send(777).unwrap();
    let wire = sender.drain_wire();
    let (head, tail) = wire.split_at(5);
    rx.feed(&head.to_vec());
    assert!(matches!(rx.recv(), RecvPoll::Pending));
    rx.feed(&tail.to_vec());
    assert!(matches!(rx.recv(), RecvPoll::Item(Ok(777))));
}

#[test]
fn write_discipline_reports_misuse() {
    let s = addr(1, 4000);
    let r = addr(2, 5000);
    let mut sender = mpsc::Sender::new(conn(s, r), Codec::Binary);
    assert_eq!(
        sender.start_send(5),
        Err(ChannelSinkError::Misuse(ProtocolMisuseError::SubmitWithoutReady))
    );
    assert_eq!(sender.poll_ready(IoEvent::Ready), SinkPoll::Ready);
    assert_eq!(sender.start_send(5), Ok(()));
    assert_eq!(
        sender.start_send(6),
        Err(ChannelSinkError::Misuse(ProtocolMisuseError::OverlappingSubmit))
    );
    assert_eq!(sender.poll_flush(IoEvent::Pending), SinkPoll::Pending);
    assert_eq!(sender.poll_flush(IoEvent::Ready), SinkPoll::Ready);
    assert_eq!(sender.poll_ready(IoEvent::Ready), SinkPoll::Ready);
    assert_eq!(sender.start_send(6), Ok(()));
}

#[test]
fn transport_failure_is_terminal_for_the_sender() {
    let s = addr(1, 4000);
    let r = addr(2, 5000);
    let mut sender = mpsc::Sender::new(conn(s, r), Codec::Binary);
    assert!(matches!(
        sender.poll_ready(IoEvent::Failed),
        SinkPoll::Failed(ChannelSinkError::Transport(_))
    ));
    let err = sender.send(1).unwrap_err();
    assert!(!err.message().is_empty());
}

#[test]
fn split_fails_on_non_halvable_transport() {
    let s = addr(1, 4000);
    let r = addr(2, 5000);
    let sender = mpsc::Sender::new(
        PeerConn { local: s, peer: r, halvable: false },
        Codec::Binary,
    );
    match sender.split() {
        Err(SplitError::NotHalvable) => {},
        _ => panic!("expected a split failure"),
    }
}

#[test]
fn split_halves_run_independently() {
    let s = addr(1, 4000);
    let r = addr(2, 5000);
    let chan = Channel::new(conn(s, r), Codec::Binary);
    let (read, write) = chan.split().unwrap();
    let mut tx = spsc::Sender { inner: write };
    let mut rx = spsc::Receiver { inner: read };
    tx.send(1).unwrap();
    tx.send(2).unwrap();
    let wire = tx.drain_wire();
    // the wire holds two whole frames, back to back, never interleaved
    let f1 = encode_frame(&Codec::Binary.encode(1));
    let f2 = encode_frame(&Codec::Binary.encode(2));
    let mut expected = f1.clone();
    expected.extend_from_slice(&f2);
    assert_eq!(wire, expected);
    rx.feed(&wire);
    assert!(matches!(rx.recv(), RecvPoll::Item(Ok(1))));
    assert!(matches!(rx.recv(), RecvPoll::Item(Ok(2))));
}

#[test]
fn capacity_is_enforced_and_freed_by_eviction() {
    let local = addr(9, 7000);
    let multi = multi_channel::Channel::new(local, 2, Codec::Binary);
    let mut rx = mpsc::Receiver::from_channel(multi);
    assert_eq!(rx.limit(), Some(2));
    let a1 = addr(1, 4001);
    let a2 = addr(2, 4002);
    let a3 = addr(3, 4003);
    assert_eq!(rx.accept(conn(local, a1)).unwrap(), a1);
    assert_eq!(rx.accept(conn(local, a2)).unwrap(), a2);
    assert_eq!(rx.len(), 2);
    let err = rx.accept(conn(local, a3)).unwrap_err();
    assert_eq!(err.source, AcceptError::CapacityExceeded);
    assert_eq!(rx.len(), 2);
    // one live peer disconnects: its entry is evicted on the next poll,
    // silently, and a new admission succeeds
    assert!(rx.eof_peer(a1));
    assert!(matches!(rx.recv(), mpsc::Recv::Pending));
    assert_eq!(rx.len(), 1);
    assert_eq!(rx.accept(conn(local, a3)).unwrap(), a3);
    assert_eq!(rx.len(), 2);
}

#[test]
fn admission_filter_rejection_is_distinct() {
    let local = addr(9, 7000);
    let mut multi = multi_channel::Channel::new(local, 0, Codec::Binary);
    let a1 = addr(1, 4001);
    assert_eq!(multi.accept(conn(local, a1), false), Err(AcceptError::Rejected));
    assert_eq!(multi.len(), 0);
    assert_eq!(multi.accept(conn(local, a1), true), Ok(a1));
}

#[test]
fn unbounded_registry_reports_no_limit() {
    let local = addr(9, 7000);
    let multi = multi_channel::Channel::new(local, 0, Codec::Binary);
    let rx = mpsc::Receiver::from_channel(multi);
    assert_eq!(rx.limit(), None);
    assert_eq!(rx.local_addr(), local);
}

#[test]
fn fan_in_is_fair_across_producers() {
    let local = addr(9, 7000);
    let mut rx = mpsc::Receiver::from_channel(multi_channel::Channel::new(
        local,
        0,
        Codec::Binary,
    ));
    let a1 = addr(1, 4001);
    let a2 = addr(2, 4002);
    rx.accept(conn(local, a1)).unwrap();
    rx.accept(conn(local, a2)).unwrap();
    // both producers have two frames buffered; fan-in alternates
    let mut wire1 = encode_frame(&Codec::Binary.encode(11));
    wire1.extend_from_slice(&encode_frame(&Codec::Binary.encode(12)));
    let mut wire2 = encode_frame(&Codec::Binary.encode(21));
    wire2.extend_from_slice(&encode_frame(&Codec::Binary.encode(22)));
    assert!(rx.feed_peer(a1, &wire1));
    assert!(rx.feed_peer(a2, &wire2));
    let mut got = Vec::new();
    for _ in 0..4 {
        match rx.recv_with_addr() {
            mpsc::RecvWithAddr::Item(Ok(v), a) => got.push((v, a)),
            _ => panic!("expected a value"),
        }
    }
    assert_eq!(got, vec![(11, a1), (21, a2), (12, a1), (22, a2)]);
}

#[test]
fn fan_out_partial_failure_spares_the_others() {
    let local = addr(9, 7000);
    let mut rx = mpsc::Receiver::from_channel(multi_channel::Channel::new(
        local,
        0,
        Codec::Binary,
    ));
    let a1 = addr(1, 4001);
    let a2 = addr(2, 4002);
    let a3 = addr(3, 4003);
    for a in [a1, a2, a3] {
        rx.accept(conn(local, a)).unwrap();
    }
    let (_rx, mut bcast) = rx.split().unwrap();
    assert_eq!(bcast.len(), 3);
    bcast.send_all(7);
    // exactly one write fails: that peer is evicted, the others keep the value
    assert!(bcast.peer_failed(a2));
    assert_eq!(bcast.len(), 2);
    let expected = encode_frame(&Codec::Binary.encode(7));
    assert_eq!(bcast.drain_peer(a1).unwrap(), expected);
    assert_eq!(bcast.drain_peer(a3).unwrap(), expected);
    assert!(bcast.drain_peer(a2).is_none());
}

#[test]
fn scenario_json_sender_to_receiver() {
    let r_addr = addr(2, 8000);
    let s_addr = addr(1, 8001);
    let mut sender = mpsc::Sender::new(conn(s_addr, r_addr), Codec::Json);
    let mut rx = mpsc::Receiver::from_channel(multi_channel::Channel::new(
        r_addr,
        0,
        Codec::Json,
    ));
    rx.accept(conn(r_addr, s_addr)).unwrap();
    sender.send(1).unwrap();
    let wire = sender.drain_wire();
    assert!(rx.feed_peer(s_addr, &wire));
    assert!(matches!(rx.recv(), mpsc::Recv::Item(Ok(1))));
    assert!(rx.peer_addrs().contains(&s_addr));
    // the raw frame of the same value is the literal JSON object
    sender.send(1).unwrap();
    let wire = sender.drain_wire();
    assert!(rx.feed_peer(s_addr, &wire));
    match rx.recv_frame() {
        mpsc::RecvFrame::Frame(f) => assert_eq!(&f[..], b"{\"id\":1}"),
        _ => panic!("expected a frame"),
    }
}

#[test]
fn scenario_three_producers_capacity_two() {
    let local = addr(9, 9000);
    let mut rx = mpsc::Receiver::from_channel(multi_channel::Channel::new(
        local,
        2,
        Codec::Binary,
    ));
    let s1 = addr(1, 9001);
    let s2 = addr(2, 9002);
    let s3 = addr(3, 9003);
    rx.accept(conn(local, s1)).unwrap();
    rx.accept(conn(local, s2)).unwrap();
    let e = rx.accept(conn(local, s3)).unwrap_err();
    assert_eq!(e.source, AcceptError::CapacityExceeded);
    // still full: a second attempt fails the same way
    let e = rx.accept(conn(local, s3)).unwrap_err();
    assert_eq!(e.source, AcceptError::CapacityExceeded);
    // the first producer disconnects; after its silent eviction the third
    // connection attempt succeeds
    assert!(rx.eof_peer(s1));
    assert!(matches!(rx.recv(), mpsc::Recv::Pending));
    assert_eq!(rx.len(), 1);
    rx.accept(conn(local, s3)).unwrap();
    assert_eq!(rx.len(), 2);
}

#[test]
fn scenario_broadcast_two_receivers() {
    let local = addr(9, 9100);
    let mut rx = mpsc::Receiver::from_channel(multi_channel::Channel::new(
        local,
        0,
        Codec::Binary,
    ));
    let r1 = addr(1, 9101);
    let r2 = addr(2, 9102);
    rx.accept(conn(local, r1)).unwrap();
    rx.accept(conn(local, r2)).unwrap();
    let (_rx, mut bcast) = rx.split().unwrap();
    bcast.send_all(42);
    let mut peer1 = spsc::Receiver { inner: ReadHalf::new(r1, local, Codec::Binary) };
    let mut peer2 = spsc::Receiver { inner: ReadHalf::new(r2, local, Codec::Binary) };
    peer1.feed(&bcast.drain_peer(r1).unwrap());
    peer2.feed(&bcast.drain_peer(r2).unwrap());
    assert!(matches!(peer1.recv(), RecvPoll::Item(Ok(42))));
    assert!(matches!(peer2.recv(), RecvPoll::Item(Ok(42))));
    // one receiver disconnects; the next broadcast reaches only the other
    assert!(bcast.peer_failed(r2));
    assert_eq!(bcast.len(), 1);
    bcast.send_all(43);
    peer1.feed(&bcast.drain_peer(r1).unwrap());
    assert!(matches!(peer1.recv(), RecvPoll::Item(Ok(43))));
    assert!(bcast.drain_peer(r2).is_none());
}

#[test]
fn late_admission_joins_the_broadcast() {
    let local = addr(9, 9200);
    let mut rx = mpsc::Receiver::from_channel(multi_channel::Channel::new(
        local,
        0,
        Codec::Binary,
    ));
    let r1 = addr(1, 9201);
    rx.accept(conn(local, r1)).unwrap();
    let (mut rx, mut bcast) = rx.split().unwrap();
    // the receive half kept the listening role: a later peer is admitted
    // there and its write capability is handed to the broadcaster
    let r2 = addr(2, 9202);
    rx.accept(conn(local, r2)).unwrap();
    let w = rx.take_write(r2).unwrap();
    assert!(bcast.attach(r2, w));
    bcast.send_all(5);
    let expected = encode_frame(&Codec::Binary.encode(5));
    assert_eq!(bcast.drain_peer(r1).unwrap(), expected);
    assert_eq!(bcast.drain_peer(r2).unwrap(), expected);
}

#[test]
fn adopted_split_half_cannot_split_again() {
    let s = addr(1, 4000);
    let r = addr(2, 5000);
    let sender = mpsc::Sender::new(conn(s, r), Codec::Binary);
    let (sender, _read) = sender.split().unwrap();
    match sender.split() {
        Err(SplitError::NotHalvable) => {},
        _ => panic!("expected a split failure"),
    }
}

#[test]
fn sender_adopts_spsc_half() {
    let s = addr(1, 4000);
    let r = addr(2, 5000);
    let chan = Channel::new(conn(s, r), Codec::Binary);
    let (_read, write) = chan.split().unwrap();
    let mut sender = mpsc::Sender::from(spsc::Sender { inner: write });
    assert_eq!(sender.local_addr(), s);
    assert_eq!(sender.peer_addr(), r);
    sender.send(3).unwrap();
    assert_eq!(sender.drain_wire(), encode_frame(&Codec::Binary.encode(3)));
}

#[test]
fn decode_error_is_item_scoped() {
    let local = addr(9, 9300);
    let mut rx = mpsc::Receiver::from_channel(multi_channel::Channel::new(
        local,
        0,
        Codec::Json,
    ));
    let s1 = addr(1, 9301);
    rx.accept(conn(local, s1)).unwrap();
    // one malformed frame, then one good frame on the same connection
    let mut wire = encode_frame(&b"nonsense".to_vec());
    wire.extend_from_slice(&encode_frame(&Codec::Json.encode(8)));
    assert!(rx.feed_peer(s1, &wire));
    match rx.recv() {
        mpsc::Recv::Item(Err(e)) => {
            assert!(!e.message().is_empty());
        },
        _ => panic!("expected a decode error item"),
    }
    assert!(matches!(rx.recv(), mpsc::Recv::Item(Ok(8))));
    assert_eq!(rx.len(), 1);
}

#[test]
fn close_is_idempotent_after_success() {
    let s = addr(1, 4000);
    let r = addr(2, 5000);
    let mut sender = mpsc::Sender::new(conn(s, r), Codec::Binary);
    assert_eq!(sender.poll_close(IoEvent::Ready), SinkPoll::Ready);
    assert_eq!(sender.poll_close(IoEvent::Ready), SinkPoll::Ready);
    assert!(sender.send(1).is_err());
}

#[test]
fn buffered_frames_are_delivered_before_end() {
    let s = addr(1, 4000);
    let r = addr(2, 5000);
    let mut sender = mpsc::Sender::new(conn(s, r), Codec::Binary);
    let mut rx = spsc::Receiver { inner: ReadHalf::new(r, s, Codec::Binary) };
    sender.send(9).unwrap();
    rx.feed(&sender.drain_wire());
    // the peer closes while one whole frame is still buffered: the frame
    // is delivered first, the stream ends only after it
    rx.set_eof();
    assert!(matches!(rx.recv(), RecvPoll::Item(Ok(9))));
    assert!(matches!(rx.recv(), RecvPoll::End));
}

#[test]
fn frames_carry_their_origin() {
    let local = addr(9, 9400);
    let mut rx = mpsc::Receiver::from_channel(multi_channel::Channel::new(
        local,
        0,
        Codec::Binary,
    ));
    let s1 = addr(1, 9401);
    rx.accept(conn(local, s1)).unwrap();
    assert!(rx.feed_peer(s1, &encode_frame(&Codec::Binary.encode(6))));
    match rx.recv_frame_with_addr() {
        mpsc::RecvFrameWithAddr::Frame(f, a) => {
            assert_eq!(a, s1);
            assert_eq!(&f[..], &Codec::Binary.encode(6)[..]);
        },
        _ => panic!("expected a frame"),
    }
}

#[test]
fn stream_view_matches_recv() {
    let local = addr(9, 9500);
    let mut rx = mpsc::Receiver::from_channel(multi_channel::Channel::new(
        local,
        0,
        Codec::Binary,
    ));
    let s1 = addr(1, 9501);
    rx.accept(conn(local, s1)).unwrap();
    assert!(rx.feed_peer(s1, &encode_frame(&Codec::Binary.encode(4))));
    assert!(matches!(rx.poll_next(), mpsc::Recv::Item(Ok(4))));
    assert!(matches!(rx.poll_next(), mpsc::Recv::Pending));
}
