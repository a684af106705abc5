use arp::transport::mux::{decode_mux_frame, encode_mux_frame, MuxFrame};
use arp::transport::prefixed::PrefixedStream;
use arp::transport::relay::{read_frame, write_frame};
use arp::transport::throttle::{next_chunk, refill_amount, refill_permits};
use arp::transport::udp_mux::{decode_udp_mux_frame, encode_udp_mux_frame, UdpMuxFrame};
use arp::Error;

#[test]
fn mux_frames_round_trip() {
    let frames = vec![
        MuxFrame::Open { stream_id: 7 },
        MuxFrame::Data { stream_id: 0x01020304, payload: b"hello".to_vec() },
        MuxFrame::Close { stream_id: 9 },
        MuxFrame::Ping,
        MuxFrame::Pong,
    ];
    let mut buf = Vec::new();
    for f in &frames {
        encode_mux_frame(f, &mut buf);
    }
    assert_eq!(&buf[..5], &[1, 0, 0, 0, 7]);
    let mut at = 0;
    for f in &frames {
        let (g, n) = decode_mux_frame(&buf[at..]).unwrap().unwrap();
        assert_eq!(format!("{:?}", g), format!("{:?}", f));
        at += n;
    }
    assert_eq!(at, buf.len());
}

#[test]
fn mux_decoder_waits_and_refuses() {
    let mut buf = Vec::new();
    encode_mux_frame(&MuxFrame::Data { stream_id: 1, payload: vec![1, 2, 3] }, &mut buf);
    for cut in 0..buf.len() {
        assert!(decode_mux_frame(&buf[..cut]).unwrap().is_none());
    }
    match decode_mux_frame(&[9]) {
        Err(Error::Protocol(m)) => assert_eq!(m, "unknown mux frame type: 9"),
        other => panic!("unexpected: {:?}", other),
    }
    let mut big = vec![2, 0, 0, 0, 1];
    big.extend_from_slice(&(1024u32 * 1024 + 1).to_be_bytes());
    match decode_mux_frame(&big) {
        Err(Error::Protocol(m)) => assert_eq!(m, "mux payload too large: 1048577 > 1048576"),
        other => panic!("unexpected: {:?}", other),
    }
}

#[test]
fn udp_mux_frames_round_trip() {
    let frames = vec![
        UdpMuxFrame::Req { request_id: 5, src_addr: "1.2.3.4:53".to_string(), payload: vec![0xaa] },
        UdpMuxFrame::Resp { request_id: 5, payload: vec![0xbb, 0xcc] },
        UdpMuxFrame::Ping,
        UdpMuxFrame::Pong,
    ];
    let mut buf = Vec::new();
    for f in &frames {
        encode_udp_mux_frame(f, &mut buf).unwrap();
    }
    let mut at = 0;
    for f in &frames {
        let (g, n) = decode_udp_mux_frame(&buf[at..]).unwrap().unwrap();
        assert_eq!(format!("{:?}", g), format!("{:?}", f));
        at += n;
    }
    assert_eq!(at, buf.len());
}

#[test]
fn udp_mux_refusals() {
    let long = UdpMuxFrame::Req { request_id: 1, src_addr: "a".repeat(1025), payload: vec![] };
    let mut buf = vec![42];
    match encode_udp_mux_frame(&long, &mut buf) {
        Err(Error::Protocol(m)) => assert_eq!(m, "udp mux src_addr too long"),
        other => panic!("unexpected: {:?}", other),
    }
    assert_eq!(buf, vec![42]);
    match decode_udp_mux_frame(&[7]) {
        Err(Error::Protocol(m)) => assert_eq!(m, "unknown udp mux frame type: 7"),
        other => panic!("unexpected: {:?}", other),
    }
    let bad_addr = vec![1, 0, 0, 0, 1, 0, 1, 0xff, 0, 0, 0, 0];
    match decode_udp_mux_frame(&bad_addr) {
        Err(Error::Protocol(m)) => assert!(m.starts_with("invalid udp mux src_addr: ")),
        other => panic!("unexpected: {:?}", other),
    }
    let mut big = vec![2, 0, 0, 0, 1];
    big.extend_from_slice(&(1024u32 * 1024 + 1).to_be_bytes());
    match decode_udp_mux_frame(&big) {
        Err(Error::Protocol(m)) => assert_eq!(m, "udp mux payload too large"),
        other => panic!("unexpected: {:?}", other),
    }
}

#[test]
fn relay_frames() {
    let mut buf = Vec::new();
    write_frame(&mut buf, b"xyz");
    assert_eq!(buf, vec![0, 0, 0, 3, b'x', b'y', b'z']);
    assert!(read_frame(&buf[..6]).unwrap().is_none());
    let (data, n) = read_frame(&buf).unwrap().unwrap();
    assert_eq!(data, b"xyz".to_vec());
    assert_eq!(n, 7);
    match read_frame(&[0, 0x10, 0, 1]) {
        Err(Error::Protocol(m)) => assert_eq!(m, "stcp frame too large"),
        other => panic!("unexpected: {:?}", other),
    }
}

#[test]
fn prefix_is_replayed_in_chunks() {
    let mut s = PrefixedStream::new(b"GET / HTTP/1.1".to_vec(), 17u32);
    assert_eq!(s.prefix_remaining(), 14);
    assert_eq!(s.take_prefix(4), b"GET ".to_vec());
    assert_eq!(s.take_prefix(100), b"/ HTTP/1.1".to_vec());
    assert_eq!(s.prefix_remaining(), 0);
    assert!(s.take_prefix(8).is_empty());
    let (_, pos, inner) = s.into_parts();
    assert_eq!(pos, 14);
    assert_eq!(inner, 17);
}

#[test]
fn throttle_arithmetic() {
    assert_eq!(refill_amount(1_000_000), 100_000);
    assert_eq!(refill_amount(5), 1);
    assert_eq!(refill_permits(900, 1000, 100), 100);
    assert_eq!(refill_permits(950, 1000, 100), 50);
    assert_eq!(refill_permits(1200, 1000, 100), 0);
    assert_eq!(next_chunk(3000, 1024), 1024);
    assert_eq!(next_chunk(500, 1024), 500);
}
