use arp::protocol::codec::{MessageCodec, MAX_MESSAGE_SIZE};
use arp::protocol::{LoginMsg, Message, PingMsg};
use arp::Error;

fn json_field(payload: &[u8], field: &str) -> serde_json::Value {
    let v: serde_json::Value = serde_json::from_slice(payload).unwrap();
    v.get(field).cloned().unwrap()
}

#[test]
fn test_codec_ping() {
    let mut codec = MessageCodec;
    let msg = Message::Ping(PingMsg { timestamp: 123456 });
    let json = br#"{"type":"Ping","timestamp":123456}"#;

    let mut buf = Vec::new();
    codec.encode(&msg, json, &mut buf).unwrap();

    let decoded = codec.decode(&mut buf).unwrap().unwrap();
    assert_eq!(decoded.type_byte, b'h');
    assert_eq!(json_field(&decoded.payload, "timestamp"), 123456);
    assert!(buf.is_empty());
}

#[test]
fn test_codec_login() {
    let mut codec = MessageCodec;
    let msg = Message::Login(LoginMsg {
        version: "0.1.0".to_string(),
        hostname: "test-host".to_string(),
        os: "linux".to_string(),
        arch: "x86_64".to_string(),
        user: "test-user".to_string(),
        client_id: String::new(),
        timestamp: 1234567890,
        privilege_key: "test-key".to_string(),
        run_id: "".to_string(),
        pool_count: 5,
    });
    let json = br#"{"type":"Login","version":"0.1.0","hostname":"test-host","os":"linux","arch":"x86_64","user":"test-user","timestamp":1234567890,"privilege_key":"test-key","run_id":"","pool_count":5}"#;

    let mut buf = Vec::new();
    codec.encode(&msg, json, &mut buf).unwrap();

    let decoded = codec.decode(&mut buf).unwrap().unwrap();
    assert_eq!(decoded.type_byte, b'o');
    assert_eq!(json_field(&decoded.payload, "version"), "0.1.0");
    assert_eq!(json_field(&decoded.payload, "hostname"), "test-host");
    assert_eq!(json_field(&decoded.payload, "pool_count"), 5);
}

#[test]
fn test_codec_partial_message() {
    let mut codec = MessageCodec;
    let msg = Message::Ping(PingMsg { timestamp: 123456 });
    let json = br#"{"type":"Ping","timestamp":123456}"#;

    let mut buf = Vec::new();
    codec.encode(&msg, json, &mut buf).unwrap();

    let rest = buf.split_off(5);
    let mut partial = buf;
    assert!(codec.decode(&mut partial).unwrap().is_none());

    partial.extend_from_slice(&rest);
    assert!(codec.decode(&mut partial).unwrap().is_some());
}

#[test]
fn test_codec_rejects_too_large_message() {
    let mut codec = MessageCodec;
    let mut buf = Vec::new();
    buf.push(b'p');
    buf.extend_from_slice(&((MAX_MESSAGE_SIZE as u64) + 1).to_be_bytes());
    let err = codec.decode(&mut buf).unwrap_err();
    match err {
        Error::Protocol(msg) => assert!(msg.contains("exceeds max")),
        other => panic!("unexpected error: {:?}", other),
    }
}

#[test]
fn frame_layout_and_following_bytes() {
    let mut codec = MessageCodec;
    let mut buf = Vec::new();
    codec
        .encode(&Message::Ping(PingMsg { timestamp: 1 }), b"abc", &mut buf)
        .unwrap();
    assert_eq!(buf, vec![b'h', 0, 0, 0, 0, 0, 0, 0, 3, b'a', b'b', b'c']);
    buf.extend_from_slice(&[9, 9]);
    let f = codec.decode(&mut buf).unwrap().unwrap();
    assert_eq!(f.payload, b"abc".to_vec());
    assert_eq!(buf, vec![9, 9]);
}

#[test]
fn too_large_json_is_refused_and_exact_text() {
    let mut codec = MessageCodec;
    let big = vec![b' '; MAX_MESSAGE_SIZE + 1];
    let mut buf = vec![7u8];
    match codec.encode(&Message::Ping(PingMsg { timestamp: 1 }), &big, &mut buf) {
        Err(Error::Codec(m)) => assert_eq!(m, "Message too large: 8388609 > 8388608"),
        other => panic!("unexpected: {:?}", other),
    }
    assert_eq!(buf, vec![7u8]);
    let mut head = vec![b'p'];
    head.extend_from_slice(&9_000_000u64.to_be_bytes());
    match codec.decode(&mut head) {
        Err(Error::Protocol(m)) => assert_eq!(m, "message length 9000000 exceeds max 8388608"),
        other => panic!("unexpected: {:?}", other),
    }
}

#[test]
fn type_bytes_round_trip_through_names() {
    assert_eq!(Message::from_type_byte(b'h'), Some("Ping"));
    assert_eq!(Message::from_type_byte(b'4'), Some("Pong"));
    assert_eq!(Message::from_type_byte(b'z'), None);
    assert_eq!(Message::Ping(PingMsg { timestamp: 0 }).type_byte(), b'h');
}
