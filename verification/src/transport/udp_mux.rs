//! Frames of the UDP multiplexer, which carries datagrams over one stream.
//!
//! A request is type byte 1, the request id (u32), the source address's
//! length (u16) and UTF-8 bytes, the payload length (u32) and the payload; a
//! response is type byte 2, the request id, the payload length and the
//! payload; a ping (3) and a pong (4) are the type byte alone. All numbers
//! are big-endian.
use vstd::prelude::*;
use vstd::utf8::{encode_utf8, valid_utf8};
use crate::error::{Error, Result};
use crate::text::{decimal, decimal_string, cat2, string_from_utf8, utf8_error_text};
use crate::transport::{
    be16, be32, be16_at, be32_at, push_be16, push_be32, read_be16_at, read_be32_at, append_bytes,
    copy_range, lemma_be16_roundtrip, lemma_be32_roundtrip, lemma_be16_of_bytes,
    lemma_be32_of_bytes,
};

verus! {

pub const UDP_FRAME_REQ: u8 = 1;
pub const UDP_FRAME_RESP: u8 = 2;
pub const UDP_FRAME_PING: u8 = 3;
pub const UDP_FRAME_PONG: u8 = 4;

/// The longest source address, in bytes.
pub const MAX_ADDR_LEN: usize = 1024;

/// The largest payload: 1 MiB.
pub const MAX_PAYLOAD_LEN: usize = 1048576;

/// One frame of the UDP multiplexer.
#[derive(Debug, Clone)]
pub enum UdpMuxFrame {
    Req { request_id: u32, src_addr: String, payload: Vec<u8> },
    Resp { request_id: u32, payload: Vec<u8> },
    Ping,
    Pong,
}

/// The bytes that carry `f`.
pub open spec fn udp_frame_bytes(f: UdpMuxFrame) -> Seq<u8> {
    match f {
        UdpMuxFrame::Req { request_id, src_addr, payload } => seq![UDP_FRAME_REQ] + be32(request_id)
            + be16(encode_utf8(src_addr@).len() as u16) + encode_utf8(src_addr@) + be32(
            payload@.len() as u32,
        ) + payload@,
        UdpMuxFrame::Resp { request_id, payload } => seq![UDP_FRAME_RESP] + be32(request_id) + be32(
            payload@.len() as u32,
        ) + payload@,
        UdpMuxFrame::Ping => seq![UDP_FRAME_PING],
        UdpMuxFrame::Pong => seq![UDP_FRAME_PONG],
    }
}

/// A frame's address and payload are within the limits.
pub open spec fn udp_frame_ok(f: UdpMuxFrame) -> bool {
    match f {
        UdpMuxFrame::Req { src_addr, payload, .. } => encode_utf8(src_addr@).len() <= MAX_ADDR_LEN
            && payload@.len() <= MAX_PAYLOAD_LEN,
        UdpMuxFrame::Resp { payload, .. } => payload@.len() <= MAX_PAYLOAD_LEN,
        _ => true,
    }
}

/// The source-address length of a request in `buf` (it needs 7 bytes).
pub open spec fn req_addr_len(buf: Seq<u8>) -> int {
    be16_at(buf, 5) as int
}

/// The payload length of a request in `buf` (it needs `11 + addr` bytes).
pub open spec fn req_payload_len(buf: Seq<u8>) -> int {
    be32_at(buf, 7 + req_addr_len(buf)) as int
}

/// How many bytes the frame at the start of `buf` takes, as far as what is
/// there tells.
pub open spec fn udp_needed(buf: Seq<u8>) -> int {
    if buf.len() == 0 {
        1
    } else if buf[0] == UDP_FRAME_REQ {
        if buf.len() < 7 {
            7
        } else if buf.len() < 11 + req_addr_len(buf) {
            11 + req_addr_len(buf)
        } else {
            11 + req_addr_len(buf) + req_payload_len(buf)
        }
    } else if buf[0] == UDP_FRAME_RESP {
        if buf.len() < 9 {
            9
        } else {
            9 + be32_at(buf, 5)
        }
    } else {
        1
    }
}

/// The error that the frame at the start of `buf` is refused with, if any,
/// in the order the fields come: an unknown type, an address over the
/// limit, a payload over the limit, an address that is not UTF-8.
pub open spec fn udp_error(buf: Seq<u8>) -> Option<Seq<char>> {
    if buf.len() == 0 {
        None
    } else if !(UDP_FRAME_REQ <= buf[0] <= UDP_FRAME_PONG) {
        Some("unknown udp mux frame type: "@ + decimal(buf[0] as nat))
    } else if buf[0] == UDP_FRAME_REQ {
        if buf.len() >= 7 && req_addr_len(buf) > MAX_ADDR_LEN {
            Some("udp mux src_addr too long"@)
        } else if buf.len() >= 7 && buf.len() >= 11 + req_addr_len(buf) && req_payload_len(buf)
            > MAX_PAYLOAD_LEN {
            Some("udp mux payload too large"@)
        } else if buf.len() >= 7 && buf.len() >= 11 + req_addr_len(buf) && buf.len() >= udp_needed(
            buf,
        ) && !valid_utf8(buf.subrange(7, 7 + req_addr_len(buf))) {
            Some(
                "invalid udp mux src_addr: "@ + utf8_error_text(
                    buf.subrange(7, 7 + req_addr_len(buf)),
                ),
            )
        } else {
            None
        }
    } else if buf[0] == UDP_FRAME_RESP && buf.len() >= 9 && be32_at(buf, 5) > MAX_PAYLOAD_LEN {
        Some("udp mux payload too large"@)
    } else {
        None
    }
}

/// `buf` does not yet hold a whole frame, and nothing read so far is wrong.
pub open spec fn udp_incomplete(buf: Seq<u8>) -> bool {
    udp_error(buf) is None && buf.len() < udp_needed(buf)
}

/// `buf` starts with a whole, acceptable frame.
pub open spec fn udp_complete(buf: Seq<u8>) -> bool {
    udp_error(buf) is None && buf.len() >= udp_needed(buf)
}

/// Appends the bytes of `frame` to `dst`. Fails, leaving `dst` as it was,
/// on a request whose source address is over the limit.
pub fn encode_udp_mux_frame(frame: &UdpMuxFrame, dst: &mut Vec<u8>) -> (r: Result<()>)
    ensures
        r is Err <==> (frame matches UdpMuxFrame::Req { src_addr, .. } && encode_utf8(src_addr@).len()
            > MAX_ADDR_LEN),
        r matches Err(e) ==> (e matches Error::Protocol(m) && m@ == "udp mux src_addr too long"@),
        r is Ok ==> final(dst)@ == old(dst)@ + udp_frame_bytes(*frame),
        r is Err ==> final(dst)@ == old(dst)@,
{
    match frame {
        UdpMuxFrame::Req { request_id, src_addr, payload } => {
            let addr = src_addr.as_str().as_bytes();
            if addr.len() > MAX_ADDR_LEN {
                return Err(Error::Protocol(String::from_str("udp mux src_addr too long")));
            }
            dst.push(UDP_FRAME_REQ);
            push_be32(dst, *request_id);
            push_be16(dst, addr.len() as u16);
            append_bytes(dst, addr);
            push_be32(dst, payload.len() as u32);
            append_bytes(dst, payload.as_slice());
        },
        UdpMuxFrame::Resp { request_id, payload } => {
            dst.push(UDP_FRAME_RESP);
            push_be32(dst, *request_id);
            push_be32(dst, payload.len() as u32);
            append_bytes(dst, payload.as_slice());
        },
        UdpMuxFrame::Ping => {
            dst.push(UDP_FRAME_PING);
        },
        UdpMuxFrame::Pong => {
            dst.push(UDP_FRAME_PONG);
        },
    }
    assert(dst@ =~= old(dst)@ + udp_frame_bytes(*frame));
    Ok(())
}

/// Reads the frame at the start of `buf`: `None` while it is incomplete,
/// else the frame and how many bytes it took. Fails as soon as the bytes
/// that show a fault are there (see `udp_error`).
pub fn decode_udp_mux_frame(buf: &[u8]) -> (r: Result<Option<(UdpMuxFrame, usize)>>)
    ensures
        udp_error(buf@) is Some <==> r is Err,
        r matches Err(e) ==> (e matches Error::Protocol(m) && Some(m@) == udp_error(buf@)),
        udp_incomplete(buf@) <==> r matches Ok(None),
        udp_complete(buf@) <==> r matches Ok(Some(_)),
        r matches Ok(Some((f, n))) ==> n == udp_needed(buf@) && n <= buf@.len()
            && udp_frame_bytes(f) == buf@.take(n as int) && udp_frame_ok(f),
{
    if buf.len() == 0 {
        return Ok(None);
    }
    let t = buf[0];
    if t == UDP_FRAME_REQ {
        if buf.len() < 7 {
            return Ok(None);
        }
        let request_id = read_be32_at(buf, 1);
        let addr_len = read_be16_at(buf, 5) as usize;
        if addr_len > MAX_ADDR_LEN {
            return Err(Error::Protocol(String::from_str("udp mux src_addr too long")));
        }
        if buf.len() - 7 < addr_len + 4 {
            return Ok(None);
        }
        let payload_len = read_be32_at(buf, 7 + addr_len) as usize;
        if payload_len > MAX_PAYLOAD_LEN {
            return Err(Error::Protocol(String::from_str("udp mux payload too large")));
        }
        let start = 11 + addr_len;
        if buf.len() - start < payload_len {
            return Ok(None);
        }
        let addr = copy_range(buf, 7, 7 + addr_len);
        let payload = copy_range(buf, start, start + payload_len);
        let ghost addr_bytes = addr@;
        match string_from_utf8(addr) {
            Ok(src_addr) => {
                proof {
                    vstd::utf8::decode_utf8_encode_utf8(addr_bytes);
                    lemma_be32_of_bytes(buf@, 1);
                    lemma_be16_of_bytes(buf@, 5);
                    lemma_be32_of_bytes(buf@, 7 + addr_len);
                }
                let f = UdpMuxFrame::Req { request_id, src_addr, payload };
                assert(udp_frame_bytes(f) =~= buf@.take((start + payload_len) as int));
                Ok(Some((f, start + payload_len)))
            },
            Err(e) => {
                let m = cat2("invalid udp mux src_addr: ", e.as_str());
                Err(Error::Protocol(m))
            },
        }
    } else if t == UDP_FRAME_RESP {
        if buf.len() < 9 {
            return Ok(None);
        }
        let request_id = read_be32_at(buf, 1);
        let payload_len = read_be32_at(buf, 5) as usize;
        if payload_len > MAX_PAYLOAD_LEN {
            return Err(Error::Protocol(String::from_str("udp mux payload too large")));
        }
        if buf.len() - 9 < payload_len {
            return Ok(None);
        }
        let payload = copy_range(buf, 9, 9 + payload_len);
        proof {
            lemma_be32_of_bytes(buf@, 1);
            lemma_be32_of_bytes(buf@, 5);
        }
        let f = UdpMuxFrame::Resp { request_id, payload };
        assert(udp_frame_bytes(f) =~= buf@.take((9 + payload_len) as int));
        Ok(Some((f, 9 + payload_len)))
    } else if t == UDP_FRAME_PING {
        assert(udp_frame_bytes(UdpMuxFrame::Ping) =~= buf@.take(1));
        Ok(Some((UdpMuxFrame::Ping, 1)))
    } else if t == UDP_FRAME_PONG {
        assert(udp_frame_bytes(UdpMuxFrame::Pong) =~= buf@.take(1));
        Ok(Some((UdpMuxFrame::Pong, 1)))
    } else {
        let a = decimal_string(t as u64);
        let m = cat2("unknown udp mux frame type: ", a.as_str());
        Err(Error::Protocol(m))
    }
}

/// Law: a frame within the limits, followed by any bytes, decodes whole:
/// the decoder takes exactly its bytes.
pub proof fn law_udp_roundtrip(f: UdpMuxFrame, rest: Seq<u8>)
    requires
        udp_frame_ok(f),
    ensures
        udp_complete(udp_frame_bytes(f) + rest),
        udp_needed(udp_frame_bytes(f) + rest) == udp_frame_bytes(f).len(),
        (udp_frame_bytes(f) + rest).take(udp_frame_bytes(f).len() as int) == udp_frame_bytes(f),
{
    let b = udp_frame_bytes(f);
    let s = b + rest;
    assert(s.take(b.len() as int) =~= b);
    match f {
        UdpMuxFrame::Req { request_id, src_addr, payload } => {
            let a = encode_utf8(src_addr@);
            lemma_be16_roundtrip(a.len() as u16);
            lemma_be32_roundtrip(payload@.len() as u32);
            assert(s.subrange(5, 7) =~= be16(a.len() as u16));
            let al = a.len() as int;
            assert(s.subrange(7 + al, 11 + al) =~= be32(payload@.len() as u32));
            assert(s.subrange(7, 7 + al) =~= a);
            vstd::utf8::encode_utf8_valid_utf8(src_addr@);
        },
        UdpMuxFrame::Resp { request_id, payload } => {
            lemma_be32_roundtrip(payload@.len() as u32);
            assert(s.subrange(5, 9) =~= be32(payload@.len() as u32));
        },
        _ => {},
    }
}

} // verus!
