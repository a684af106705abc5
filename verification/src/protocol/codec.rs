//! Framing of control messages on the wire.
//!
//! A frame is one type byte, the payload length as a big-endian `u64`, then
//! the payload (the message's JSON text). Turning a message into JSON and back
//! is left to the caller; this module frames, bounds and splits the bytes.
use vstd::prelude::*;
use crate::error::{Error, Result};
use crate::protocol::message::{Message, type_byte_of};
use crate::text::{decimal, decimal_string, cat5};

verus! {

/// The largest payload a frame may carry: 8 MiB.
pub const MAX_MESSAGE_SIZE: usize = 8388608;

/// Bytes before the payload: the type byte and the length.
pub const FRAME_HEADER_LEN: usize = 9;

/// The framing codec for control messages.
#[derive(Debug)]
pub struct MessageCodec;

/// One frame taken off the wire: its type byte and its payload.
#[derive(Debug)]
pub struct RawFrame {
    pub type_byte: u8,
    pub payload: Vec<u8>,
}

/// `n` as eight big-endian bytes.
pub open spec fn be8(n: u64) -> Seq<u8> {
    seq![
        (n >> 56u64) as u8, (n >> 48u64) as u8, (n >> 40u64) as u8, (n >> 32u64) as u8,
        (n >> 24u64) as u8, (n >> 16u64) as u8, (n >> 8u64) as u8, n as u8,
    ]
}

/// The number that eight big-endian bytes spell.
pub open spec fn be8_value(b: Seq<u8>) -> u64
    recommends
        b.len() == 8,
{
    ((b[0] as u64) << 56u64) | ((b[1] as u64) << 48u64) | ((b[2] as u64) << 40u64)
        | ((b[3] as u64) << 32u64) | ((b[4] as u64) << 24u64) | ((b[5] as u64) << 16u64)
        | ((b[6] as u64) << 8u64) | (b[7] as u64)
}

/// The frame that carries `payload` under `type_byte`.
pub open spec fn frame_bytes(type_byte: u8, payload: Seq<u8>) -> Seq<u8> {
    seq![type_byte] + be8(payload.len() as u64) + payload
}

/// The payload length that a buffer's header declares.
pub open spec fn declared_len(src: Seq<u8>) -> u64
    recommends
        src.len() >= 9,
{
    be8_value(src.subrange(1, 9))
}

/// The header declares a payload above the limit.
pub open spec fn frame_too_long(src: Seq<u8>) -> bool {
    src.len() >= 9 && declared_len(src) > MAX_MESSAGE_SIZE
}

/// The buffer does not yet hold a whole frame (and its header, if complete,
/// is within the limit).
pub open spec fn frame_incomplete(src: Seq<u8>) -> bool {
    src.len() < 9 || (!frame_too_long(src) && src.len() < 9 + declared_len(src))
}

/// The buffer starts with a whole frame.
pub open spec fn frame_complete(src: Seq<u8>) -> bool {
    !frame_incomplete(src) && !frame_too_long(src)
}

/// The payload of the frame at the start of `src`.
pub open spec fn frame_payload(src: Seq<u8>) -> Seq<u8> {
    src.subrange(9, 9 + declared_len(src))
}

/// What follows the frame at the start of `src`.
pub open spec fn frame_rest(src: Seq<u8>) -> Seq<u8> {
    src.subrange(9 + declared_len(src), src.len() as int)
}

/// The text of the error for a declared length over the limit.
pub open spec fn too_long_message(len: u64) -> Seq<char> {
    "message length "@ + decimal(len as nat) + " exceeds max "@ + decimal(MAX_MESSAGE_SIZE as nat)
}

/// The text of the error for a payload over the limit.
pub open spec fn too_large_message(len: nat) -> Seq<char> {
    "Message too large: "@ + decimal(len) + " > "@ + decimal(MAX_MESSAGE_SIZE as nat)
}

/// Eight big-endian bytes read back give the number they were written from.
pub proof fn lemma_be8_roundtrip(n: u64)
    ensures
        be8(n).len() == 8,
        be8_value(be8(n)) == n,
{
    let b = be8(n);
    let b0 = b[0];
    let b1 = b[1];
    let b2 = b[2];
    let b3 = b[3];
    let b4 = b[4];
    let b5 = b[5];
    let b6 = b[6];
    let b7 = b[7];
    assert(((b0 as u64) << 56u64) | ((b1 as u64) << 48u64) | ((b2 as u64) << 40u64)
        | ((b3 as u64) << 32u64) | ((b4 as u64) << 24u64) | ((b5 as u64) << 16u64)
        | ((b6 as u64) << 8u64) | (b7 as u64) == n) by (bit_vector)
        requires
            b0 == (n >> 56u64) as u8,
            b1 == (n >> 48u64) as u8,
            b2 == (n >> 40u64) as u8,
            b3 == (n >> 32u64) as u8,
            b4 == (n >> 24u64) as u8,
            b5 == (n >> 16u64) as u8,
            b6 == (n >> 8u64) as u8,
            b7 == n as u8,
    ;
}

/// Law: a frame of an allowed payload, followed by any bytes, decodes to its
/// type byte and payload, and leaves exactly the bytes that followed.
pub proof fn law_frame_roundtrip(type_byte: u8, payload: Seq<u8>, rest: Seq<u8>)
    requires
        payload.len() <= MAX_MESSAGE_SIZE,
    ensures
        frame_complete(frame_bytes(type_byte, payload) + rest),
        (frame_bytes(type_byte, payload) + rest)[0] == type_byte,
        frame_payload(frame_bytes(type_byte, payload) + rest) == payload,
        frame_rest(frame_bytes(type_byte, payload) + rest) == rest,
{
    let n = payload.len() as u64;
    lemma_be8_roundtrip(n);
    let s = frame_bytes(type_byte, payload) + rest;
    assert(s.subrange(1, 9) =~= be8(n));
    assert(declared_len(s) == n);
    assert(s.subrange(9, 9 + n) =~= payload);
    assert(s.subrange(9 + n, s.len() as int) =~= rest);
}

/// Law: every proper prefix of a frame of an allowed payload is reported as
/// incomplete, never as an error.
pub proof fn law_frame_prefix_incomplete(type_byte: u8, payload: Seq<u8>, cut: int)
    requires
        payload.len() <= MAX_MESSAGE_SIZE,
        0 <= cut < frame_bytes(type_byte, payload).len(),
    ensures
        frame_incomplete(frame_bytes(type_byte, payload).subrange(0, cut)),
        !frame_too_long(frame_bytes(type_byte, payload).subrange(0, cut)),
{
    let n = payload.len() as u64;
    lemma_be8_roundtrip(n);
    let f = frame_bytes(type_byte, payload);
    let s = f.subrange(0, cut);
    if cut >= 9 {
        assert(s.subrange(1, 9) =~= be8(n));
        assert(declared_len(s) == n);
    }
}

/// Appends the bytes of `src` to `dst`.
fn copy_bytes(dst: &mut Vec<u8>, src: &[u8])
    ensures
        final(dst)@ == old(dst)@ + src@,
{
    let mut i: usize = 0;
    while i < src.len()
        invariant
            i <= src.len(),
            dst@ == old(dst)@ + src@.subrange(0, i as int),
        decreases src.len() - i,
    {
        dst.push(src[i]);
        i = i + 1;
        assert(src@.subrange(0, i as int) =~= src@.subrange(0, i - 1) + seq![src@[i - 1]]);
    }
    assert(src@.subrange(0, src.len() as int) =~= src@);
}

impl MessageCodec {
    /// Appends to `dst` the frame of `msg`, whose JSON text is `json`. Fails,
    /// leaving `dst` as it was, when the JSON is over the size limit.
    pub fn encode(&mut self, msg: &Message, json: &[u8], dst: &mut Vec<u8>) -> (r: Result<()>)
        ensures
            json@.len() <= MAX_MESSAGE_SIZE <==> r is Ok,
            r is Ok ==> final(dst)@ == old(dst)@ + frame_bytes(type_byte_of(*msg), json@),
            r is Err ==> final(dst)@ == old(dst)@,
            r matches Err(e) ==> (e matches Error::Codec(m) && m@ == too_large_message(
                json@.len(),
            )),
    {
        if json.len() > MAX_MESSAGE_SIZE {
            let a = decimal_string(json.len() as u64);
            let b = decimal_string(MAX_MESSAGE_SIZE as u64);
            let m = cat5("Message too large: ", a.as_str(), " > ", b.as_str(), "");
            proof {
                reveal_strlit("");
                assert(m@ =~= too_large_message(json@.len()));
            }
            return Err(Error::Codec(m));
        }
        let t = msg.type_byte();
        let n = json.len() as u64;
        let mut head: Vec<u8> = Vec::new();
        head.push(t);
        head.push((n >> 56u64) as u8);
        head.push((n >> 48u64) as u8);
        head.push((n >> 40u64) as u8);
        head.push((n >> 32u64) as u8);
        head.push((n >> 24u64) as u8);
        head.push((n >> 16u64) as u8);
        head.push((n >> 8u64) as u8);
        head.push(n as u8);
        assert(head@ =~= seq![t] + be8(n));
        copy_bytes(dst, head.as_slice());
        copy_bytes(dst, json);
        assert(dst@ =~= old(dst)@ + frame_bytes(type_byte_of(*msg), json@));
        Ok(())
    }

    /// Takes the first whole frame off the front of `src`. Returns `None`,
    /// leaving `src` as it was, while the frame is incomplete; fails, leaving
    /// `src` as it was, when its header declares a payload over the limit.
    pub fn decode(&mut self, src: &mut Vec<u8>) -> (r: Result<Option<RawFrame>>)
        ensures
            frame_incomplete(old(src)@) <==> r matches Ok(None),
            frame_too_long(old(src)@) <==> r is Err,
            frame_complete(old(src)@) <==> r matches Ok(Some(_)),
            r matches Err(e) ==> (e matches Error::Protocol(m) && m@ == too_long_message(
                declared_len(old(src)@),
            )),
            !(r matches Ok(Some(_))) ==> final(src)@ == old(src)@,
            r matches Ok(Some(f)) ==> {
                &&& f.type_byte == old(src)@[0]
                &&& f.payload@ == frame_payload(old(src)@)
                &&& final(src)@ == frame_rest(old(src)@)
            },
    {
        if src.len() < 9 {
            return Ok(None);
        }
        let length: u64 = ((src[1] as u64) << 56u64) | ((src[2] as u64) << 48u64) | ((
        src[3] as u64) << 40u64) | ((src[4] as u64) << 32u64) | ((src[5] as u64) << 24u64) | ((
        src[6] as u64) << 16u64) | ((src[7] as u64) << 8u64) | (src[8] as u64);
        assert(length == declared_len(src@));
        if length > MAX_MESSAGE_SIZE as u64 {
            let a = decimal_string(length);
            let b = decimal_string(MAX_MESSAGE_SIZE as u64);
            let m = cat5("message length ", a.as_str(), " exceeds max ", b.as_str(), "");
            proof {
                reveal_strlit("");
                assert(m@ =~= too_long_message(length));
            }
            return Err(Error::Protocol(m));
        }
        let len = length as usize;
        if src.len() - 9 < len {
            return Ok(None);
        }
        let type_byte = src[0];
        let rest = src.split_off(9 + len);
        let payload = src.split_off(9);
        *src = rest;
        Ok(Some(RawFrame { type_byte, payload }))
    }
}

} // verus!
