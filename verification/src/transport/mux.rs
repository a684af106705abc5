//! Frames of the TCP stream multiplexer.
//!
//! A frame is a type byte, then for `Open` and `Close` the stream id (u32,
//! big-endian), for `Data` the stream id, the payload length (u32) and the
//! payload; `Ping` and `Pong` are the type byte alone.
use vstd::prelude::*;
use crate::error::{Error, Result};
use crate::text::{decimal, decimal_string, cat5};
use crate::transport::{
    be32, be32_at, push_be32, read_be32_at, append_bytes, copy_range, lemma_be32_roundtrip,
    lemma_be32_of_bytes,
};

verus! {

pub const FRAME_OPEN: u8 = 1;
pub const FRAME_DATA: u8 = 2;
pub const FRAME_CLOSE: u8 = 3;
pub const FRAME_PING: u8 = 4;
pub const FRAME_PONG: u8 = 5;

/// The largest payload a data frame may carry: 1 MiB.
pub const MAX_FRAME_PAYLOAD: usize = 1048576;

/// One frame of the stream multiplexer.
#[derive(Debug, Clone)]
pub enum MuxFrame {
    Open { stream_id: u32 },
    Data { stream_id: u32, payload: Vec<u8> },
    Close { stream_id: u32 },
    Ping,
    Pong,
}

/// The bytes that carry `f`.
pub open spec fn mux_frame_bytes(f: MuxFrame) -> Seq<u8> {
    match f {
        MuxFrame::Open { stream_id } => seq![FRAME_OPEN] + be32(stream_id),
        MuxFrame::Data { stream_id, payload } => seq![FRAME_DATA] + be32(stream_id) + be32(
            payload@.len() as u32,
        ) + payload@,
        MuxFrame::Close { stream_id } => seq![FRAME_CLOSE] + be32(stream_id),
        MuxFrame::Ping => seq![FRAME_PING],
        MuxFrame::Pong => seq![FRAME_PONG],
    }
}

/// What a frame says: its type byte, stream id (0 for pings) and payload
/// (empty but for data).
pub open spec fn mux_view(f: MuxFrame) -> (u8, u32, Seq<u8>) {
    match f {
        MuxFrame::Open { stream_id } => (FRAME_OPEN, stream_id, Seq::empty()),
        MuxFrame::Data { stream_id, payload } => (FRAME_DATA, stream_id, payload@),
        MuxFrame::Close { stream_id } => (FRAME_CLOSE, stream_id, Seq::empty()),
        MuxFrame::Ping => (FRAME_PING, 0, Seq::empty()),
        MuxFrame::Pong => (FRAME_PONG, 0, Seq::empty()),
    }
}

/// A data frame's payload is within the limit (other frames have none).
pub open spec fn mux_payload_ok(f: MuxFrame) -> bool {
    match f {
        MuxFrame::Data { payload, .. } => payload@.len() <= MAX_FRAME_PAYLOAD,
        _ => true,
    }
}

/// How many bytes the frame at the start of `buf` takes, as far as its
/// header tells (a data frame with an incomplete header counts as its
/// header).
pub open spec fn mux_needed(buf: Seq<u8>) -> int {
    if buf.len() == 0 {
        1
    } else if buf[0] == FRAME_OPEN || buf[0] == FRAME_CLOSE {
        5
    } else if buf[0] == FRAME_DATA {
        if buf.len() < 9 {
            9
        } else {
            9 + be32_at(buf, 5)
        }
    } else {
        1
    }
}

/// The error that the frame at the start of `buf` is refused with, if any:
/// an unknown type byte, or a data length over the limit.
pub open spec fn mux_error(buf: Seq<u8>) -> Option<Seq<char>> {
    if buf.len() == 0 {
        None
    } else if !(FRAME_OPEN <= buf[0] <= FRAME_PONG) {
        Some("unknown mux frame type: "@ + decimal(buf[0] as nat))
    } else if buf[0] == FRAME_DATA && buf.len() >= 9 && be32_at(buf, 5) > MAX_FRAME_PAYLOAD {
        Some(
            "mux payload too large: "@ + decimal(be32_at(buf, 5) as nat) + " > "@ + decimal(
                MAX_FRAME_PAYLOAD as nat,
            ),
        )
    } else {
        None
    }
}

/// `buf` does not yet hold a whole frame, and nothing read so far is wrong.
pub open spec fn mux_incomplete(buf: Seq<u8>) -> bool {
    mux_error(buf) is None && buf.len() < mux_needed(buf)
}

/// `buf` starts with a whole, acceptable frame.
pub open spec fn mux_complete(buf: Seq<u8>) -> bool {
    mux_error(buf) is None && buf.len() >= mux_needed(buf)
}

/// Appends the bytes of `frame` to `dst`.
pub fn encode_mux_frame(frame: &MuxFrame, dst: &mut Vec<u8>)
    ensures
        final(dst)@ == old(dst)@ + mux_frame_bytes(*frame),
{
    match frame {
        MuxFrame::Open { stream_id } => {
            dst.push(FRAME_OPEN);
            push_be32(dst, *stream_id);
        },
        MuxFrame::Data { stream_id, payload } => {
            dst.push(FRAME_DATA);
            push_be32(dst, *stream_id);
            push_be32(dst, payload.len() as u32);
            append_bytes(dst, payload.as_slice());
        },
        MuxFrame::Close { stream_id } => {
            dst.push(FRAME_CLOSE);
            push_be32(dst, *stream_id);
        },
        MuxFrame::Ping => {
            dst.push(FRAME_PING);
        },
        MuxFrame::Pong => {
            dst.push(FRAME_PONG);
        },
    }
    assert(dst@ =~= old(dst)@ + mux_frame_bytes(*frame));
}

/// Reads the frame at the start of `buf`: `None` while it is incomplete,
/// else the frame and how many bytes it took. Fails on an unknown type byte
/// and on a data length over the limit, as soon as the bytes that show it
/// are there.
pub fn decode_mux_frame(buf: &[u8]) -> (r: Result<Option<(MuxFrame, usize)>>)
    ensures
        mux_error(buf@) is Some <==> r is Err,
        r matches Err(e) ==> (e matches Error::Protocol(m) && Some(m@) == mux_error(buf@)),
        mux_incomplete(buf@) <==> r matches Ok(None),
        mux_complete(buf@) <==> r matches Ok(Some(_)),
        r matches Ok(Some((f, n))) ==> n == mux_needed(buf@) && n <= buf@.len()
            && mux_frame_bytes(f) == buf@.take(n as int) && mux_payload_ok(f),
{
    if buf.len() == 0 {
        return Ok(None);
    }
    let t = buf[0];
    if t == FRAME_OPEN || t == FRAME_CLOSE {
        if buf.len() < 5 {
            return Ok(None);
        }
        let stream_id = read_be32_at(buf, 1);
        proof {
            lemma_be32_of_bytes(buf@, 1);
        }
        let f = if t == FRAME_OPEN {
            MuxFrame::Open { stream_id }
        } else {
            MuxFrame::Close { stream_id }
        };
        assert(mux_frame_bytes(f) =~= buf@.take(5));
        Ok(Some((f, 5)))
    } else if t == FRAME_DATA {
        if buf.len() < 9 {
            return Ok(None);
        }
        let stream_id = read_be32_at(buf, 1);
        let len = read_be32_at(buf, 5);
        if len as usize > MAX_FRAME_PAYLOAD {
            let a = decimal_string(len as u64);
            let b = decimal_string(MAX_FRAME_PAYLOAD as u64);
            let m = cat5("mux payload too large: ", a.as_str(), " > ", b.as_str(), "");
            proof {
                reveal_strlit("");
                assert(m@ =~= mux_error(buf@).unwrap());
            }
            return Err(Error::Protocol(m));
        }
        let n = len as usize;
        if buf.len() - 9 < n {
            return Ok(None);
        }
        let payload = copy_range(buf, 9, 9 + n);
        let f = MuxFrame::Data { stream_id, payload };
        proof {
            lemma_be32_of_bytes(buf@, 1);
            lemma_be32_of_bytes(buf@, 5);
        }
        assert(mux_frame_bytes(f) =~= buf@.take(9 + n));
        Ok(Some((f, 9 + n)))
    } else if t == FRAME_PING {
        assert(mux_frame_bytes(MuxFrame::Ping) =~= buf@.take(1));
        Ok(Some((MuxFrame::Ping, 1)))
    } else if t == FRAME_PONG {
        assert(mux_frame_bytes(MuxFrame::Pong) =~= buf@.take(1));
        Ok(Some((MuxFrame::Pong, 1)))
    } else {
        let a = decimal_string(t as u64);
        let m = cat5("unknown mux frame type: ", a.as_str(), "", "", "");
        proof {
            reveal_strlit("");
            assert(m@ =~= mux_error(buf@).unwrap());
        }
        Err(Error::Protocol(m))
    }
}

/// Law: a frame within the limit, followed by any bytes, decodes whole:
/// the decoder takes exactly its bytes.
pub proof fn law_mux_roundtrip(f: MuxFrame, rest: Seq<u8>)
    requires
        mux_payload_ok(f),
    ensures
        mux_complete(mux_frame_bytes(f) + rest),
        mux_needed(mux_frame_bytes(f) + rest) == mux_frame_bytes(f).len(),
        (mux_frame_bytes(f) + rest).take(mux_frame_bytes(f).len() as int) == mux_frame_bytes(f),
{
    let b = mux_frame_bytes(f);
    let s = b + rest;
    assert(s.take(b.len() as int) =~= b);
    match f {
        MuxFrame::Data { stream_id, payload } => {
            lemma_be32_roundtrip(payload@.len() as u32);
            assert(s.subrange(5, 9) =~= be32(payload@.len() as u32));
        },
        _ => {},
    }
}

/// Law: every proper prefix of a frame within the limit is incomplete,
/// never refused.
pub proof fn law_mux_prefix_incomplete(f: MuxFrame, cut: int)
    requires
        mux_payload_ok(f),
        0 <= cut < mux_frame_bytes(f).len(),
    ensures
        mux_incomplete(mux_frame_bytes(f).take(cut)),
{
    let b = mux_frame_bytes(f);
    let s = b.take(cut);
    match f {
        MuxFrame::Data { stream_id, payload } => {
            if cut >= 9 {
                lemma_be32_roundtrip(payload@.len() as u32);
                assert(s.subrange(5, 9) =~= be32(payload@.len() as u32));
            }
        },
        _ => {},
    }
}

/// Law: the bytes of a frame determine what it says.
pub proof fn law_mux_bytes_determine_frame(f: MuxFrame, g: MuxFrame)
    requires
        mux_frame_bytes(f) == mux_frame_bytes(g),
    ensures
        mux_view(f) == mux_view(g),
{
    let b = mux_frame_bytes(f);
    assert(b[0] == mux_view(f).0);
    assert(mux_frame_bytes(g)[0] == mux_view(g).0);
    match f {
        MuxFrame::Open { stream_id } => {
            lemma_be32_roundtrip(stream_id);
            assert(b.subrange(1, 5) =~= be32(stream_id));
            assert(be32_at(b, 1) == stream_id);
        },
        MuxFrame::Close { stream_id } => {
            lemma_be32_roundtrip(stream_id);
            assert(b.subrange(1, 5) =~= be32(stream_id));
            assert(be32_at(b, 1) == stream_id);
        },
        MuxFrame::Data { stream_id, payload } => {
            lemma_be32_roundtrip(stream_id);
            assert(b.subrange(1, 5) =~= be32(stream_id));
            assert(be32_at(b, 1) == stream_id);
            assert(b.skip(9) =~= payload@);
        },
        _ => {},
    }
    match g {
        MuxFrame::Open { stream_id } => {
            lemma_be32_roundtrip(stream_id);
            assert(b.subrange(1, 5) =~= be32(stream_id));
            assert(be32_at(b, 1) == stream_id);
        },
        MuxFrame::Close { stream_id } => {
            lemma_be32_roundtrip(stream_id);
            assert(b.subrange(1, 5) =~= be32(stream_id));
            assert(be32_at(b, 1) == stream_id);
        },
        MuxFrame::Data { stream_id, payload } => {
            lemma_be32_roundtrip(stream_id);
            assert(b.subrange(1, 5) =~= be32(stream_id));
            assert(be32_at(b, 1) == stream_id);
            assert(b.skip(9) =~= payload@);
        },
        _ => {},
    }
}

} // verus!
