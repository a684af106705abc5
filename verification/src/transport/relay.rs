//! Length-prefixed frames of the encrypted (STCP) relay: a u32 big-endian
//! length, then that many bytes.
use vstd::prelude::*;
use crate::error::{Error, Result};
use crate::transport::{
    be32, be32_at, push_be32, read_be32_at, append_bytes, copy_range, lemma_be32_roundtrip,
};

verus! {

/// The largest frame a reader accepts: 1 MiB.
pub const MAX_RELAY_FRAME: usize = 1048576;

/// The bytes of the frame that carries `data`.
pub open spec fn relay_frame_bytes(data: Seq<u8>) -> Seq<u8> {
    be32(data.len() as u32) + data
}

/// The header at the start of `buf` declares a frame over the limit.
pub open spec fn relay_too_large(buf: Seq<u8>) -> bool {
    buf.len() >= 4 && be32_at(buf, 0) > MAX_RELAY_FRAME
}

/// `buf` does not yet hold a whole frame, and its header, if there, is
/// within the limit.
pub open spec fn relay_incomplete(buf: Seq<u8>) -> bool {
    buf.len() < 4 || (!relay_too_large(buf) && buf.len() < 4 + be32_at(buf, 0))
}

/// Appends the frame that carries `data` to `dst`.
pub fn write_frame(dst: &mut Vec<u8>, data: &[u8])
    ensures
        final(dst)@ == old(dst)@ + relay_frame_bytes(data@),
{
    push_be32(dst, data.len() as u32);
    append_bytes(dst, data);
    assert(dst@ =~= old(dst)@ + relay_frame_bytes(data@));
}

/// Reads the frame at the start of `buf`: `None` while it is incomplete,
/// else its bytes and how many bytes of `buf` it took. Fails when its
/// header declares more than 1 MiB.
pub fn read_frame(buf: &[u8]) -> (r: Result<Option<(Vec<u8>, usize)>>)
    ensures
        relay_too_large(buf@) <==> r is Err,
        r matches Err(e) ==> (e matches Error::Protocol(m) && m@ == "stcp frame too large"@),
        relay_incomplete(buf@) <==> r matches Ok(None),
        r matches Ok(Some((data, n))) ==> n == 4 + data@.len() && n <= buf@.len() && buf@.take(
            n as int,
        ) == relay_frame_bytes(data@) && data@.len() == be32_at(buf@, 0),
{
    if buf.len() < 4 {
        return Ok(None);
    }
    let len = read_be32_at(buf, 0) as usize;
    if len > MAX_RELAY_FRAME {
        return Err(Error::Protocol(String::from_str("stcp frame too large")));
    }
    if buf.len() - 4 < len {
        return Ok(None);
    }
    let data = copy_range(buf, 4, 4 + len);
    proof {
        crate::transport::lemma_be32_of_bytes(buf@, 0);
    }
    assert(buf@.take(4 + len) =~= relay_frame_bytes(data@));
    Ok(Some((data, 4 + len)))
}

/// Law: a frame of at most 1 MiB, followed by any bytes, reads back as the
/// data it carries.
pub proof fn law_relay_roundtrip(data: Seq<u8>, rest: Seq<u8>)
    requires
        data.len() <= MAX_RELAY_FRAME,
    ensures
        !relay_too_large(relay_frame_bytes(data) + rest),
        !relay_incomplete(relay_frame_bytes(data) + rest),
        be32_at(relay_frame_bytes(data) + rest, 0) == data.len(),
        (relay_frame_bytes(data) + rest).subrange(4, 4 + data.len() as int) == data,
{
    let s = relay_frame_bytes(data) + rest;
    lemma_be32_roundtrip(data.len() as u32);
    assert(s.subrange(0, 4) =~= be32(data.len() as u32));
    assert(be32_at(s, 0) == data.len() as u32);
    assert(s.len() >= 4 + data.len());
    assert(s.subrange(4, 4 + data.len() as int) =~= data);
}

} // verus!
