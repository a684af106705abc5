//! Byte-level framing of the tunnel streams: stream multiplexing, UDP
//! multiplexing, length-prefixed relay frames, replay of already-read
//! bytes, and the bandwidth limiter's arithmetic.
use vstd::prelude::*;

pub mod mux;
pub mod udp_mux;
pub mod relay;
pub mod prefixed;
pub mod throttle;

verus! {

/// `n` as two big-endian bytes.
pub open spec fn be16(n: u16) -> Seq<u8> {
    seq![(n >> 8u16) as u8, n as u8]
}

/// `n` as four big-endian bytes.
pub open spec fn be32(n: u32) -> Seq<u8> {
    seq![(n >> 24u32) as u8, (n >> 16u32) as u8, (n >> 8u32) as u8, n as u8]
}

/// The big-endian 16-bit number at `s[p..p + 2]`.
pub open spec fn be16_at(s: Seq<u8>, p: int) -> u16 {
    ((s[p] as u16) << 8u16) | (s[p + 1] as u16)
}

/// The big-endian 32-bit number at `s[p..p + 4]`.
pub open spec fn be32_at(s: Seq<u8>, p: int) -> u32 {
    ((s[p] as u32) << 24u32) | ((s[p + 1] as u32) << 16u32) | ((s[p + 2] as u32) << 8u32) | (s[p
        + 3] as u32)
}

/// Two big-endian bytes read back give the number they were written from.
pub proof fn lemma_be16_roundtrip(n: u16)
    ensures
        be16(n).len() == 2,
        forall|s: Seq<u8>, p: int|
            0 <= p && p + 2 <= s.len() && s.subrange(p, p + 2) == be16(n) ==> #[trigger] be16_at(
                s,
                p,
            ) == n,
{
    let b0 = be16(n)[0];
    let b1 = be16(n)[1];
    assert(((b0 as u16) << 8u16) | (b1 as u16) == n) by (bit_vector)
        requires
            b0 == (n >> 8u16) as u8,
            b1 == n as u8,
    ;
    assert forall|s: Seq<u8>, p: int|
        0 <= p && p + 2 <= s.len() && s.subrange(p, p + 2) == be16(n) implies #[trigger] be16_at(
        s,
        p,
    ) == n by {
        assert(s[p] == s.subrange(p, p + 2)[0]);
        assert(s[p + 1] == s.subrange(p, p + 2)[1]);
    }
}

/// Four big-endian bytes read back give the number they were written from.
pub proof fn lemma_be32_roundtrip(n: u32)
    ensures
        be32(n).len() == 4,
        forall|s: Seq<u8>, p: int|
            0 <= p && p + 4 <= s.len() && s.subrange(p, p + 4) == be32(n) ==> #[trigger] be32_at(
                s,
                p,
            ) == n,
{
    let b0 = be32(n)[0];
    let b1 = be32(n)[1];
    let b2 = be32(n)[2];
    let b3 = be32(n)[3];
    assert(((b0 as u32) << 24u32) | ((b1 as u32) << 16u32) | ((b2 as u32) << 8u32) | (b3 as u32)
        == n) by (bit_vector)
        requires
            b0 == (n >> 24u32) as u8,
            b1 == (n >> 16u32) as u8,
            b2 == (n >> 8u32) as u8,
            b3 == n as u8,
    ;
    assert forall|s: Seq<u8>, p: int|
        0 <= p && p + 4 <= s.len() && s.subrange(p, p + 4) == be32(n) implies #[trigger] be32_at(
        s,
        p,
    ) == n by {
        assert(s[p] == s.subrange(p, p + 4)[0]);
        assert(s[p + 1] == s.subrange(p, p + 4)[1]);
        assert(s[p + 2] == s.subrange(p, p + 4)[2]);
        assert(s[p + 3] == s.subrange(p, p + 4)[3]);
    }
}

/// Two bytes are the big-endian form of the number they spell.
pub proof fn lemma_be16_of_bytes(s: Seq<u8>, p: int)
    requires
        0 <= p && p + 2 <= s.len(),
    ensures
        be16(be16_at(s, p)) == s.subrange(p, p + 2),
{
    let b0 = s[p];
    let b1 = s[p + 1];
    let v = be16_at(s, p);
    assert((v >> 8u16) as u8 == b0 && v as u8 == b1) by (bit_vector)
        requires
            v == ((b0 as u16) << 8u16) | (b1 as u16),
    ;
    assert(be16(v) =~= s.subrange(p, p + 2));
}

/// Four bytes are the big-endian form of the number they spell.
pub proof fn lemma_be32_of_bytes(s: Seq<u8>, p: int)
    requires
        0 <= p && p + 4 <= s.len(),
    ensures
        be32(be32_at(s, p)) == s.subrange(p, p + 4),
{
    let b0 = s[p];
    let b1 = s[p + 1];
    let b2 = s[p + 2];
    let b3 = s[p + 3];
    let v = be32_at(s, p);
    assert((v >> 24u32) as u8 == b0 && (v >> 16u32) as u8 == b1 && (v >> 8u32) as u8 == b2 && v as u8
        == b3) by (bit_vector)
        requires
            v == ((b0 as u32) << 24u32) | ((b1 as u32) << 16u32) | ((b2 as u32) << 8u32) | (b3 as u32),
    ;
    assert(be32(v) =~= s.subrange(p, p + 4));
}

/// Appends `n` as two big-endian bytes.
pub fn push_be16(dst: &mut Vec<u8>, n: u16)
    ensures
        final(dst)@ == old(dst)@ + be16(n),
{
    dst.push((n >> 8u16) as u8);
    dst.push(n as u8);
    assert(dst@ =~= old(dst)@ + be16(n));
}

/// Appends `n` as four big-endian bytes.
pub fn push_be32(dst: &mut Vec<u8>, n: u32)
    ensures
        final(dst)@ == old(dst)@ + be32(n),
{
    dst.push((n >> 24u32) as u8);
    dst.push((n >> 16u32) as u8);
    dst.push((n >> 8u32) as u8);
    dst.push(n as u8);
    assert(dst@ =~= old(dst)@ + be32(n));
}

/// The big-endian 16-bit number at `s[p..p + 2]`.
pub fn read_be16_at(s: &[u8], p: usize) -> (n: u16)
    requires
        p + 2 <= s@.len(),
    ensures
        n == be16_at(s@, p as int),
{
    ((s[p] as u16) << 8u16) | (s[p + 1] as u16)
}

/// The big-endian 32-bit number at `s[p..p + 4]`.
pub fn read_be32_at(s: &[u8], p: usize) -> (n: u32)
    requires
        p + 4 <= s@.len(),
    ensures
        n == be32_at(s@, p as int),
{
    ((s[p] as u32) << 24u32) | ((s[p + 1] as u32) << 16u32) | ((s[p + 2] as u32) << 8u32) | (s[p
        + 3] as u32)
}

/// Appends the bytes of `src` to `dst`.
pub fn append_bytes(dst: &mut Vec<u8>, src: &[u8])
    ensures
        final(dst)@ == old(dst)@ + src@,
{
    let mut i: usize = 0;
    while i < src.len()
        invariant
            i <= src.len(),
            dst@ == old(dst)@ + src@.subrange(0, i as int),
        decreases src.len() - i,
    {
        dst.push(src[i]);
        i = i + 1;
        assert(src@.subrange(0, i as int) =~= src@.subrange(0, i - 1) + seq![src@[i - 1]]);
    }
    assert(src@.subrange(0, src.len() as int) =~= src@);
}

/// The bytes `s[from..to]` as a new vector.
pub fn copy_range(s: &[u8], from: usize, to: usize) -> (out: Vec<u8>)
    requires
        from <= to <= s@.len(),
    ensures
        out@ == s@.subrange(from as int, to as int),
{
    let mut out: Vec<u8> = Vec::new();
    append_bytes(&mut out, vstd::slice::slice_subrange(s, from, to));
    out
}

} // verus!
