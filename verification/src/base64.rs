//! Standard base64 (alphabet `A-Z a-z 0-9 + /`, `=` padding), as the
//! client's admin interface uses it for HTTP basic authentication.
use vstd::prelude::*;
use vstd::utf8::encode_utf8;
use crate::text::push_char;

verus! {

/// The base64 digit for `v < 64`.
pub open spec fn b64_char(v: u32) -> char {
    if v < 26 {
        (('A' as u32) + v) as char
    } else if v < 52 {
        (('a' as u32) + v - 26) as char
    } else if v < 62 {
        (('0' as u32) + v - 52) as char
    } else if v == 62 {
        '+'
    } else {
        '/'
    }
}

/// The value of a base64 digit byte, if it is one.
pub open spec fn b64_value(b: u8) -> Option<u32> {
    if 0x41 <= b <= 0x5a {
        Some((b - 0x41) as u32)
    } else if 0x61 <= b <= 0x7a {
        Some((b - 0x61 + 26) as u32)
    } else if 0x30 <= b <= 0x39 {
        Some((b - 0x30 + 52) as u32)
    } else if b == 0x2b {
        Some(62)
    } else if b == 0x2f {
        Some(63)
    } else {
        None
    }
}

/// The 24-bit number of the first three bytes of `s` (missing ones are 0).
pub open spec fn b64_triple(s: Seq<u8>) -> u32 {
    let b0 = s[0] as u32;
    let b1 = if s.len() > 1 {
        s[1] as u32
    } else {
        0
    };
    let b2 = if s.len() > 2 {
        s[2] as u32
    } else {
        0
    };
    (b0 << 16u32) | (b1 << 8u32) | b2
}

/// The four characters that encode the first (up to) three bytes of `s`,
/// padded with `=` when fewer than three are left.
pub open spec fn b64_group(s: Seq<u8>) -> Seq<char> {
    let t = b64_triple(s);
    seq![
        b64_char((t >> 18u32) & 0x3f),
        b64_char((t >> 12u32) & 0x3f),
        if s.len() > 1 {
            b64_char((t >> 6u32) & 0x3f)
        } else {
            '='
        },
        if s.len() > 2 {
            b64_char(t & 0x3f)
        } else {
            '='
        },
    ]
}

/// The base64 text of `s`.
pub open spec fn b64_encode(s: Seq<u8>) -> Seq<char>
    decreases s.len(),
{
    if s.len() == 0 {
        Seq::empty()
    } else if s.len() <= 3 {
        b64_group(s)
    } else {
        b64_group(s) + b64_encode(s.skip(3))
    }
}

/// The bytes that decoding `input` gives, from a state holding the `bits`
/// low bits of `acc` not yet emitted: digits add six bits each and every
/// full byte is emitted; other characters are skipped, and `=` ends the
/// text.
pub open spec fn b64_decode_from(input: Seq<u8>, acc: u32, bits: u32) -> Seq<u8>
    decreases input.len(),
{
    if input.len() == 0 {
        Seq::empty()
    } else if input[0] == 0x3d {
        Seq::empty()
    } else {
        match b64_value(input[0]) {
            None => b64_decode_from(input.drop_first(), acc, bits),
            Some(v) => {
                let acc1 = (acc << 6u32) | v;
                let bits1 = (bits + 6) as u32;
                if bits1 >= 8 {
                    let bits2 = (bits1 - 8) as u32;
                    seq![(acc1 >> bits2) as u8] + b64_decode_from(
                        input.drop_first(),
                        acc1 & (((1u32 << bits2) - 1) as u32),
                        bits2,
                    )
                } else {
                    b64_decode_from(input.drop_first(), acc1, bits1)
                }
            },
        }
    }
}

/// The bytes that the base64 text `input` decodes to.
pub open spec fn b64_decode(input: Seq<u8>) -> Seq<u8> {
    b64_decode_from(input, 0, 0)
}

/// The base64 digit for `v < 64`.
fn digit_char(v: u32) -> (c: char)
    requires
        v < 64,
    ensures
        c == b64_char(v),
{
    if v < 26 {
        ((0x41u32 + v) as u8) as char
    } else if v < 52 {
        ((0x61u32 + v - 26) as u8) as char
    } else if v < 62 {
        ((0x30u32 + v - 52) as u8) as char
    } else if v == 62 {
        '+'
    } else {
        '/'
    }
}

/// The value of a base64 digit byte, if it is one.
fn digit_value(b: u8) -> (r: Option<u32>)
    ensures
        r == b64_value(b),
{
    if 0x41 <= b && b <= 0x5a {
        Some((b - 0x41) as u32)
    } else if 0x61 <= b && b <= 0x7a {
        Some((b - 0x61 + 26) as u32)
    } else if 0x30 <= b && b <= 0x39 {
        Some((b - 0x30 + 52) as u32)
    } else if b == 0x2b {
        Some(62)
    } else if b == 0x2f {
        Some(63)
    } else {
        None
    }
}

/// The base64 text of `input`, padded with `=`.
pub fn base64_encode(input: &[u8]) -> (out: String)
    ensures
        out@ == b64_encode(input@),
{
    let mut out = String::new();
    let mut i: usize = 0;
    assert(input@.skip(0) =~= input@);
    while i < input.len()
        invariant
            i <= input.len() || i % 3 == 0,
            i % 3 == 0,
            i < input.len() ==> out@ + b64_encode(input@.skip(i as int)) == b64_encode(input@),
            i >= input.len() ==> out@ == b64_encode(input@),
        decreases input.len() + 3 - i,
    {
        let ghost rest = input@.skip(i as int);
        let b0 = input[i] as u32;
        let b1 = if i + 1 < input.len() {
            input[i + 1] as u32
        } else {
            0
        };
        let b2 = if i + 2 < input.len() {
            input[i + 2] as u32
        } else {
            0
        };
        let triple = (b0 << 16u32) | (b1 << 8u32) | b2;
        assert(triple == b64_triple(rest));
        let ghost before = out@;
        assert((triple >> 18u32) & 0x3f < 64 && (triple >> 12u32) & 0x3f < 64 && (triple >> 6u32)
            & 0x3f < 64 && triple & 0x3f < 64) by (bit_vector);
        push_char(&mut out, digit_char((triple >> 18u32) & 0x3f));
        push_char(&mut out, digit_char((triple >> 12u32) & 0x3f));
        if i + 1 < input.len() {
            push_char(&mut out, digit_char((triple >> 6u32) & 0x3f));
        } else {
            push_char(&mut out, '=');
        }
        if i + 2 < input.len() {
            push_char(&mut out, digit_char(triple & 0x3f));
        } else {
            push_char(&mut out, '=');
        }
        assert(out@ =~= before + b64_group(rest));
        if i + 3 < input.len() {
            assert(rest.skip(3) =~= input@.skip(i + 3));
        }
        i = i + 3;
    }
    out
}

/// The bytes that the base64 text `input` decodes to: digits outside the
/// alphabet are skipped, and an `=` ends the text.
pub fn base64_decode(input: &str) -> (out: Vec<u8>)
    ensures
        out@ == b64_decode(encode_utf8(input@)),
{
    let bytes = input.as_bytes();
    let mut out: Vec<u8> = Vec::new();
    let mut acc: u32 = 0;
    let mut bits: u32 = 0;
    let mut i: usize = 0;
    assert(bytes@.skip(0) =~= bytes@);
    assert(0u32 < (1u32 << 0u32)) by (bit_vector);
    while i < bytes.len()
        invariant
            i <= bytes.len(),
            bytes@ == encode_utf8(input@),
            bits < 8,
            acc < (1u32 << bits),
            out@ + b64_decode_from(bytes@.skip(i as int), acc, bits) == b64_decode(bytes@),
        decreases bytes.len() - i,
    {
        let b = bytes[i];
        let ghost rest = bytes@.skip(i as int);
        assert(rest.drop_first() =~= bytes@.skip(i + 1));
        if b == 0x3d {
            assert(b64_decode_from(rest, acc, bits) == Seq::<u8>::empty());
            assert(out@ + Seq::<u8>::empty() =~= out@);
            return out;
        }
        match digit_value(b) {
            None => {},
            Some(v) => {
                assert(acc < 256) by (bit_vector)
                    requires
                        bits < 8,
                        acc < (1u32 << bits),
                ;
                let acc1 = (acc << 6u32) | v;
                let bits1 = bits + 6;
                if bits1 >= 8 {
                    let bits2 = bits1 - 8;
                    assert((1u32 << bits2) >= 1) by (bit_vector)
                        requires
                            bits2 < 8,
                    ;
                    let ghost before = out@;
                    out.push((acc1 >> bits2) as u8);
                    let mask = (1u32 << bits2) - 1;
                    assert((acc1 & mask) < (1u32 << bits2)) by (bit_vector)
                        requires
                            bits2 < 8,
                            mask == (1u32 << bits2) - 1,
                    ;
                    acc = acc1 & mask;
                    bits = bits2;
                    assert(out@ =~= before + seq![(acc1 >> bits2) as u8]);
                } else {
                    assert(acc1 < (1u32 << bits1)) by (bit_vector)
                        requires
                            acc < (1u32 << bits),
                            v < 64,
                            acc1 == (acc << 6u32) | v,
                            bits1 == bits + 6,
                            bits < 8,
                    ;
                    acc = acc1;
                    bits = bits1;
                }
            },
        }
        i = i + 1;
    }
    assert(bytes@.skip(i as int).len() == 0);
    assert(out@ + Seq::<u8>::empty() =~= out@);
    out
}

/// The ASCII byte of the base64 digit for `v < 64`.
pub open spec fn b64_byte(v: u32) -> u8 {
    if v < 26 {
        (0x41 + v) as u8
    } else if v < 52 {
        (0x61 + v - 26) as u8
    } else if v < 62 {
        (0x30 + v - 52) as u8
    } else if v == 62 {
        0x2b
    } else {
        0x2f
    }
}

/// A digit is one ASCII byte, reads back as its value, and is no `=`.
proof fn lemma_digit(v: u32)
    requires
        v < 64,
    ensures
        encode_utf8(seq![b64_char(v)]) == seq![b64_byte(v)],
        b64_value(b64_byte(v)) == Some(v),
        b64_byte(v) != 0x3d,
{
    let c = b64_char(v) as u32;
    assert(c == b64_byte(v) as u32);
    assert(c <= 0x7f);
    assert((c & 0x7f) as u8 == c as u8) by (bit_vector)
        requires
            c <= 0x7f,
    ;
    let sc = seq![b64_char(v)];
    assert(sc.drop_first() =~= Seq::<char>::empty());
    assert(encode_utf8(sc.drop_first()) == Seq::<u8>::empty());
    assert(sc[0] as u32 == c);
    assert(vstd::utf8::encode_scalar(c) == seq![vstd::utf8::leading_byte_width_1(c)]);
    assert(vstd::utf8::leading_byte_width_1(c) == b64_byte(v));
    assert(encode_utf8(sc) =~= seq![b64_byte(v)]);
}

/// UTF-8 encoding distributes over concatenation.
proof fn lemma_utf8_append(a: Seq<char>, b: Seq<char>)
    ensures
        encode_utf8(a + b) == encode_utf8(a) + encode_utf8(b),
    decreases a.len(),
{
    if a.len() == 0 {
        assert(a + b =~= b);
        assert(encode_utf8(a) =~= Seq::<u8>::empty());
        assert(Seq::<u8>::empty() + encode_utf8(b) =~= encode_utf8(b));
    } else {
        assert((a + b).drop_first() =~= a.drop_first() + b);
        assert((a + b)[0] == a[0]);
        lemma_utf8_append(a.drop_first(), b);
        assert(encode_utf8(a + b) =~= encode_utf8(a) + encode_utf8(b));
    }
}

/// The bytes of one group: the digit bytes, `=` for padding.
pub open spec fn b64_group_bytes(s: Seq<u8>) -> Seq<u8> {
    let t = b64_triple(s);
    seq![
        b64_byte((t >> 18u32) & 0x3f),
        b64_byte((t >> 12u32) & 0x3f),
        if s.len() > 1 {
            b64_byte((t >> 6u32) & 0x3f)
        } else {
            0x3d
        },
        if s.len() > 2 {
            b64_byte(t & 0x3f)
        } else {
            0x3d
        },
    ]
}

proof fn lemma_group_utf8(s: Seq<u8>)
    requires
        s.len() >= 1,
    ensures
        encode_utf8(b64_group(s)) == b64_group_bytes(s),
{
    let t = b64_triple(s);
    let v0 = (t >> 18u32) & 0x3f;
    let v1 = (t >> 12u32) & 0x3f;
    let v2 = (t >> 6u32) & 0x3f;
    let v3 = t & 0x3f;
    assert(v0 < 64 && v1 < 64 && v2 < 64 && v3 < 64) by (bit_vector)
        requires
            v0 == (t >> 18u32) & 0x3f,
            v1 == (t >> 12u32) & 0x3f,
            v2 == (t >> 6u32) & 0x3f,
            v3 == t & 0x3f,
    ;
    lemma_digit(v0);
    lemma_digit(v1);
    lemma_digit(v2);
    lemma_digit(v3);
    let g = b64_group(s);
    let c2 = g[2];
    let c3 = g[3];
    let eq = seq!['='];
    let e: u32 = '=' as u32;
    assert(e == 0x3d);
    assert((e & 0x7f) as u8 == 0x3d) by (bit_vector)
        requires
            e == 0x3d,
    ;
    assert(eq.drop_first() =~= Seq::<char>::empty());
    assert(encode_utf8(eq.drop_first()) == Seq::<u8>::empty());
    assert(vstd::utf8::encode_scalar(e) == seq![vstd::utf8::leading_byte_width_1(e)]);
    assert(encode_utf8(eq) =~= seq![0x3du8]);
    assert(g =~= seq![g[0]] + seq![g[1]] + seq![c2] + seq![c3]);
    lemma_utf8_append(seq![g[0]] + seq![g[1]] + seq![c2], seq![c3]);
    lemma_utf8_append(seq![g[0]] + seq![g[1]], seq![c2]);
    lemma_utf8_append(seq![g[0]], seq![g[1]]);
    assert(encode_utf8(g) =~= b64_group_bytes(s));
}

/// Decoding the bytes of a group from the start state gives back the bytes
/// it encodes, and, for a full group, returns to the start state.
proof fn lemma_group_decode(s: Seq<u8>, rest: Seq<u8>)
    requires
        s.len() >= 1,
    ensures
        s.len() >= 3 ==> b64_decode_from(b64_group_bytes(s) + rest, 0, 0) == s.take(3)
            + b64_decode_from(rest, 0, 0),
        s.len() == 2 ==> b64_decode_from(b64_group_bytes(s) + rest, 0, 0) == s,
        s.len() == 1 ==> b64_decode_from(b64_group_bytes(s) + rest, 0, 0) == s,
{
    let b0 = s[0] as u32;
    let b1 = if s.len() > 1 {
        s[1] as u32
    } else {
        0
    };
    let b2 = if s.len() > 2 {
        s[2] as u32
    } else {
        0
    };
    let t = b64_triple(s);
    assert(t == (b0 << 16u32) | (b1 << 8u32) | b2);
    let v0 = (t >> 18u32) & 0x3f;
    let v1 = (t >> 12u32) & 0x3f;
    let v2 = (t >> 6u32) & 0x3f;
    let v3 = t & 0x3f;
    assert(v0 < 64 && v1 < 64 && v2 < 64 && v3 < 64) by (bit_vector)
        requires
            v0 == (t >> 18u32) & 0x3f,
            v1 == (t >> 12u32) & 0x3f,
            v2 == (t >> 6u32) & 0x3f,
            v3 == t & 0x3f,
    ;
    lemma_digit(v0);
    lemma_digit(v1);
    lemma_digit(v2);
    lemma_digit(v3);
    // After the first two digits: one byte out, four bits kept.
    let a1 = (0u32 << 6u32) | v0;
    let a2 = (a1 << 6u32) | v1;
    let k2 = a2 & (((1u32 << 4u32) - 1) as u32);
    let a3 = (k2 << 6u32) | v2;
    let k3 = a3 & (((1u32 << 2u32) - 1) as u32);
    let a4 = (k3 << 6u32) | v3;
    let k4 = a4 & (((1u32 << 0u32) - 1) as u32);
    assert((a2 >> 4u32) as u8 == b0 as u8 && (a3 >> 2u32) as u8 == b1 as u8 && (a4 >> 0u32) as u8
        == b2 as u8 && k4 == 0) by (bit_vector)
        requires
            b0 < 256,
            b1 < 256,
            b2 < 256,
            t == (b0 << 16u32) | (b1 << 8u32) | b2,
            v0 == (t >> 18u32) & 0x3f,
            v1 == (t >> 12u32) & 0x3f,
            v2 == (t >> 6u32) & 0x3f,
            v3 == t & 0x3f,
            a1 == (0u32 << 6u32) | v0,
            a2 == (a1 << 6u32) | v1,
            k2 == a2 & (((1u32 << 4u32) - 1) as u32),
            a3 == (k2 << 6u32) | v2,
            k3 == a3 & (((1u32 << 2u32) - 1) as u32),
            a4 == (k3 << 6u32) | v3,
            k4 == a4 & (((1u32 << 0u32) - 1) as u32),
    ;
    let g = b64_group_bytes(s);
    let in0 = g + rest;
    let in1 = in0.drop_first();
    let in2 = in1.drop_first();
    let in3 = in2.drop_first();
    let in4 = in3.drop_first();
    assert(in0[0] == b64_byte(v0));
    assert(in1[0] == b64_byte(v1));
    assert(in2[0] == g[2]);
    assert(in3[0] == g[3]);
    assert(in4 =~= rest);
    assert(b64_decode_from(in0, 0, 0) == b64_decode_from(in1, a1, 6));
    assert(b64_decode_from(in1, a1, 6) == seq![b0 as u8] + b64_decode_from(in2, k2, 4));
    if s.len() == 1 {
        assert(b64_decode_from(in2, k2, 4) == Seq::<u8>::empty());
        assert(seq![b0 as u8] + Seq::<u8>::empty() =~= s);
    } else {
        assert(b64_decode_from(in2, k2, 4) == seq![b1 as u8] + b64_decode_from(in3, k3, 2));
        if s.len() == 2 {
            assert(b64_decode_from(in3, k3, 2) == Seq::<u8>::empty());
            assert(seq![b0 as u8] + (seq![b1 as u8] + Seq::<u8>::empty()) =~= s);
        } else {
            assert(b64_decode_from(in3, k3, 2) == seq![b2 as u8] + b64_decode_from(in4, k4, 0));
            assert(seq![b0 as u8] + (seq![b1 as u8] + (seq![b2 as u8] + b64_decode_from(
                rest,
                0,
                0,
            ))) =~= s.take(3) + b64_decode_from(rest, 0, 0));
        }
    }
}

/// Law: decoding the base64 text of any bytes gives those bytes back.
pub proof fn law_base64_roundtrip(x: Seq<u8>)
    ensures
        b64_decode(encode_utf8(b64_encode(x))) == x,
    decreases x.len(),
{
    if x.len() == 0 {
        assert(encode_utf8(b64_encode(x)) =~= Seq::<u8>::empty());
    } else if x.len() <= 3 {
        lemma_group_utf8(x);
        lemma_group_decode(x, Seq::empty());
        assert(b64_group_bytes(x) + Seq::<u8>::empty() =~= b64_group_bytes(x));
        if x.len() == 3 {
            assert(x.take(3) =~= x);
            assert(b64_decode_from(Seq::<u8>::empty(), 0, 0) == Seq::<u8>::empty());
            assert(x.take(3) + Seq::<u8>::empty() =~= x);
        }
    } else {
        let rest = x.skip(3);
        law_base64_roundtrip(rest);
        lemma_group_utf8(x);
        lemma_utf8_append(b64_group(x), b64_encode(rest));
        lemma_group_decode(x, encode_utf8(b64_encode(rest)));
        assert(x.take(3) + rest =~= x);
    }
}

} // verus!
