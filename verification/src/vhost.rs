//! Virtual-host routing: reading the host name out of the first bytes of an
//! HTTP request or a TLS ClientHello, and normalising it.
use vstd::prelude::*;
use crate::text::{
    decode_utf8_bytes, lowercase, trim, trim_end_char, rsplit_once, first_index, split_once, ascii_lower,
    eq_ascii_nocase, utf8_text, trim_str, trim_end_char_str, to_lowercase, chars_of, string_of,
    rsplit_once_str, contains_char, split_once_str, eq_ignore_ascii_case, lemma_first_index,
    lemma_first_index_found, is_blank, cat2, cat3, decimal_string, decimal, str_eq,
};
use crate::routes::{
    RouteTable, VhostRoute, RouteView, domain_texts, strictly_sorted, insert_sorted, added_entry,
    without_key, route_view, next_counter,
};
use crate::protocol::NewProxyMsg;
use crate::error::Error;

verus! {

/// The big-endian 16-bit number at `r[p..p + 2]`.
pub open spec fn be16_at(r: Seq<u8>, p: int) -> int {
    r[p] as int * 256 + r[p + 1] as int
}

/// The big-endian 24-bit number at `r[p..p + 3]`.
pub open spec fn be24_at(r: Seq<u8>, p: int) -> int {
    r[p] as int * 65536 + r[p + 1] as int * 256 + r[p + 2] as int
}

/// The first host name (name type 0) in the server-name list `r[pos..end]`.
pub open spec fn sni_in_names(r: Seq<u8>, pos: int, end: int) -> Option<Seq<u8>>
    decreases end - pos,
{
    if pos + 3 > end {
        None
    } else {
        let name_type = r[pos];
        let name_len = be16_at(r, pos + 1);
        let p = pos + 3;
        if p + name_len > end {
            None
        } else if name_type == 0 {
            Some(r.subrange(p, p + name_len))
        } else {
            sni_in_names(r, p + name_len, end)
        }
    }
}

/// The host name that the first server-name extension in the extension
/// block `r[pos..end]` carries.
pub open spec fn sni_in_extensions(r: Seq<u8>, pos: int, end: int) -> Option<Seq<u8>>
    decreases end - pos,
{
    if pos + 4 > end {
        None
    } else {
        let ext_type = be16_at(r, pos);
        let ext_len = be16_at(r, pos + 2);
        let p = pos + 4;
        if p + ext_len > end {
            None
        } else if ext_type == 0 {
            if ext_len < 2 {
                None
            } else {
                sni_in_names(r, p + 2, p + ext_len)
            }
        } else {
            sni_in_extensions(r, p + ext_len, end)
        }
    }
}

/// The server-name bytes of a TLS record holding a ClientHello: the record
/// and handshake headers are checked, the fixed fields, session id, cipher
/// suites and compression methods are skipped, and the extensions searched.
pub open spec fn sni_bytes(r: Seq<u8>) -> Option<Seq<u8>> {
    let len = r.len() as int;
    if len < 5 || r[0] != 0x16 {
        None
    } else if be16_at(r, 3) + 5 > len {
        None
    } else if 9 > len || r[5] != 1 {
        None
    } else if 9 + be24_at(r, 6) > len {
        None
    } else if 43 >= len {
        None
    } else {
        let p2 = 44 + r[43] as int;
        if p2 + 2 > len {
            None
        } else {
            let p3 = p2 + 2 + be16_at(r, p2);
            if p3 >= len {
                None
            } else {
                let p4 = p3 + 1 + r[p3] as int;
                if p4 + 2 > len {
                    None
                } else {
                    let start = p4 + 2;
                    let end = start + be16_at(r, p4);
                    if end > len {
                        None
                    } else {
                        sni_in_extensions(r, start, end)
                    }
                }
            }
        }
    }
}

/// The server name of a ClientHello record, when it has one that is valid
/// UTF-8.
pub open spec fn sni_name(r: Seq<u8>) -> Option<Seq<char>> {
    match sni_bytes(r) {
        Some(b) => decode_utf8_bytes(b),
        None => None,
    }
}

/// The two bytes of the big-endian 16-bit number `n`.
pub open spec fn be16_bytes(n: nat) -> Seq<u8> {
    seq![(n / 256) as u8, (n % 256) as u8]
}

/// A TLS extension as sent: its type and the length of its body, each in
/// two bytes, then the body.
pub open spec fn extension(ext_type: nat, body: Seq<u8>) -> Seq<u8> {
    be16_bytes(ext_type) + be16_bytes(body.len()) + body
}

/// The extensions `exts` (type and body each), one after the other.
pub open spec fn extensions(exts: Seq<(nat, Seq<u8>)>) -> Seq<u8>
    decreases exts.len(),
{
    if exts.len() == 0 {
        Seq::empty()
    } else {
        extension(exts[0].0, exts[0].1) + extensions(exts.drop_first())
    }
}

/// An entry of a server-name list: its name type, the name's length in two
/// bytes, and the name.
pub open spec fn name_entry(name_type: u8, name: Seq<u8>) -> Seq<u8> {
    seq![name_type] + be16_bytes(name.len()) + name
}

/// The entries `entries` (name type and name each), one after the other.
pub open spec fn name_entries(entries: Seq<(u8, Seq<u8>)>) -> Seq<u8>
    decreases entries.len(),
{
    if entries.len() == 0 {
        Seq::empty()
    } else {
        name_entry(entries[0].0, entries[0].1) + name_entries(entries.drop_first())
    }
}

/// A server_name extension (type 0) whose list holds the entries `others`
/// and then the host name (name type 0) `h`.
pub open spec fn server_name_extension(others: Seq<(u8, Seq<u8>)>, h: Seq<u8>) -> Seq<u8> {
    let list = name_entries(others) + name_entry(0, h);
    extension(0, be16_bytes(list.len()) + list)
}

/// Two bytes written by `be16_bytes` read back as the number.
proof fn lemma_be16_bytes(r: Seq<u8>, p: int, n: nat)
    requires
        n < 65536,
        0 <= p,
        p + 2 <= r.len(),
        r[p] == be16_bytes(n)[0],
        r[p + 1] == be16_bytes(n)[1],
    ensures
        be16_at(r, p) == n,
{
    assert(n / 256 < 256 && n % 256 < 256 && (n / 256) * 256 + n % 256 == n) by (nonlinear_arith)
        requires
            n < 65536,
    ;
}

/// Law: the host name of a server-name list (here `r[pos..end]`) is its
/// first entry of name type 0, whatever entries of other types come before
/// it and whatever bytes follow.
pub proof fn law_sni_first_host_name(
    others: Seq<(u8, Seq<u8>)>,
    h: Seq<u8>,
    rest: Seq<u8>,
    r: Seq<u8>,
    pos: int,
    end: int,
)
    requires
        forall|i: int|
            0 <= i < others.len() ==> (#[trigger] others[i]).0 != 0 && others[i].1.len() < 65536,
        h.len() < 65536,
        0 <= pos <= end <= r.len(),
        r.subrange(pos, end) == name_entries(others) + name_entry(0, h) + rest,
    ensures
        sni_in_names(r, pos, end) == Some(h),
    decreases others.len(),
{
    let block = name_entries(others) + name_entry(0, h) + rest;
    assert(block.len() == end - pos);
    assert forall|k: int| 0 <= k < end - pos implies r[pos + k] == #[trigger] block[k] by {
        assert(r.subrange(pos, end)[k] == r[pos + k]);
    }
    if others.len() == 0 {
        let e = name_entry(0, h);
        assert(name_entries(others) =~= Seq::<u8>::empty());
        assert(block =~= e + rest);
        assert(block[0] == e[0] && block[1] == e[1] && block[2] == e[2]);
        lemma_be16_bytes(r, pos + 1, h.len());
        assert(r.subrange(pos + 3, pos + 3 + h.len()) =~= h) by {
            assert forall|k: int| 0 <= k < h.len() implies r.subrange(pos + 3, pos + 3 + h.len())[k]
                == h[k] by {
                assert(block[3 + k] == e[3 + k]);
            }
        }
    } else {
        let t = others[0].0;
        let n = others[0].1;
        let e = name_entry(t, n);
        let after = name_entries(others.drop_first()) + name_entry(0, h) + rest;
        assert(block =~= e + after);
        assert(block[0] == e[0] && block[1] == e[1] && block[2] == e[2]);
        lemma_be16_bytes(r, pos + 1, n.len());
        let next = pos + 3 + n.len();
        assert(r.subrange(next, end) =~= after) by {
            assert forall|k: int| 0 <= k < end - next implies r.subrange(next, end)[k] == after[k] by {
                assert(block[3 + n.len() + k] == after[k]);
            }
        }
        assert forall|i: int| 0 <= i < others.drop_first().len() implies (
        #[trigger] others.drop_first()[i]).0 != 0 && others.drop_first()[i].1.len() < 65536 by {
            assert(others.drop_first()[i] == others[i + 1]);
        }
        law_sni_first_host_name(others.drop_first(), h, rest, r, next, end);
    }
}

/// Law: the server name does not depend on the order of the extensions:
/// in an extension block (here `r[pos..end]`) made of well-formed
/// extensions of other types followed by a server_name extension whose
/// first host name (after entries of other name types) is `h`, and any
/// bytes after it, the server name found is `h`.
pub proof fn law_sni_after_other_extensions(
    exts: Seq<(nat, Seq<u8>)>,
    names: Seq<(u8, Seq<u8>)>,
    h: Seq<u8>,
    rest: Seq<u8>,
    r: Seq<u8>,
    pos: int,
    end: int,
)
    requires
        forall|i: int|
            0 <= i < exts.len() ==> 0 < (#[trigger] exts[i]).0 < 65536 && exts[i].1.len() < 65536,
        forall|i: int|
            0 <= i < names.len() ==> (#[trigger] names[i]).0 != 0 && names[i].1.len() < 65536,
        name_entries(names).len() + h.len() + 5 < 65536,
        0 <= pos <= end <= r.len(),
        r.subrange(pos, end) == extensions(exts) + server_name_extension(names, h) + rest,
    ensures
        sni_in_extensions(r, pos, end) == Some(h),
    decreases exts.len(),
{
    let block = extensions(exts) + server_name_extension(names, h) + rest;
    assert(block.len() == end - pos);
    assert forall|k: int| 0 <= k < end - pos implies r[pos + k] == #[trigger] block[k] by {
        assert(r.subrange(pos, end)[k] == r[pos + k]);
    }
    if exts.len() == 0 {
        let list = name_entries(names) + name_entry(0, h);
        let body = be16_bytes(list.len()) + list;
        let e = server_name_extension(names, h);
        assert(extensions(exts) =~= Seq::<u8>::empty());
        assert(block =~= e + rest);
        assert(e =~= be16_bytes(0) + be16_bytes(body.len()) + body);
        assert(block[0] == e[0] && block[1] == e[1] && block[2] == e[2] && block[3] == e[3]);
        lemma_be16_bytes(r, pos, 0);
        lemma_be16_bytes(r, pos + 2, body.len());
        let p = pos + 4;
        let lend = p + body.len();
        assert(r.subrange(p + 2, lend) =~= list + Seq::<u8>::empty()) by {
            assert forall|k: int| 0 <= k < lend - (p + 2) implies r.subrange(p + 2, lend)[k] == list[k] by {
                assert(block[6 + k] == e[6 + k]);
                assert(e[6 + k] == body[2 + k]);
            }
        }
        law_sni_first_host_name(names, h, Seq::<u8>::empty(), r, p + 2, lend);
    } else {
        let t = exts[0].0;
        let b = exts[0].1;
        let e = extension(t, b);
        let after = extensions(exts.drop_first()) + server_name_extension(names, h) + rest;
        assert(block =~= e + after);
        assert(block[0] == e[0] && block[1] == e[1] && block[2] == e[2] && block[3] == e[3]);
        lemma_be16_bytes(r, pos, t);
        lemma_be16_bytes(r, pos + 2, b.len());
        let next = pos + 4 + b.len();
        assert(r.subrange(next, end) =~= after) by {
            assert forall|k: int| 0 <= k < end - next implies r.subrange(next, end)[k] == after[k] by {
                assert(block[4 + b.len() + k] == after[k]);
            }
        }
        assert forall|i: int| 0 <= i < exts.drop_first().len() implies 0 < (
        #[trigger] exts.drop_first()[i]).0 < 65536 && exts.drop_first()[i].1.len() < 65536 by {
            assert(exts.drop_first()[i] == exts[i + 1]);
        }
        law_sni_after_other_extensions(exts.drop_first(), names, h, rest, r, next, end);
    }
}

/// The 16-bit big-endian number at `r[p..p + 2]`.
fn read_be16(r: &[u8], p: usize) -> (v: usize)
    requires
        p + 2 <= r@.len(),
    ensures
        v == be16_at(r@, p as int),
        v < 65536,
{
    (r[p] as usize) * 256 + (r[p + 1] as usize)
}

/// The host name of the first name of type 0 in `r[pos..end]`.
fn scan_server_names(r: &[u8], pos: usize, end: usize) -> (out: Option<(usize, usize)>)
    requires
        pos <= end <= r@.len(),
    ensures
        match sni_in_names(r@, pos as int, end as int) {
            Some(b) => out matches Some((s, e)) && s <= e <= r@.len() && r@.subrange(
                s as int,
                e as int,
            ) == b,
            None => out is None,
        },
    decreases end - pos,
{
    if end - pos < 3 {
        return None;
    }
    let name_type = r[pos];
    let name_len = read_be16(r, pos + 1);
    let p = pos + 3;
    if name_len > end - p {
        return None;
    }
    if name_type == 0 {
        return Some((p, p + name_len));
    }
    scan_server_names(r, p + name_len, end)
}

/// The server-name extension's first host name in the block `r[pos..end]`.
fn scan_extensions(r: &[u8], pos: usize, end: usize) -> (out: Option<(usize, usize)>)
    requires
        pos <= end <= r@.len(),
    ensures
        match sni_in_extensions(r@, pos as int, end as int) {
            Some(b) => out matches Some((s, e)) && s <= e <= r@.len() && r@.subrange(
                s as int,
                e as int,
            ) == b,
            None => out is None,
        },
    decreases end - pos,
{
    if end - pos < 4 {
        return None;
    }
    let ext_type = read_be16(r, pos);
    let ext_len = read_be16(r, pos + 2);
    let p = pos + 4;
    if ext_len > end - p {
        return None;
    }
    if ext_type == 0 {
        if ext_len < 2 {
            return None;
        }
        return scan_server_names(r, p + 2, p + ext_len);
    }
    scan_extensions(r, p + ext_len, end)
}

/// The server name (SNI) that a TLS ClientHello record carries, when the
/// record is well formed up to it and the name is valid UTF-8.
pub fn parse_tls_sni(record: &[u8]) -> (out: Option<String>)
    ensures
        match sni_name(record@) {
            Some(n) => out matches Some(s) && s@ == n,
            None => out is None,
        },
{
    let len = record.len();
    if len < 5 || record[0] != 0x16 {
        return None;
    }
    let rec_len = read_be16(record, 3);
    if rec_len > len - 5 {
        return None;
    }
    if len < 9 || record[5] != 0x01 {
        return None;
    }
    let hs_len = (record[6] as usize) * 65536 + (record[7] as usize) * 256 + (record[8] as usize);
    if hs_len > len - 9 {
        return None;
    }
    if len <= 43 {
        return None;
    }
    let session_id_len = record[43] as usize;
    if len < 46 + session_id_len {
        return None;
    }
    let p2 = 44 + session_id_len;
    let cipher_len = read_be16(record, p2);
    if cipher_len >= len - (p2 + 2) {
        return None;
    }
    let p3 = p2 + 2 + cipher_len;
    let compression_len = record[p3] as usize;
    if compression_len + 3 > len - p3 {
        return None;
    }
    let p4 = p3 + 1 + compression_len;
    let extensions_len = read_be16(record, p4);
    let start = p4 + 2;
    if extensions_len > len - start {
        return None;
    }
    let end = start + extensions_len;
    match scan_extensions(record, start, end) {
        Some((s, e)) => {
            let name = slice_range(record, s, e);
            utf8_text(name)
        },
        None => None,
    }
}

/// The bytes `r[s..e]`.
fn slice_range(r: &[u8], s: usize, e: usize) -> (out: &[u8])
    requires
        s <= e <= r@.len(),
    ensures
        out@ == r@.subrange(s as int, e as int),
{
    vstd::slice::slice_subrange(r, s, e)
}

/// The routing form of a host name: trimmed, without trailing dots, lower
/// case; an IPv6 literal loses its brackets, and a `name:port` loses the
/// port when the name itself holds no colon.
pub open spec fn route_host(h: Seq<char>) -> Seq<char> {
    let t = lowercase(trim_end_char(trim(h), '.'));
    if t.len() > 0 && t[0] == '[' {
        trim_end_char(t.drop_first(), ']')
    } else {
        match rsplit_once(t, ':') {
            Some((name, _)) => if name.contains(':') {
                t
            } else {
                name
            },
            None => t,
        }
    }
}

/// Normalises a host name for route lookup (see `route_host`).
pub fn normalize_host(host: &str) -> (out: String)
    ensures
        out@ == route_host(host@),
{
    let t0 = trim_str(host);
    let t1 = trim_end_char_str(t0.as_str(), '.');
    let t = to_lowercase(t1.as_str());
    let v = chars_of(t.as_str());
    if v.len() > 0 && v[0] == '[' {
        let rest = string_of(&v, 1, v.len());
        assert(rest@ =~= t@.drop_first());
        return trim_end_char_str(rest.as_str(), ']');
    }
    match rsplit_once_str(t.as_str(), ':') {
        Some((name, _port)) => {
            if !contains_char(name.as_str(), ':') {
                return name;
            }
        },
        None => {},
    }
    t
}

/// The characters `host`, in the case that a header name is compared in.
pub open spec fn host_word() -> Seq<char> {
    seq!['h', 'o', 's', 't']
}

/// The value of a `Host` header line: what follows the first `:` of a line
/// whose name is `host` in any ASCII case, trimmed.
pub open spec fn host_header_value(line: Seq<char>) -> Option<Seq<char>> {
    match split_once(line, ':') {
        Some((name, value)) => if eq_ascii_nocase(name, host_word()) {
            Some(trim(value))
        } else {
            None
        },
        None => None,
    }
}

/// A line ended by a newline loses one carriage return before it, as
/// `str::lines` yields it.
pub open spec fn strip_cr(l: Seq<char>) -> Seq<char> {
    if l.len() > 0 && l.last() == '\r' {
        l.drop_last()
    } else {
        l
    }
}

/// The value of the first `Host` header among the lines of `s`.
pub open spec fn host_in_lines(s: Seq<char>) -> Option<Seq<char>>
    decreases s.len(),
{
    if s.len() == 0 {
        None
    } else {
        proof {
            lemma_first_index_found(s, '\n');
        }
        match first_index(s, '\n') {
            Some(i) => match host_header_value(strip_cr(s.take(i))) {
                Some(v) => Some(v),
                None => host_in_lines(s.skip(i + 1)),
            },
            None => host_header_value(s),
        }
    }
}

/// The position of the first `c` in `v[from..]`, if any.
fn find_from(v: &Vec<char>, c: char, from: usize) -> (r: Option<usize>)
    requires
        from <= v.len(),
    ensures
        r is None <==> first_index(v@.skip(from as int), c) is None,
        r matches Some(i) ==> from <= i < v.len() && first_index(v@.skip(from as int), c) == Some(
            i - from,
        ),
{
    let ghost s = v@.skip(from as int);
    let mut i: usize = from;
    while i < v.len()
        invariant
            from <= i <= v.len(),
            s == v@.skip(from as int),
            forall|k: int| 0 <= k < i - from ==> s[k] != c,
        decreases v.len() - i,
    {
        if v[i] == c {
            proof {
                assert(s[i - from] == c);
                lemma_first_index(s, c, i - from);
            }
            return Some(i);
        }
        i = i + 1;
    }
    proof {
        lemma_first_index(s, c, i - from);
    }
    None
}

/// The trimmed value of `line` when it is a `Host` header.
fn header_host(line: &str) -> (r: Option<String>)
    ensures
        match host_header_value(line@) {
            Some(v) => r matches Some(x) && x@ == v,
            None => r is None,
        },
{
    match split_once_str(line, ':') {
        Some((name, value)) => {
            let is_host = eq_ignore_ascii_case(name.as_str(), "host");
            proof {
                reveal_strlit("host");
                assert("host"@ =~= host_word());
            }
            if is_host {
                Some(trim_str(value.as_str()))
            } else {
                None
            }
        },
        None => None,
    }
}

/// The value of the first `Host` header in the request head `data`, if the
/// head is valid UTF-8 and has one.
pub fn extract_http_host(data: &[u8]) -> (out: Option<String>)
    ensures
        match decode_utf8_bytes(data@) {
            Some(t) => match host_in_lines(t) {
                Some(h) => out matches Some(x) && x@ == h,
                None => out is None,
            },
            None => out is None,
        },
{
    let text = match utf8_text(data) {
        Some(t) => t,
        None => return None,
    };
    let v = chars_of(text.as_str());
    let mut start: usize = 0;
    assert(v@.skip(0) =~= v@);
    while start < v.len()
        invariant
            start <= v.len(),
            v@ == text@,
            decode_utf8_bytes(data@) == Some(text@),
            host_in_lines(v@) == host_in_lines(v@.skip(start as int)),
        decreases v.len() - start,
    {
        let ghost s = v@.skip(start as int);
        proof {
            lemma_first_index_found(s, '\n');
        }
        match find_from(&v, '\n', start) {
            Some(i) => {
                let line = if i > start && v[i - 1] == '\r' {
                    string_of(&v, start, i - 1)
                } else {
                    string_of(&v, start, i)
                };
                assert(s.take(i - start) =~= v@.subrange(start as int, i as int));
                if i > start && v[i - 1] == '\r' {
                    assert(line@ =~= strip_cr(s.take(i - start)));
                } else {
                    assert(line@ =~= strip_cr(s.take(i - start)));
                }
                let found = header_host(line.as_str());
                assert(s.len() > 0);
                assert(first_index(s, '\n') == Some(i - start));
                assert(host_in_lines(s) == match host_header_value(strip_cr(s.take(i - start))) {
                    Some(x) => Some(x),
                    None => host_in_lines(s.skip(i - start + 1)),
                });
                if found.is_some() {
                    return found;
                }
                assert(s.skip(i - start + 1) =~= v@.skip(i + 1));
                start = i + 1;
            },
            None => {
                let line = string_of(&v, start, v.len());
                assert(line@ =~= s);
                assert(s.len() > 0);
                assert(host_in_lines(s) == host_header_value(s));
                return header_host(line.as_str());
            },
        }
    }
    assert(v@.skip(start as int).len() == 0);
    None
}


/// The lines `lines`, each ended by CR LF.
pub open spec fn crlf_lines(lines: Seq<Seq<char>>) -> Seq<char>
    decreases lines.len(),
{
    if lines.len() == 0 {
        Seq::empty()
    } else {
        lines[0] + seq!['\r', '\n'] + crlf_lines(lines.drop_first())
    }
}

/// A line with no line break and no carriage return in it.
pub open spec fn single_line(l: Seq<char>) -> bool {
    forall|k: int| 0 <= k < l.len() ==> #[trigger] l[k] != '\n' && l[k] != '\r'
}

/// A line that is not a `Host` header: it has no colon, or the text before
/// its first colon is not `host` in any ASCII case.
pub open spec fn not_host_line(l: Seq<char>) -> bool {
    forall|k: int|
        0 <= k < l.len() && #[trigger] l[k] == ':' && (forall|m: int| 0 <= m < k ==> l[m] != ':')
            ==> !eq_ascii_nocase(l.take(k), host_word())
}

/// One line of `s`: the text before the first line break of `s`, and what
/// follows the break.
proof fn lemma_crlf_line(l: Seq<char>, t: Seq<char>)
    requires
        single_line(l),
    ensures
        ({
            let s = l + seq!['\r', '\n'] + t;
            &&& first_index(s, '\n') == Some(l.len() as int + 1)
            &&& strip_cr(s.take(l.len() as int + 1)) == l
            &&& s.skip(l.len() as int + 2) == t
        }),
{
    let s = l + seq!['\r', '\n'] + t;
    assert forall|k: int| 0 <= k < l.len() as int + 1 implies s[k] != '\n' by {
        if k < l.len() {
            assert(s[k] == l[k]);
        }
    }
    lemma_first_index(s, '\n', l.len() as int + 1);
    assert(s.take(l.len() as int + 1).drop_last() =~= l);
    assert(s.skip(l.len() as int + 2) =~= t);
}

/// A line that is not a `Host` header gives no host.
proof fn lemma_not_host_line(l: Seq<char>)
    requires
        not_host_line(l),
    ensures
        host_header_value(l) is None,
{
    lemma_first_index_found(l, ':');
    if let Some(k) = first_index(l, ':') {
        assert(l[k] == ':');
    }
}

/// Law: the host of a request head is the trimmed value of its first `Host`
/// header line, whatever other lines (the request line, headers of other
/// names, lines without a colon) come before it, and whatever follows.
pub proof fn law_host_after_other_lines(
    others: Seq<Seq<char>>,
    name: Seq<char>,
    value: Seq<char>,
    rest: Seq<char>,
)
    requires
        forall|i: int| 0 <= i < others.len() ==> single_line(#[trigger] others[i]) && not_host_line(
            others[i],
        ),
        eq_ascii_nocase(name, host_word()),
        single_line(name),
        single_line(value),
    ensures
        host_in_lines(crlf_lines(others) + name + seq![':'] + value + seq!['\r', '\n'] + rest)
            == Some(trim(value)),
    decreases others.len(),
{
    let s = crlf_lines(others) + name + seq![':'] + value + seq!['\r', '\n'] + rest;
    if others.len() == 0 {
        let l = name + seq![':'] + value;
        assert(crlf_lines(others) =~= Seq::<char>::empty());
        assert(s =~= l + seq!['\r', '\n'] + rest);
        assert(single_line(l)) by {
            assert forall|k: int| 0 <= k < l.len() implies #[trigger] l[k] != '\n' && l[k] != '\r' by {
                if k < name.len() {
                    assert(l[k] == name[k]);
                } else if k > name.len() {
                    assert(l[k] == value[k - name.len() - 1]);
                }
            }
        }
        lemma_crlf_line(l, rest);
        assert forall|k: int| 0 <= k < name.len() implies l[k] != ':' by {
            assert(l[k] == name[k]);
            assert(eq_ascii_nocase(name, host_word()));
            assert(ascii_lower(name[k]) == ascii_lower(host_word()[k]));
        }
        lemma_first_index(l, ':', name.len() as int);
        assert(l.take(name.len() as int) =~= name);
        assert(l.skip(name.len() as int + 1) =~= value);
        assert(host_header_value(l) == Some(trim(value)));
        assert(s.len() > 0);
    } else {
        let l = others[0];
        let t = crlf_lines(others.drop_first()) + name + seq![':'] + value + seq!['\r', '\n'] + rest;
        assert(s =~= l + seq!['\r', '\n'] + t);
        lemma_crlf_line(l, t);
        lemma_not_host_line(l);
        assert forall|i: int| 0 <= i < others.drop_first().len() implies single_line(
            #[trigger] others.drop_first()[i],
        ) && not_host_line(others.drop_first()[i]) by {
            assert(others.drop_first()[i] == others[i + 1]);
        }
        law_host_after_other_lines(others.drop_first(), name, value, rest);
        assert(s.len() > 0);
    }
}

/// The two kinds of virtual host, each with its own route table.
#[derive(Clone, Copy, PartialEq, Eq, Structural, Debug)]
pub enum VhostKind {
    Http,
    Https,
}

/// `t` is one of the domains that a registration with these custom domains
/// and subdomain asks for: a custom domain in routing form, if not empty,
/// or the lower-cased subdomain under the server's subdomain host.
pub open spec fn is_candidate_domain(
    custom: Seq<String>,
    subdomain: Seq<char>,
    host: Seq<char>,
    t: Seq<char>,
) -> bool {
    ||| exists|i: int| 0 <= i < custom.len() && route_host(custom[i]@) == t && t.len() > 0
    ||| trim(subdomain).len() > 0 && t == lowercase(trim(subdomain)) + seq!['.'] + host
}

/// The registration names no domain at all.
pub open spec fn no_domains(custom: Seq<String>, subdomain: Seq<char>) -> bool {
    &&& forall|i: int| 0 <= i < custom.len() ==> route_host(#[trigger] custom[i]@).len() == 0
    &&& trim(subdomain).len() == 0
}

/// The routes after registering `(k, name)` under each domain of `ds`.
pub open spec fn with_routes(
    m: Map<Seq<char>, (Seq<RouteView>, usize)>,
    ds: Set<Seq<char>>,
    k: Seq<char>,
    name: Seq<char>,
) -> Map<Seq<char>, (Seq<RouteView>, usize)> {
    Map::new(
        |d: Seq<char>| m.dom().contains(d) || ds.contains(d),
        |d: Seq<char>|
            if ds.contains(d) {
                added_entry(m, d, k, name)
            } else {
                m[d]
            },
    )
}

/// The routes after the registration `k` is removed everywhere: domains
/// left without routes are dropped.
pub open spec fn without_registration(m: Map<Seq<char>, (Seq<RouteView>, usize)>, k: Seq<char>) -> Map<
    Seq<char>,
    (Seq<RouteView>, usize),
> {
    Map::new(
        |d: Seq<char>| m.dom().contains(d) && without_key(m[d].0, k).len() > 0,
        |d: Seq<char>| (without_key(m[d].0, k), m[d].1),
    )
}

/// The domains a registration asks for.
pub open spec fn candidate_domains(custom: Seq<String>, subdomain: Seq<char>, host: Seq<char>) -> Set<
    Seq<char>,
> {
    Set::new(|t: Seq<char>| is_candidate_domain(custom, subdomain, host, t))
}

/// `d` is the first of the domains a registration asks for.
pub open spec fn first_candidate(custom: Seq<String>, subdomain: Seq<char>, host: Seq<char>, d: Seq<char>) -> bool {
    &&& is_candidate_domain(custom, subdomain, host, d)
    &&& forall|t: Seq<char>|
        is_candidate_domain(custom, subdomain, host, t) && t != d ==> crate::text::seq_lt(d, t)
}

/// The key of a registration: its client's run id and its proxy name.
pub open spec fn route_key_of(run_id: Seq<char>, proxy_name: Seq<char>) -> Seq<char> {
    run_id + ":"@ + proxy_name
}

/// Why a registration of `kind` is refused when its port is 0.
pub open spec fn disabled_message(kind: VhostKind) -> Seq<char> {
    match kind {
        VhostKind::Http => "vhost_http_port is 0, HTTP vhost proxy is disabled"@,
        VhostKind::Https => "vhost_https_port is 0, HTTPS vhost proxy is disabled"@,
    }
}

/// Why a request for `domain` finds no route.
pub open spec fn no_route_message(kind: VhostKind, domain: Seq<char>) -> Seq<char> {
    match kind {
        VhostKind::Http => "no http route for host "@ + domain,
        VhostKind::Https => "no https route for sni "@ + domain,
    }
}

/// The virtual-host kind that a proxy type names, if any.
pub open spec fn vhost_kind_of(proxy_type: Seq<char>) -> Option<VhostKind> {
    if proxy_type == "http"@ {
        Some(VhostKind::Http)
    } else if proxy_type == "https"@ {
        Some(VhostKind::Https)
    } else {
        None
    }
}

/// Why a registration's domains cannot be routed, if they cannot.
pub open spec fn domains_refusal(custom: Seq<String>, subdomain: Seq<char>, host: Seq<char>) -> Option<
    Seq<char>,
> {
    if trim(subdomain).len() > 0 && host.len() == 0 {
        Some("subdomain is set but server subdomain_host is empty"@)
    } else if no_domains(custom, subdomain) {
        Some("http/https proxy requires custom_domains or subdomain"@)
    } else {
        None
    }
}

/// The address a registration is reachable at: scheme, first domain, port.
pub open spec fn vhost_url(kind: VhostKind, domain: Seq<char>, port: u16) -> Seq<char> {
    let scheme = match kind {
        VhostKind::Http => "http://"@,
        VhostKind::Https => "https://"@,
    };
    scheme + domain + ":"@ + decimal(port as nat)
}

/// The HTTP and HTTPS virtual hosts of the server: which domains route to
/// which registrations.
pub struct VhostManager {
    bind_addr: String,
    subdomain_host: String,
    vhost_http_port: u16,
    vhost_https_port: u16,
    http_routes: RouteTable,
    https_routes: RouteTable,
}

impl VhostManager {
    pub closed spec fn subdomain_host(&self) -> Seq<char> {
        self.subdomain_host@
    }

    pub closed spec fn bind_addr_text(&self) -> Seq<char> {
        self.bind_addr@
    }

    /// The port of the virtual hosts of `kind` (0: disabled).
    pub closed spec fn port(&self, kind: VhostKind) -> u16 {
        match kind {
            VhostKind::Http => self.vhost_http_port,
            VhostKind::Https => self.vhost_https_port,
        }
    }

    /// The routes of `kind`: for each domain, its routes and counter.
    pub closed spec fn routes(&self, kind: VhostKind) -> Map<Seq<char>, (Seq<RouteView>, usize)> {
        match kind {
            VhostKind::Http => self.http_routes.view(),
            VhostKind::Https => self.https_routes.view(),
        }
    }

    pub closed spec fn wf(&self) -> bool {
        self.http_routes.wf() && self.https_routes.wf()
    }

    /// Each domain of a well-formed manager has at least one route, and no
    /// registration twice.
    pub proof fn lemma_wf(&self, kind: VhostKind)
        requires
            self.wf(),
        ensures
            forall|d: Seq<char>|
                #[trigger] self.routes(kind).dom().contains(d) ==> self.routes(kind)[d].0.len() > 0
                    && crate::routes::keys_distinct(self.routes(kind)[d].0),
    {
        self.http_routes.lemma_wf();
        self.https_routes.lemma_wf();
    }

    /// A manager with no routes; the subdomain host is kept trimmed, without
    /// trailing dots and in lower case.
    pub fn new(bind_addr: String, subdomain_host: String, vhost_http_port: u16, vhost_https_port: u16) -> (m: Self)
        ensures
            m.wf(),
            m.bind_addr_text() == bind_addr@,
            m.subdomain_host() == lowercase(trim_end_char(trim(subdomain_host@), '.')),
            m.port(VhostKind::Http) == vhost_http_port,
            m.port(VhostKind::Https) == vhost_https_port,
            m.routes(VhostKind::Http) == Map::<Seq<char>, (Seq<RouteView>, usize)>::empty(),
            m.routes(VhostKind::Https) == Map::<Seq<char>, (Seq<RouteView>, usize)>::empty(),
    {
        let t = trim_str(subdomain_host.as_str());
        let t = trim_end_char_str(t.as_str(), '.');
        VhostManager {
            bind_addr,
            subdomain_host: to_lowercase(t.as_str()),
            vhost_http_port,
            vhost_https_port,
            http_routes: RouteTable::new(),
            https_routes: RouteTable::new(),
        }
    }

    pub fn bind_addr(&self) -> (s: &str)
        ensures
            s@ == self.bind_addr_text(),
    {
        self.bind_addr.as_str()
    }

    pub fn vhost_port(&self, kind: VhostKind) -> (p: u16)
        ensures
            p == self.port(kind),
    {
        match kind {
            VhostKind::Http => self.vhost_http_port,
            VhostKind::Https => self.vhost_https_port,
        }
    }

    /// The domains a registration asks for, sorted and without repeats:
    /// its custom domains in routing form (empty ones dropped) and its
    /// subdomain under the server's subdomain host.
    pub fn collect_domains(&self, custom_domains: &Vec<String>, subdomain: &str) -> (r: Result<
        Vec<String>,
        Error,
    >)
        ensures
            r is Err <==> domains_refusal(custom_domains@, subdomain@, self.subdomain_host()) is Some,
            r matches Err(e) ==> (e matches Error::Proxy(m) && Some(m@) == domains_refusal(
                custom_domains@,
                subdomain@,
                self.subdomain_host(),
            )),
            r matches Ok(v) ==> strictly_sorted(domain_texts(v@)) && v@.len() > 0 && forall|t: Seq<char>|
                #[trigger] domain_texts(v@).contains(t) <==> is_candidate_domain(
                    custom_domains@,
                    subdomain@,
                    self.subdomain_host(),
                    t,
                ),
    {
        let ghost host = self.subdomain_host@;
        let mut out: Vec<String> = Vec::new();
        let mut i: usize = 0;
        while i < custom_domains.len()
            invariant
                i <= custom_domains@.len(),
                strictly_sorted(domain_texts(out@)),
                forall|t: Seq<char>|
                    #[trigger] domain_texts(out@).contains(t) <==> exists|j: int|
                        0 <= j < i && route_host(custom_domains@[j]@) == t && t.len() > 0,
            decreases custom_domains@.len() - i,
        {
            let h = normalize_host(custom_domains[i].as_str());
            let ghost before = domain_texts(out@);
            let ghost hv = h@;
            if !h.as_str().is_empty() {
                insert_sorted(&mut out, h);
            }
            assert forall|t: Seq<char>| #[trigger] domain_texts(out@).contains(t) <==> exists|j: int|
                0 <= j < i + 1 && route_host(custom_domains@[j]@) == t && t.len() > 0 by {
                if domain_texts(out@).contains(t) && !before.contains(t) {
                    assert(route_host(custom_domains@[i as int]@) == t && t.len() > 0);
                }
                if exists|j: int| 0 <= j < i + 1 && route_host(custom_domains@[j]@) == t && t.len() > 0 {
                    let j = choose|j: int| 0 <= j < i + 1 && route_host(custom_domains@[j]@) == t && t.len() > 0;
                    if j == i {
                        assert(t == hv);
                    } else {
                        assert(before.contains(t));
                    }
                }
            }
            i = i + 1;
        }
        let ghost base = domain_texts(out@);
        if !is_blank(subdomain) {
            if self.subdomain_host.as_str().is_empty() {
                return Err(Error::Proxy(String::from_str("subdomain is set but server subdomain_host is empty")));
            }
            let sd = to_lowercase(trim_str(subdomain).as_str());
            let full = cat3(sd.as_str(), ".", self.subdomain_host.as_str());
            proof {
                reveal_strlit(".");
                assert(full@ == lowercase(trim(subdomain@)) + seq!['.'] + host);
            }
            insert_sorted(&mut out, full);
        }
        assert forall|t: Seq<char>| #[trigger] domain_texts(out@).contains(t) <==> is_candidate_domain(
            custom_domains@,
            subdomain@,
            host,
            t,
        ) by {
            if base.contains(t) {
                assert(exists|j: int| 0 <= j < custom_domains@.len() && route_host(custom_domains@[j]@) == t && t.len() > 0);
            }
        }
        if out.len() == 0 {
            assert(domain_texts(out@).len() == 0);
            assert forall|j: int| 0 <= j < custom_domains@.len() implies route_host(
                #[trigger] custom_domains@[j]@,
            ).len() == 0 by {
                let t = route_host(custom_domains@[j]@);
                if t.len() > 0 {
                    assert(is_candidate_domain(custom_domains@, subdomain@, host, t));
                    assert(domain_texts(out@).contains(t));
                }
            }
            proof {
                if trim(subdomain@).len() > 0 {
                    let t = lowercase(trim(subdomain@)) + seq!['.'] + host;
                    assert(is_candidate_domain(custom_domains@, subdomain@, host, t));
                    assert(domain_texts(out@).contains(t));
                }
            }
            return Err(Error::Proxy(String::from_str("http/https proxy requires custom_domains or subdomain")));
        }
        proof {
            if no_domains(custom_domains@, subdomain@) {
                let t = domain_texts(out@)[0];
                assert(domain_texts(out@).contains(t));
                let j = choose|j: int| 0 <= j < custom_domains@.len() && route_host(custom_domains@[j]@) == t && t.len() > 0;
                assert(route_host(custom_domains@[j]@).len() == 0);
            }
        }
        Ok(out)
    }

    /// Registers `(route_key, proxy_name)` under each of `domains` in the
    /// routes of `kind`.
    pub fn add_routes(&mut self, kind: VhostKind, domains: &[String], route_key: &str, proxy_name: &str) -> (r:
        Result<(), Error>)
        requires
            old(self).wf(),
        ensures
            r is Ok,
            final(self).wf(),
            final(self).routes(kind) == with_routes(
                old(self).routes(kind),
                domain_texts(domains@).to_set(),
                route_key@,
                proxy_name@,
            ),
            forall|k: VhostKind| k != kind ==> #[trigger] final(self).routes(k) == old(self).routes(k),
            forall|k: VhostKind| #[trigger] final(self).port(k) == old(self).port(k),
            final(self).subdomain_host() == old(self).subdomain_host(),
            final(self).bind_addr_text() == old(self).bind_addr_text(),
    {
        let ghost m0 = self.routes(kind);
        match kind {
            VhostKind::Http => self.http_routes.add_routes(domains, route_key, proxy_name),
            VhostKind::Https => self.https_routes.add_routes(domains, route_key, proxy_name),
        }
        assert(self.routes(kind) =~= with_routes(m0, domain_texts(domains@).to_set(), route_key@, proxy_name@));
        Ok(())
    }

    fn register(&mut self, kind: VhostKind, run_id: &str, msg: &NewProxyMsg) -> (r: Result<String, Error>)
        requires
            old(self).wf(),
        ensures
            final(self).wf(),
            forall|k: VhostKind| k != kind ==> #[trigger] final(self).routes(k) == old(self).routes(k),
            forall|k: VhostKind| #[trigger] final(self).port(k) == old(self).port(k),
            final(self).subdomain_host() == old(self).subdomain_host(),
            final(self).bind_addr_text() == old(self).bind_addr_text(),
            old(self).port(kind) == 0 ==> final(self).routes(kind) == old(self).routes(kind) && (r matches Err(
                e,
            ) && e matches Error::Proxy(m) && m@ == disabled_message(kind)),
            old(self).port(kind) != 0 && domains_refusal(
                msg.custom_domains@,
                msg.subdomain@,
                old(self).subdomain_host(),
            ) is Some ==> final(self).routes(kind) == old(self).routes(kind) && (r matches Err(e)
                && e matches Error::Proxy(m) && Some(m@) == domains_refusal(
                msg.custom_domains@,
                msg.subdomain@,
                old(self).subdomain_host(),
            )),
            r is Ok <==> old(self).port(kind) != 0 && domains_refusal(
                msg.custom_domains@,
                msg.subdomain@,
                old(self).subdomain_host(),
            ) is None,
            r is Ok ==> final(self).routes(kind) == with_routes(
                old(self).routes(kind),
                candidate_domains(msg.custom_domains@, msg.subdomain@, old(self).subdomain_host()),
                route_key_of(run_id@, msg.proxy_name@),
                msg.proxy_name@,
            ),
            r matches Ok(url) ==> exists|d: Seq<char>|
                first_candidate(msg.custom_domains@, msg.subdomain@, old(self).subdomain_host(), d)
                    && url@ == vhost_url(kind, d, old(self).port(kind)),
    {
        let port = self.vhost_port(kind);
        if port == 0 {
            let m = match kind {
                VhostKind::Http => String::from_str("vhost_http_port is 0, HTTP vhost proxy is disabled"),
                VhostKind::Https => String::from_str("vhost_https_port is 0, HTTPS vhost proxy is disabled"),
            };
            return Err(Error::Proxy(m));
        }
        let domains = match self.collect_domains(&msg.custom_domains, msg.subdomain.as_str()) {
            Ok(v) => v,
            Err(e) => return Err(e),
        };
        let ghost cands = candidate_domains(msg.custom_domains@, msg.subdomain@, self.subdomain_host());
        let ghost dt = domain_texts(domains@);
        assert(dt.to_set() =~= cands);
        let route_key = cat3(run_id, ":", msg.proxy_name.as_str());
        let _ = self.add_routes(kind, domains.as_slice(), route_key.as_str(), msg.proxy_name.as_str());
        let scheme = match kind {
            VhostKind::Http => "http://",
            VhostKind::Https => "https://",
        };
        let head = cat3(scheme, domains[0].as_str(), ":");
        let url = cat2(head.as_str(), decimal_string(port as u64).as_str());
        proof {
            let d = dt[0];
            assert(dt.contains(d));
            assert forall|t: Seq<char>|
                is_candidate_domain(msg.custom_domains@, msg.subdomain@, self.subdomain_host(), t) && t != d implies crate::text::seq_lt(d, t) by {
                assert(dt.contains(t));
                let j = choose|j: int| 0 <= j < dt.len() && dt[j] == t;
                assert(j != 0);
            }
            assert(first_candidate(msg.custom_domains@, msg.subdomain@, self.subdomain_host(), d));
            assert(domains@[0]@ == d);
            assert(url@ == vhost_url(kind, d, port));
        }
        Ok(url)
    }

    /// Registers an HTTP proxy: its domains get its route, and the address
    /// it is reachable at comes back.
    pub fn register_http(&mut self, run_id: &str, msg: &NewProxyMsg) -> (r: Result<String, Error>)
        requires
            old(self).wf(),
        ensures
            final(self).wf(),
            final(self).routes(VhostKind::Https) == old(self).routes(VhostKind::Https),
            forall|k: VhostKind| #[trigger] final(self).port(k) == old(self).port(k),
            final(self).subdomain_host() == old(self).subdomain_host(),
            final(self).bind_addr_text() == old(self).bind_addr_text(),
            old(self).port(VhostKind::Http) == 0 ==> final(self).routes(VhostKind::Http) == old(self).routes(
                VhostKind::Http,
            ) && (r matches Err(e) && e matches Error::Proxy(m) && m@ == disabled_message(VhostKind::Http)),
            old(self).port(VhostKind::Http) != 0 && domains_refusal(
                msg.custom_domains@,
                msg.subdomain@,
                old(self).subdomain_host(),
            ) is Some ==> final(self).routes(VhostKind::Http) == old(self).routes(VhostKind::Http) && (r matches Err(
                e,
            ) && e matches Error::Proxy(m) && Some(m@) == domains_refusal(
                msg.custom_domains@,
                msg.subdomain@,
                old(self).subdomain_host(),
            )),
            r is Ok <==> old(self).port(VhostKind::Http) != 0 && domains_refusal(
                msg.custom_domains@,
                msg.subdomain@,
                old(self).subdomain_host(),
            ) is None,
            r is Ok ==> final(self).routes(VhostKind::Http) == with_routes(
                old(self).routes(VhostKind::Http),
                candidate_domains(msg.custom_domains@, msg.subdomain@, old(self).subdomain_host()),
                route_key_of(run_id@, msg.proxy_name@),
                msg.proxy_name@,
            ),
            r matches Ok(url) ==> exists|d: Seq<char>|
                first_candidate(msg.custom_domains@, msg.subdomain@, old(self).subdomain_host(), d)
                    && url@ == vhost_url(VhostKind::Http, d, old(self).port(VhostKind::Http)),
    {
        self.register(VhostKind::Http, run_id, msg)
    }

    /// Registers an HTTPS proxy: its domains get its route, and the address
    /// it is reachable at comes back.
    pub fn register_https(&mut self, run_id: &str, msg: &NewProxyMsg) -> (r: Result<String, Error>)
        requires
            old(self).wf(),
        ensures
            final(self).wf(),
            final(self).routes(VhostKind::Http) == old(self).routes(VhostKind::Http),
            forall|k: VhostKind| #[trigger] final(self).port(k) == old(self).port(k),
            final(self).subdomain_host() == old(self).subdomain_host(),
            final(self).bind_addr_text() == old(self).bind_addr_text(),
            old(self).port(VhostKind::Https) == 0 ==> final(self).routes(VhostKind::Https) == old(self).routes(
                VhostKind::Https,
            ) && (r matches Err(e) && e matches Error::Proxy(m) && m@ == disabled_message(VhostKind::Https)),
            old(self).port(VhostKind::Https) != 0 && domains_refusal(
                msg.custom_domains@,
                msg.subdomain@,
                old(self).subdomain_host(),
            ) is Some ==> final(self).routes(VhostKind::Https) == old(self).routes(VhostKind::Https) && (r matches Err(
                e,
            ) && e matches Error::Proxy(m) && Some(m@) == domains_refusal(
                msg.custom_domains@,
                msg.subdomain@,
                old(self).subdomain_host(),
            )),
            r is Ok <==> old(self).port(VhostKind::Https) != 0 && domains_refusal(
                msg.custom_domains@,
                msg.subdomain@,
                old(self).subdomain_host(),
            ) is None,
            r is Ok ==> final(self).routes(VhostKind::Https) == with_routes(
                old(self).routes(VhostKind::Https),
                candidate_domains(msg.custom_domains@, msg.subdomain@, old(self).subdomain_host()),
                route_key_of(run_id@, msg.proxy_name@),
                msg.proxy_name@,
            ),
            r matches Ok(url) ==> exists|d: Seq<char>|
                first_candidate(msg.custom_domains@, msg.subdomain@, old(self).subdomain_host(), d)
                    && url@ == vhost_url(VhostKind::Https, d, old(self).port(VhostKind::Https)),
    {
        self.register(VhostKind::Https, run_id, msg)
    }

    /// Removes the registration `route_key` from the routes of the kind
    /// that `proxy_type` names ("http" or "https"); any other type changes
    /// nothing.
    pub fn unregister_route(&mut self, route_key: &str, proxy_type: &str)
        requires
            old(self).wf(),
        ensures
            final(self).wf(),
            forall|k: VhostKind| #[trigger] final(self).port(k) == old(self).port(k),
            final(self).subdomain_host() == old(self).subdomain_host(),
            final(self).bind_addr_text() == old(self).bind_addr_text(),
            forall|k: VhostKind|
                #[trigger] final(self).routes(k) == if vhost_kind_of(proxy_type@) == Some(k) {
                    without_registration(old(self).routes(k), route_key@)
                } else {
                    old(self).routes(k)
                },
    {
        let kind = if str_eq(proxy_type, "http") {
            VhostKind::Http
        } else if str_eq(proxy_type, "https") {
            VhostKind::Https
        } else {
            return;
        };
        let ghost m0 = self.routes(kind);
        match kind {
            VhostKind::Http => self.http_routes.unregister(route_key),
            VhostKind::Https => self.https_routes.unregister(route_key),
        }
        assert(self.routes(kind) =~= without_registration(m0, route_key@));
    }

    /// Picks the route of `kind` for a request whose host (HTTP `Host` or
    /// TLS server name) is `host`: the routes of its routing form, taken in
    /// turn by the domain's counter.
    pub fn route_request(&mut self, kind: VhostKind, host: &str) -> (r: Result<VhostRoute, Error>)
        requires
            old(self).wf(),
        ensures
            final(self).wf(),
            forall|k: VhostKind| #[trigger] final(self).port(k) == old(self).port(k),
            final(self).subdomain_host() == old(self).subdomain_host(),
            final(self).bind_addr_text() == old(self).bind_addr_text(),
            forall|k: VhostKind| k != kind ==> #[trigger] final(self).routes(k) == old(self).routes(k),
            r is Ok <==> old(self).routes(kind).dom().contains(route_host(host@)),
            r matches Err(e) ==> (e matches Error::Proxy(m) && m@ == no_route_message(kind, route_host(host@)))
                && final(self).routes(kind) == old(self).routes(kind),
            r matches Ok(route) ==> ({
                let (rs, rr) = old(self).routes(kind)[route_host(host@)];
                &&& route_view(route) == rs[(rr as int) % (rs.len() as int)]
                &&& final(self).routes(kind) == old(self).routes(kind).insert(
                    route_host(host@),
                    (rs, next_counter(rr)),
                )
            }),
    {
        let domain = normalize_host(host);
        let picked = match kind {
            VhostKind::Http => self.http_routes.pick(domain.as_str()),
            VhostKind::Https => self.https_routes.pick(domain.as_str()),
        };
        match picked {
            Some(route) => Ok(route),
            None => {
                let prefix = match kind {
                    VhostKind::Http => "no http route for host ",
                    VhostKind::Https => "no https route for sni ",
                };
                Err(Error::Proxy(cat2(prefix, domain.as_str())))
            },
        }
    }

    /// The routes of `kind` registered for `domain`, if it has any.
    pub fn routes_of(&self, kind: VhostKind, domain: &str) -> (r: Option<Vec<VhostRoute>>)
        requires
            self.wf(),
        ensures
            r is Some <==> self.routes(kind).dom().contains(domain@),
            r matches Some(v) ==> crate::routes::routes_view(v@) == self.routes(kind)[domain@].0,
    {
        match kind {
            VhostKind::Http => self.http_routes.routes_of(domain),
            VhostKind::Https => self.https_routes.routes_of(domain),
        }
    }
}


/// Registering a key that no route of a table has, and then removing that
/// registration again, gives back the table as it was.
pub proof fn law_register_then_unregister(
    mgr: &VhostManager,
    kind: VhostKind,
    ds: Set<Seq<char>>,
    k: Seq<char>,
    name: Seq<char>,
)
    requires
        mgr.wf(),
        forall|d: Seq<char>| #[trigger] mgr.routes(kind).dom().contains(d) ==> !crate::routes::has_key(mgr.routes(kind)[d].0, k),
    ensures
        without_registration(with_routes(mgr.routes(kind), ds, k, name), k) == mgr.routes(kind),
{
    mgr.lemma_wf(kind);
    let m = mgr.routes(kind);
    let a = with_routes(m, ds, k, name);
    let b = without_registration(a, k);
    assert forall|d: Seq<char>| a.dom().contains(d) implies without_key(#[trigger] a[d].0, k) == (if m.dom().contains(d) {
        m[d].0
    } else {
        Seq::<RouteView>::empty()
    }) by {
        if m.dom().contains(d) {
            crate::routes::lemma_without_absent_key(m[d].0, k);
            if ds.contains(d) {
                crate::routes::lemma_without_pushed_key(m[d].0, k, name);
            }
        } else {
            crate::routes::lemma_without_pushed_key(Seq::<RouteView>::empty(), k, name);
            crate::routes::lemma_without_absent_key(Seq::<RouteView>::empty(), k);
            assert(seq![(k, name)] =~= Seq::<RouteView>::empty().push((k, name)));
        }
    }
    assert forall|d: Seq<char>| #[trigger] b.dom().contains(d) <==> m.dom().contains(d) by {
        if m.dom().contains(d) {
            assert(a.dom().contains(d));
        }
    }
    assert(b =~= m);
}

/// After a registration, every domain it names holds a route with its key.
pub proof fn law_registered_domains_route_to_it(
    m: Map<Seq<char>, (Seq<RouteView>, usize)>,
    ds: Set<Seq<char>>,
    k: Seq<char>,
    name: Seq<char>,
    d: Seq<char>,
)
    requires
        ds.contains(d),
    ensures
        with_routes(m, ds, k, name).dom().contains(d),
        crate::routes::has_key(with_routes(m, ds, k, name)[d].0, k),
{
    if m.dom().contains(d) {
        crate::routes::lemma_with_route_idempotent(m[d].0, k, name);
    } else {
        assert(seq![(k, name)][0].0 == k);
    }
}

/// After a registration is removed, no domain holds a route with its key.
pub proof fn law_unregistered_key_gone(m: Map<Seq<char>, (Seq<RouteView>, usize)>, k: Seq<char>, d: Seq<char>)
    requires
        without_registration(m, k).dom().contains(d),
    ensures
        !crate::routes::has_key(without_registration(m, k)[d].0, k),
{
    crate::routes::lemma_without_key_has_none(m[d].0, k);
}

/// Requests for one domain take its routes in turn: the request after the
/// one that got route `i` gets route `i + 1`, wrapping to the first, as
/// long as the counter itself does not wrap.
pub proof fn law_round_robin_turns(m: Map<Seq<char>, (Seq<RouteView>, usize)>, d: Seq<char>)
    requires
        m.dom().contains(d),
        m[d].0.len() > 0,
        m[d].1 < usize::MAX,
    ensures
        ({
            let (rs, rr) = m[d];
            let m2 = m.insert(d, (rs, next_counter(rr)));
            let (rs2, rr2) = m2[d];
            &&& rs2 == rs
            &&& (rr2 as int) % (rs.len() as int) == ((rr as int) % (rs.len() as int) + 1) % (rs.len() as int)
        }),
{
    let (rs, rr) = m[d];
    let n = rs.len() as int;
    assert(((rr as int) + 1) % n == ((rr as int) % n + 1) % n) by (nonlinear_arith)
        requires n > 0, rr >= 0;
}

} // verus!
