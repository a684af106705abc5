//! Recognition of IP address and socket address literals, in the grammar
//! that `str::parse` accepts for `std::net::IpAddr` and `SocketAddr`, and
//! the rewriting of local addresses that a peer cannot reach.
use vstd::prelude::*;

use crate::text::{
    cat3, cat5, chars_of, contains_char, decimal, decimal_string, find_char, first_index,
    has_prefix, split_once, string_from,
};

verus! {

/// `s` cut at every `c`: the pieces between separators, in order.
pub open spec fn split_all(s: Seq<char>, c: char) -> Seq<Seq<char>>
    decreases s.len(),
{
    match first_index(s, c) {
        None => seq![s],
        Some(i) => if 0 <= i < s.len() {
            seq![s.take(i)] + split_all(s.skip(i + 1), c)
        } else {
            seq![s]
        },
    }
}

/// An ASCII decimal digit.
pub open spec fn is_dec_digit(c: char) -> bool {
    '0' <= c && c <= '9'
}

/// An ASCII hexadecimal digit, either case.
pub open spec fn is_hex_digit(c: char) -> bool {
    ('0' <= c && c <= '9') || ('a' <= c && c <= 'f') || ('A' <= c && c <= 'F')
}

/// The number that a run of decimal digits denotes.
pub open spec fn dec_value(p: Seq<char>) -> nat
    decreases p.len(),
{
    if p.len() == 0 {
        0
    } else {
        dec_value(p.drop_last()) * 10 + ((p.last() as u32) - ('0' as u32)) as nat
    }
}

/// One octet of a dotted IPv4 address: one to three decimal digits, no
/// leading zero, at most 255.
pub open spec fn dec_octet(p: Seq<char>) -> bool {
    &&& 1 <= p.len() <= 3
    &&& forall|i: int| 0 <= i < p.len() ==> is_dec_digit(#[trigger] p[i])
    &&& !(p.len() > 1 && p[0] == '0')
    &&& dec_value(p) <= 255
}

/// One group of an IPv6 address: one to four hexadecimal digits.
pub open spec fn hex_group(p: Seq<char>) -> bool {
    &&& 1 <= p.len() <= 4
    &&& forall|i: int| 0 <= i < p.len() ==> is_hex_digit(#[trigger] p[i])
}

/// A dotted-quad IPv4 address.
pub open spec fn ipv4_literal(s: Seq<char>) -> bool {
    let parts = split_all(s, '.');
    parts.len() == 4 && forall|i: int| 0 <= i < 4 ==> dec_octet(#[trigger] parts[i])
}

/// Every piece is an IPv6 group.
pub open spec fn all_groups(parts: Seq<Seq<char>>) -> bool {
    forall|i: int| 0 <= i < parts.len() ==> hex_group(#[trigger] parts[i])
}

/// `parts` are groups, the last possibly an embedded IPv4 address that
/// takes two group slots, filling at most `limit` slots.
pub open spec fn groups_fit(parts: Seq<Seq<char>>, limit: int) -> bool {
    ||| (all_groups(parts) && parts.len() <= limit)
    ||| (parts.len() >= 1 && all_groups(parts.drop_last()) && ipv4_literal(parts.last())
        && parts.len() + 1 <= limit)
}

/// The index of the first `"::"` in `s`, if any.
pub open spec fn double_colon(s: Seq<char>) -> Option<int>
    decreases s.len(),
{
    if s.len() < 2 {
        None
    } else if s[0] == ':' && s[1] == ':' {
        Some(0)
    } else {
        match double_colon(s.drop_first()) {
            Some(i) => Some(i + 1),
            None => None,
        }
    }
}

/// An IPv6 address: eight groups, or six groups and an IPv4 address, or a
/// shortened form with one `::` standing for at least one zero group.
pub open spec fn ipv6_literal(s: Seq<char>) -> bool {
    match double_colon(s) {
        None => {
            let parts = split_all(s, ':');
            (parts.len() == 8 && all_groups(parts)) || (parts.len() == 7 && all_groups(
                parts.drop_last(),
            ) && ipv4_literal(parts.last()))
        },
        Some(k) => {
            let head = s.take(k);
            let tail = s.skip(k + 2);
            let h = if head.len() == 0 {
                0
            } else {
                split_all(head, ':').len() as int
            };
            &&& (head.len() == 0 || all_groups(split_all(head, ':')))
            &&& h <= 7
            &&& (tail.len() == 0 || groups_fit(split_all(tail, ':'), 7 - h))
        },
    }
}

/// An IPv4 or IPv6 address literal.
pub open spec fn ip_literal(s: Seq<char>) -> bool {
    ipv4_literal(s) || ipv6_literal(s)
}

/// The pieces of `v` between separators `c`.
pub fn split_chars(v: &Vec<char>, c: char) -> (out: Vec<Vec<char>>)
    ensures
        out@.map_values(|p: Vec<char>| p@) == split_all(v@, c),
{
    let mut out: Vec<Vec<char>> = Vec::new();
    let mut cur: Vec<char> = Vec::new();
    let mut i: usize = 0;
    let ghost mut start: int = 0;
    assert(v@.skip(0) == v@);
    assert(out@.map_values(|p: Vec<char>| p@) =~= Seq::<Seq<char>>::empty());
    assert(Seq::<Seq<char>>::empty() + split_all(v@, c) == split_all(v@, c));
    while i < v.len()
        invariant
            0 <= start <= i <= v.len(),
            cur@ == v@.subrange(start, i as int),
            forall|k: int| start <= k < i ==> v@[k] != c,
            out@.map_values(|p: Vec<char>| p@) + split_all(v@.skip(start), c) == split_all(v@, c),
        decreases v.len() - i,
    {
        if v[i] == c {
            proof {
                let rest = v@.skip(start);
                lemma_first_index_at(rest, c, i - start);
                assert(rest.take(i - start) == cur@);
                assert(rest.skip(i - start + 1) == v@.skip(i + 1));
                assert(split_all(rest, c) == seq![cur@] + split_all(v@.skip(i + 1), c));
                assert(out@.push(cur).map_values(|p: Vec<char>| p@) == out@.map_values(
                    |p: Vec<char>| p@,
                ).push(cur@));
            }
            out.push(cur);
            cur = Vec::new();
            i = i + 1;
            proof {
                start = i as int;
            }
        } else {
            cur.push(v[i]);
            i = i + 1;
        }
    }
    proof {
        let rest = v@.skip(start);
        lemma_first_index_none(rest, c);
        assert(rest == cur@);
        assert(out@.push(cur).map_values(|p: Vec<char>| p@) == out@.map_values(|p: Vec<char>| p@).push(
            cur@,
        ));
    }
    out.push(cur);
    out
}

proof fn lemma_first_index_at(s: Seq<char>, c: char, i: int)
    requires
        0 <= i < s.len(),
        s[i] == c,
        forall|k: int| 0 <= k < i ==> s[k] != c,
    ensures
        first_index(s, c) == Some(i),
    decreases i,
{
    if i > 0 {
        lemma_first_index_at(s.drop_first(), c, i - 1);
    }
}

proof fn lemma_first_index_none(s: Seq<char>, c: char)
    requires
        forall|k: int| 0 <= k < s.len() ==> s[k] != c,
    ensures
        first_index(s, c) is None,
    decreases s.len(),
{
    if s.len() > 0 {
        lemma_first_index_none(s.drop_first(), c);
    }
}

fn is_dec(c: char) -> (b: bool)
    ensures
        b == is_dec_digit(c),
{
    '0' <= c && c <= '9'
}

fn is_hex(c: char) -> (b: bool)
    ensures
        b == is_hex_digit(c),
{
    ('0' <= c && c <= '9') || ('a' <= c && c <= 'f') || ('A' <= c && c <= 'F')
}

fn check_dec_octet(p: &Vec<char>) -> (b: bool)
    ensures
        b == dec_octet(p@),
{
    if p.len() < 1 || p.len() > 3 {
        return false;
    }
    let mut i: usize = 0;
    let mut val: u32 = 0;
    while i < p.len()
        invariant
            i <= p.len() <= 3,
            forall|k: int| 0 <= k < i ==> is_dec_digit(#[trigger] p@[k]),
            val == dec_value(p@.take(i as int)),
            i == 0 ==> val == 0,
            i == 1 ==> val < 10,
            i == 2 ==> val < 100,
            i == 3 ==> val < 1000,
        decreases p.len() - i,
    {
        if !is_dec(p[i]) {
            return false;
        }
        proof {
            assert(p@.take(i + 1).drop_last() == p@.take(i as int));
            assert(p@.take(i + 1).last() == p@[i as int]);
        }
        val = val * 10 + ((p[i] as u32) - 0x30);
        i = i + 1;
    }
    assert(p@.take(p.len() as int) == p@);
    !(p.len() > 1 && p[0] == '0') && val <= 255
}

fn check_hex_group(p: &Vec<char>) -> (b: bool)
    ensures
        b == hex_group(p@),
{
    if p.len() < 1 || p.len() > 4 {
        return false;
    }
    let mut i: usize = 0;
    while i < p.len()
        invariant
            i <= p.len(),
            forall|k: int| 0 <= k < i ==> is_hex_digit(#[trigger] p@[k]),
        decreases p.len() - i,
    {
        if !is_hex(p[i]) {
            return false;
        }
        i = i + 1;
    }
    true
}

fn check_ipv4(v: &Vec<char>) -> (b: bool)
    ensures
        b == ipv4_literal(v@),
{
    let parts = split_chars(v, '.');
    let ghost views = parts@.map_values(|p: Vec<char>| p@);
    if parts.len() != 4 {
        return false;
    }
    let mut i: usize = 0;
    while i < 4
        invariant
            i <= 4 == parts.len(),
            views == split_all(v@, '.'),
            views == parts@.map_values(|p: Vec<char>| p@),
            forall|k: int| 0 <= k < i ==> dec_octet(#[trigger] views[k]),
        decreases 4 - i,
    {
        assert(views[i as int] == parts@[i as int]@);
        if !check_dec_octet(&parts[i]) {
            return false;
        }
        i = i + 1;
    }
    true
}

fn check_all_groups(parts: &Vec<Vec<char>>, upto: usize) -> (b: bool)
    requires
        upto <= parts.len(),
    ensures
        b == all_groups(parts@.map_values(|p: Vec<char>| p@).take(upto as int)),
{
    let ghost views = parts@.map_values(|p: Vec<char>| p@);
    let mut i: usize = 0;
    while i < upto
        invariant
            i <= upto <= parts.len(),
            views == parts@.map_values(|p: Vec<char>| p@),
            forall|k: int| 0 <= k < i ==> hex_group(#[trigger] views[k]),
        decreases upto - i,
    {
        assert(views[i as int] == parts@[i as int]@);
        if !check_hex_group(&parts[i]) {
            assert(views.take(upto as int)[i as int] == views[i as int]);
            return false;
        }
        i = i + 1;
    }
    proof {
        let t = views.take(upto as int);
        assert forall|k: int| 0 <= k < t.len() implies hex_group(#[trigger] t[k]) by {
            assert(t[k] == views[k]);
        }
    }
    true
}

fn check_groups_fit(parts: &Vec<Vec<char>>, limit: usize) -> (b: bool)
    ensures
        b == groups_fit(parts@.map_values(|p: Vec<char>| p@), limit as int),
{
    let ghost views = parts@.map_values(|p: Vec<char>| p@);
    let n = parts.len();
    assert(views.take(n as int) == views);
    if check_all_groups(parts, n) && n <= limit {
        return true;
    }
    if n >= 1 {
        assert(views.take(n - 1) == views.drop_last());
        let last = &parts[n - 1];
        if check_all_groups(parts, n - 1) && check_ipv4(last) && n < limit {
            return true;
        }
    }
    false
}

fn find_double_colon(v: &Vec<char>) -> (r: Option<usize>)
    ensures
        r is None <==> double_colon(v@) is None,
        r matches Some(k) ==> k + 2 <= v.len() && double_colon(v@) == Some(k as int),
{
    let mut i: usize = 0;
    assert(v@.skip(0) == v@);
    while v.len() >= 2 && i < v.len() - 1
        invariant
            i <= v.len(),
            double_colon(v@) == match double_colon(v@.skip(i as int)) {
                Some(k) => Some(k + i),
                None => None,
            },
        decreases v.len() - i,
    {
        if v[i] == ':' && v[i + 1] == ':' {
            assert(v@.skip(i as int)[0] == ':' && v@.skip(i as int)[1] == ':');
            return Some(i);
        }
        assert(v@.skip(i as int).drop_first() == v@.skip(i + 1));
        i = i + 1;
    }
    None
}

fn check_ipv6(v: &Vec<char>) -> (b: bool)
    ensures
        b == ipv6_literal(v@),
{
    match find_double_colon(v) {
        None => {
            let parts = split_chars(v, ':');
            let ghost views = parts@.map_values(|p: Vec<char>| p@);
            let n = parts.len();
            assert(views.take(n as int) == views);
            if n == 8 && check_all_groups(&parts, 8) {
                return true;
            }
            if n == 7 {
                assert(views.take(6) == views.drop_last());
                if check_all_groups(&parts, 6) && check_ipv4(&parts[6]) {
                    return true;
                }
            }
            false
        },
        Some(k) => {
            let head: Vec<char> = sub_chars(v, 0, k);
            let tail: Vec<char> = sub_chars(v, k + 2, v.len());
            assert(head@ == v@.take(k as int));
            assert(tail@ == v@.skip(k + 2));
            let mut h: usize = 0;
            if head.len() > 0 {
                let hp = split_chars(&head, ':');
                let ghost hv = hp@.map_values(|p: Vec<char>| p@);
                assert(hv.take(hp.len() as int) == hv);
                if !check_all_groups(&hp, hp.len()) {
                    return false;
                }
                h = hp.len();
            }
            if h > 7 {
                return false;
            }
            if tail.len() == 0 {
                return true;
            }
            let tp = split_chars(&tail, ':');
            check_groups_fit(&tp, 7 - h)
        },
    }
}

/// `v[from..to]` as a new vector.
pub fn sub_chars(v: &Vec<char>, from: usize, to: usize) -> (out: Vec<char>)
    requires
        from <= to <= v.len(),
    ensures
        out@ == v@.subrange(from as int, to as int),
{
    let mut out: Vec<char> = Vec::new();
    let mut i = from;
    while i < to
        invariant
            from <= i <= to <= v.len(),
            out@ == v@.subrange(from as int, i as int),
        decreases to - i,
    {
        out.push(v[i]);
        i = i + 1;
    }
    out
}

/// Whether `s` is an IP address literal, as `str::parse::<IpAddr>` accepts
/// it.
pub fn is_ip_literal(s: &str) -> (b: bool)
    ensures
        b == ip_literal(s@),
{
    let v = chars_of(s);
    check_ipv4(&v) || check_ipv6(&v)
}

/// One or more decimal digits, leading zeros allowed, whose value is at
/// most `limit`.
pub open spec fn number_text(p: Seq<char>, limit: nat) -> bool {
    &&& p.len() >= 1
    &&& forall|i: int| 0 <= i < p.len() ==> is_dec_digit(#[trigger] p[i])
    &&& dec_value(p) <= limit
}

/// The address inside the brackets of an IPv6 socket address: an IPv6
/// address, optionally followed by `%` and a numeric scope id.
pub open spec fn v6_inner(inner: Seq<char>) -> Option<Seq<char>> {
    match split_once(inner, '%') {
        Some((ip, scope)) => if ipv6_literal(ip) && number_text(scope, 0xffff_ffff) {
            Some(ip)
        } else {
            None
        },
        None => if ipv6_literal(inner) {
            Some(inner)
        } else {
            None
        },
    }
}

/// A socket address as `str::parse::<SocketAddr>` reads it: `a.b.c.d:port`
/// or `[v6]:port`, giving the address text, whether it is IPv6, and the
/// port; `None` where the text is no socket address.
pub open spec fn socket_parts(s: Seq<char>) -> Option<(Seq<char>, bool, nat)> {
    if s.len() >= 1 && s[0] == '[' {
        match split_once(s.drop_first(), ']') {
            Some((inner, rest)) => match v6_inner(inner) {
                Some(ip) => if rest.len() >= 1 && rest[0] == ':' && number_text(
                    rest.drop_first(),
                    0xffff,
                ) {
                    Some((ip, true, dec_value(rest.drop_first())))
                } else {
                    None
                },
                None => None,
            },
            None => None,
        }
    } else {
        match split_once(s, ':') {
            Some((ip, port)) => if ipv4_literal(ip) && number_text(port, 0xffff) {
                Some((ip, false, dec_value(port)))
            } else {
                None
            },
            None => None,
        }
    }
}

/// A character that a zero address may hold: a zero digit or a separator.
pub open spec fn zero_char(c: char) -> bool {
    c == '0' || c == '.' || c == ':'
}

/// The unspecified address: every digit of the address text is zero, as in
/// `0.0.0.0`, `::` or `0:0::0.0.0.0`.
pub open spec fn unspecified_ip(ip: Seq<char>) -> bool {
    forall|k: int| 0 <= k < ip.len() ==> zero_char(#[trigger] ip[k])
}

/// A loopback address: an IPv4 address in `127.0.0.0/8`, or the IPv6
/// address `::1`, whose digits are all zero but the last, which is one.
pub open spec fn loopback_ip(ip: Seq<char>, v6: bool) -> bool {
    if v6 {
        ip.len() >= 1 && ip.last() == '1' && unspecified_ip(ip.drop_last())
    } else {
        has_prefix(ip, seq!['1', '2', '7', '.'])
    }
}

/// An unspecified or loopback address, which a remote peer cannot reach.
pub open spec fn local_ip(ip: Seq<char>, v6: bool) -> bool {
    unspecified_ip(ip) || loopback_ip(ip, v6)
}

/// `SocketAddr::new(ip, port)` as it displays, for the displayed address
/// `ip`: an IPv6 address stands in brackets.
pub open spec fn socket_text(ip: Seq<char>, port: nat) -> Seq<char> {
    if ip.contains(':') {
        seq!['['] + ip + seq![']', ':'] + decimal(port)
    } else {
        ip + seq![':'] + decimal(port)
    }
}

/// A relay address as a visitor reaches it: a socket address on a local
/// host becomes the server's address with the same port.
pub open spec fn relay_addr_for(relay: Seq<char>, server: Seq<char>) -> Seq<char> {
    match socket_parts(relay) {
        Some((ip, v6, port)) => if local_ip(ip, v6) {
            server + seq![':'] + decimal(port)
        } else {
            relay
        },
        None => relay,
    }
}

/// An endpoint address as the server sees its owner, whose address
/// displays as `owner`: a socket address on a local host becomes the
/// owner's address with the same port.
pub open spec fn endpoint_addr_for(endpoint: Seq<char>, owner: Seq<char>) -> Seq<char> {
    match socket_parts(endpoint) {
        Some((ip, v6, port)) => if local_ip(ip, v6) {
            socket_text(owner, port)
        } else {
            endpoint
        },
        None => endpoint,
    }
}

/// The value of the digits `v[from..to]`, where they form a number of at
/// most `limit`.
fn read_number(v: &Vec<char>, from: usize, to: usize, limit: u64) -> (r: Option<u64>)
    requires
        from <= to <= v.len(),
        limit <= 0xffff_ffff,
    ensures
        r is Some <==> number_text(v@.subrange(from as int, to as int), limit as nat),
        r matches Some(n) ==> n == dec_value(v@.subrange(from as int, to as int)),
{
    let ghost sub = v@.subrange(from as int, to as int);
    if from == to {
        return None;
    }
    let mut i: usize = from;
    let mut acc: u64 = 0;
    assert(v@.subrange(from as int, from as int) =~= Seq::<char>::empty());
    while i < to
        invariant
            from <= i <= to <= v.len(),
            limit <= 0xffff_ffff,
            sub == v@.subrange(from as int, to as int),
            forall|k: int| from <= k < i ==> is_dec_digit(#[trigger] v@[k]),
            acc as int == if dec_value(v@.subrange(from as int, i as int)) <= limit {
                dec_value(v@.subrange(from as int, i as int)) as int
            } else {
                limit + 1
            },
        decreases to - i,
    {
        if !is_dec(v[i]) {
            assert(sub[i - from] == v@[i as int]);
            assert(!is_dec_digit(sub[i - from]));
            return None;
        }
        proof {
            assert(v@.subrange(from as int, i + 1).drop_last() =~= v@.subrange(from as int, i as int));
            assert(v@.subrange(from as int, i + 1).last() == v@[i as int]);
        }
        let d: u64 = ((v[i] as u32) - 0x30) as u64;
        let next: u64 = acc * 10 + d;
        acc = if next > limit {
            limit + 1
        } else {
            next
        };
        i = i + 1;
    }
    assert forall|k: int| 0 <= k < sub.len() implies is_dec_digit(#[trigger] sub[k]) by {
        assert(sub[k] == v@[from + k]);
    }
    if acc <= limit {
        Some(acc)
    } else {
        None
    }
}

/// `v[from..]` as a new vector.
fn rest_of(v: &Vec<char>, from: usize) -> (out: Vec<char>)
    requires
        from <= v.len(),
    ensures
        out@ == v@.skip(from as int),
{
    let out = sub_chars(v, from, v.len());
    assert(out@ =~= v@.skip(from as int));
    out
}

/// `split_once(v, c)`, as two new vectors.
fn split_once_chars(v: &Vec<char>, c: char) -> (r: Option<(Vec<char>, Vec<char>)>)
    ensures
        r is None <==> split_once(v@, c) is None,
        r matches Some((a, b)) ==> split_once(v@, c) == Some((a@, b@)),
{
    match find_char(v, c) {
        Some(i) => {
            let a = sub_chars(v, 0, i);
            let b = rest_of(v, i + 1);
            assert(a@ =~= v@.take(i as int));
            Some((a, b))
        },
        None => None,
    }
}

/// The address inside the brackets of an IPv6 socket address, as
/// `v6_inner` reads it.
fn read_v6_inner(inner: &Vec<char>) -> (r: Option<Vec<char>>)
    ensures
        r is None <==> v6_inner(inner@) is None,
        r matches Some(ip) ==> v6_inner(inner@) == Some(ip@),
{
    match split_once_chars(inner, '%') {
        Some((ip, scope)) => {
            if check_ipv6(&ip) && read_number(&scope, 0, scope.len(), 0xffff_ffff).is_some() {
                assert(scope@.subrange(0, scope@.len() as int) == scope@);
                Some(ip)
            } else {
                assert(scope@.subrange(0, scope@.len() as int) == scope@);
                None
            }
        },
        None => {
            if check_ipv6(inner) {
                Some(inner.clone())
            } else {
                None
            }
        },
    }
}

/// `s` parsed as a socket address: its address text, whether that is IPv6,
/// and its port.
fn socket_addr_parts(s: &str) -> (r: Option<(Vec<char>, bool, u16)>)
    ensures
        r is None <==> socket_parts(s@) is None,
        r matches Some((ip, v6, port)) ==> socket_parts(s@) == Some((ip@, v6, port as nat)),
{
    let v = chars_of(s);
    if v.len() >= 1 && v[0] == '[' {
        let body = rest_of(&v, 1);
        assert(body@ =~= s@.drop_first());
        match split_once_chars(&body, ']') {
            Some((inner, rest)) => match read_v6_inner(&inner) {
                Some(ip) => {
                    if rest.len() >= 1 && rest[0] == ':' {
                        let n = read_number(&rest, 1, rest.len(), 0xffff);
                        assert(rest@.subrange(1, rest@.len() as int) =~= rest@.drop_first());
                        match n {
                            Some(p) => Some((ip, true, p as u16)),
                            None => None,
                        }
                    } else {
                        None
                    }
                },
                None => None,
            },
            None => None,
        }
    } else {
        match split_once_chars(&v, ':') {
            Some((ip, port)) => {
                let n = read_number(&port, 0, port.len(), 0xffff);
                assert(port@.subrange(0, port@.len() as int) == port@);
                if check_ipv4(&ip) {
                    match n {
                        Some(p) => Some((ip, false, p as u16)),
                        None => None,
                    }
                } else {
                    None
                }
            },
            None => None,
        }
    }
}

/// Whether `ip` is an unspecified or loopback address.
fn is_local_ip(ip: &Vec<char>, v6: bool) -> (b: bool)
    ensures
        b == local_ip(ip@, v6),
{
    let mut zero = true;
    let mut i: usize = 0;
    let mut zero_but_last = true;
    while i < ip.len()
        invariant
            i <= ip.len(),
            zero == (forall|k: int| 0 <= k < i ==> zero_char(#[trigger] ip@[k])),
            i >= 1 ==> zero_but_last == (forall|k: int|
                0 <= k < i - 1 ==> zero_char(#[trigger] ip@[k])),
            i == 0 ==> zero_but_last,
        decreases ip.len() - i,
    {
        zero_but_last = zero;
        let c = ip[i];
        zero = zero && (c == '0' || c == '.' || c == ':');
        i = i + 1;
    }
    if zero {
        return true;
    }
    if v6 {
        let n = ip.len();
        if n >= 1 && ip[n - 1] == '1' && zero_but_last {
            assert forall|k: int| 0 <= k < ip@.drop_last().len() implies zero_char(
                #[trigger] ip@.drop_last()[k],
            ) by {
                assert(ip@.drop_last()[k] == ip@[k]);
            }
            true
        } else {
            if n >= 1 && ip[n - 1] == '1' {
                let ghost k = choose|k: int| 0 <= k < n - 1 && !zero_char(#[trigger] ip@[k]);
                assert(ip@.drop_last()[k] == ip@[k]);
            }
            false
        }
    } else {
        let n = ip.len();
        let r = n >= 4 && ip[0] == '1' && ip[1] == '2' && ip[2] == '7' && ip[3] == '.';
        proof {
            if n >= 4 {
                if r {
                    assert(ip@.take(4) =~= seq!['1', '2', '7', '.']);
                } else {
                    assert(ip@.take(4)[0] == ip@[0]);
                    assert(ip@.take(4)[1] == ip@[1]);
                    assert(ip@.take(4)[2] == ip@[2]);
                    assert(ip@.take(4)[3] == ip@[3]);
                }
            }
        }
        r
    }
}

/// A relay address as a visitor reaches it: where `relay_addr` is a socket
/// address on an unspecified or loopback host, `server_addr` and the same
/// port; any other text unchanged.
pub fn normalize_relay_addr(relay_addr: &str, server_addr: &str) -> (out: String)
    ensures
        out@ == relay_addr_for(relay_addr@, server_addr@),
{
    match socket_addr_parts(relay_addr) {
        Some((ip, v6, port)) => {
            if is_local_ip(&ip, v6) {
                let p = decimal_string(port as u64);
                let mut out = string_from(server_addr);
                out.append(":");
                out.append(p.as_str());
                proof { reveal_strlit(":"); }
                assert(out@ =~= server_addr@ + seq![':'] + decimal(port as nat));
                out
            } else {
                string_from(relay_addr)
            }
        },
        None => string_from(relay_addr),
    }
}

/// An endpoint address as the server sees its owner: where `endpoint_addr`
/// is a socket address on an unspecified or loopback host, the owner's
/// address and the same port. `owner_ip` is the owner's address as
/// `IpAddr` displays it, `None` where the owner's peer address did not
/// parse; then, as for any other text, `endpoint_addr` is kept.
pub fn normalize_endpoint_addr(endpoint_addr: &str, owner_ip: Option<&str>) -> (out: String)
    ensures
        owner_ip is None ==> out@ == endpoint_addr@,
        owner_ip matches Some(o) ==> out@ == endpoint_addr_for(endpoint_addr@, o@),
{
    let owner = match owner_ip {
        Some(o) => o,
        None => {
            return string_from(endpoint_addr);
        },
    };
    match socket_addr_parts(endpoint_addr) {
        Some((ip, v6, port)) => {
            if is_local_ip(&ip, v6) {
                let p = decimal_string(port as u64);
                proof {
                    reveal_strlit("[");
                    reveal_strlit("]:");
                    reveal_strlit(":");
                }
                if contains_char(owner, ':') {
                    let out = cat5("[", owner, "]:", p.as_str(), "");
                    proof { reveal_strlit(""); }
                    assert(out@ =~= seq!['['] + owner@ + seq![']', ':'] + decimal(port as nat));
                    out
                } else {
                    let out = cat3(owner, ":", p.as_str());
                    assert(out@ =~= owner@ + seq![':'] + decimal(port as nat));
                    out
                }
            } else {
                string_from(endpoint_addr)
            }
        },
        None => string_from(endpoint_addr),
    }
}

} // verus!
