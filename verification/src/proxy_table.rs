//! The server's directory of registered proxies: their records, by key
//! `run_id:proxy_name`, and the xtcp proxies that visitors can reach, by
//! name; with the listings and lookups that the admin API and the control
//! connections use.
use vstd::prelude::*;
use dashmap::DashMap;
use vstd::multiset::Multiset;
use crate::proxy_registry::{ProxyRecord, XtcpProxyInfo};
use crate::text::{seq_lt, str_lt, str_eq, has_prefix, has_suffix, starts_with, ends_with, cat2, first_index, find_char, chars_of, string_of, string_from, lemma_seq_lt_transitive};

verus! {

/// A table of proxy records by key.
pub type RecordTable = DashMap<String, ProxyRecord>;

/// A table of xtcp proxies by name.
pub type XtcpTable = DashMap<String, XtcpProxyInfo>;

/// The records that a record table holds, by key.
pub uninterp spec fn records_of(t: RecordTable) -> Map<Seq<char>, ProxyRecord>;

/// The xtcp proxies that an xtcp table holds, by name.
pub uninterp spec fn xtcp_of(t: XtcpTable) -> Map<Seq<char>, XtcpProxyInfo>;

/// `DashMap::new`: an empty table.
#[verifier::external_body]
fn record_table_new() -> (t: RecordTable)
    ensures
        records_of(t).dom() == Set::<Seq<char>>::empty(),
{
    DashMap::new()
}

/// `DashMap::contains_key`.
#[verifier::external_body]
fn record_table_contains(t: &RecordTable, key: &str) -> (b: bool)
    ensures
        b == records_of(*t).contains_key(key@),
{
    t.contains_key(key)
}

/// `DashMap::insert`: `key` now maps to `rec`.
#[verifier::external_body]
fn record_table_insert(t: &mut RecordTable, key: String, rec: ProxyRecord)
    ensures
        records_of(*final(t)) == records_of(*old(t)).insert(key@, rec),
{
    t.insert(key, rec);
}

/// `DashMap::remove`: the record under `key` leaves the table, and is
/// handed back when there was one.
#[verifier::external_body]
fn record_table_remove(t: &mut RecordTable, key: &str) -> (r: Option<ProxyRecord>)
    ensures
        records_of(*final(t)) == records_of(*old(t)).remove(key@),
        r is Some <==> records_of(*old(t)).contains_key(key@),
        r matches Some(x) ==> x == records_of(*old(t))[key@],
{
    t.remove(key).map(|e| e.1)
}

/// `DashMap::iter`: every entry once, each with its key, in the order the
/// shards are walked (which is left open).
#[verifier::external_body]
fn record_table_entries(t: &RecordTable) -> (out: Vec<(String, ProxyRecord)>)
    ensures
        is_walk(records_of(*t), out@),
{
    t.iter().map(|e| (e.key().clone(), e.value().clone())).collect()
}

/// `DashMap::new`: an empty table.
#[verifier::external_body]
fn xtcp_table_new() -> (t: XtcpTable)
    ensures
        xtcp_of(t).dom() == Set::<Seq<char>>::empty(),
{
    DashMap::new()
}

/// `DashMap::contains_key`.
#[verifier::external_body]
fn xtcp_table_contains(t: &XtcpTable, name: &str) -> (b: bool)
    ensures
        b == xtcp_of(*t).contains_key(name@),
{
    t.contains_key(name)
}

/// `DashMap::insert`: `name` now maps to `info`.
#[verifier::external_body]
fn xtcp_table_insert(t: &mut XtcpTable, name: String, info: XtcpProxyInfo)
    ensures
        xtcp_of(*final(t)) == xtcp_of(*old(t)).insert(name@, info),
{
    t.insert(name, info);
}

/// `DashMap::get`, cloned: the entry under `name`, if any.
#[verifier::external_body]
fn xtcp_table_get(t: &XtcpTable, name: &str) -> (r: Option<XtcpProxyInfo>)
    ensures
        r is Some <==> xtcp_of(*t).contains_key(name@),
        r matches Some(x) ==> x == xtcp_of(*t)[name@],
{
    t.get(name).map(|e| e.value().clone())
}

/// `DashMap::remove`.
#[verifier::external_body]
fn xtcp_table_remove(t: &mut XtcpTable, name: &str)
    ensures
        xtcp_of(*final(t)) == xtcp_of(*old(t)).remove(name@),
{
    t.remove(name);
}

/// `w` lists the entries of `m`: each entry of `w` is one of `m`, no key
/// comes twice, and every key of `m` comes.
pub open spec fn is_walk<V>(m: Map<Seq<char>, V>, w: Seq<(String, V)>) -> bool {
    &&& forall|i: int|
        0 <= i < w.len() ==> m.contains_key(#[trigger] w[i].0@) && m[w[i].0@] == w[i].1
    &&& forall|i: int, j: int|
        0 <= i < w.len() && 0 <= j < w.len() && i != j ==> #[trigger] w[i].0@ != #[trigger] w[j].0@
    &&& forall|k: Seq<char>|
        #[trigger] m.contains_key(k) ==> exists|i: int| 0 <= i < w.len() && #[trigger] w[i].0@ == k
}

/// The order of the proxy listing: by name, then by run id.
pub open spec fn record_lt(a: ProxyRecord, b: ProxyRecord) -> bool {
    seq_lt(a.proxy_name@, b.proxy_name@) || (a.proxy_name@ == b.proxy_name@ && seq_lt(
        a.run_id@,
        b.run_id@,
    ))
}

/// `s` is in listing order.
pub open spec fn records_sorted(s: Seq<ProxyRecord>) -> bool {
    forall|i: int, j: int| 0 <= i < j < s.len() ==> !record_lt(#[trigger] s[j], #[trigger] s[i])
}

proof fn lemma_record_lt_transitive(a: ProxyRecord, b: ProxyRecord, c: ProxyRecord)
    requires
        record_lt(a, b),
        record_lt(b, c),
    ensures
        record_lt(a, c),
{
    if seq_lt(a.proxy_name@, b.proxy_name@) && seq_lt(b.proxy_name@, c.proxy_name@) {
        lemma_seq_lt_transitive(a.proxy_name@, b.proxy_name@, c.proxy_name@);
    }
    if a.proxy_name@ == b.proxy_name@ && b.proxy_name@ == c.proxy_name@ && seq_lt(a.run_id@, b.run_id@)
        && seq_lt(b.run_id@, c.run_id@) {
        lemma_seq_lt_transitive(a.run_id@, b.run_id@, c.run_id@);
    }
}

proof fn lemma_record_lt_irreflexive(a: ProxyRecord)
    ensures
        !record_lt(a, a),
{
    crate::text::lemma_seq_lt_irreflexive(a.proxy_name@);
    crate::text::lemma_seq_lt_irreflexive(a.run_id@);
}

fn record_less(a: &ProxyRecord, b: &ProxyRecord) -> (r: bool)
    ensures
        r == record_lt(*a, *b),
{
    if str_lt(a.proxy_name.as_str(), b.proxy_name.as_str()) {
        true
    } else if str_eq(a.proxy_name.as_str(), b.proxy_name.as_str()) {
        str_lt(a.run_id.as_str(), b.run_id.as_str())
    } else {
        false
    }
}

/// The records of `v` in listing order.
pub fn sort_records(v: Vec<ProxyRecord>) -> (out: Vec<ProxyRecord>)
    ensures
        out@.to_multiset() == v@.to_multiset(),
        records_sorted(out@),
{
    broadcast use vstd::seq_lib::group_to_multiset_ensures, vstd::multiset::group_multiset_axioms;
    broadcast use vstd::seq_lib::to_multiset_insert;

    let mut rest = v;
    let mut out: Vec<ProxyRecord> = Vec::new();
    assert(out@.to_multiset() =~= Multiset::empty());
    assert(Multiset::<ProxyRecord>::empty().add(rest@.to_multiset()) =~= rest@.to_multiset());
    while rest.len() > 0
        invariant
            out@.to_multiset().add(rest@.to_multiset()) == v@.to_multiset(),
            records_sorted(out@),
        decreases rest.len(),
    {
        let ghost before_rest = rest@;
        let x = rest.pop().unwrap();
        assert(before_rest == rest@.push(x));
        let mut p: usize = 0;
        while p < out.len() && !record_less(&x, &out[p])
            invariant
                p <= out.len(),
                forall|k: int| 0 <= k < p ==> !record_lt(x, #[trigger] out@[k]),
            decreases out.len() - p,
        {
            p = p + 1;
        }
        let ghost before = out@;
        out.insert(p, x);
        proof {
            assert(out@ == before.insert(p as int, x));
            vstd::seq_lib::to_multiset_insert(before, p as int, x);
            vstd::seq_lib::to_multiset_build(rest@, x);
            assert(out@.to_multiset() =~= before.to_multiset().insert(x));
            assert(before_rest.to_multiset() =~= rest@.to_multiset().insert(x));
            assert(out@.to_multiset().add(rest@.to_multiset()) =~= before.to_multiset().add(
                before_rest.to_multiset(),
            ));
            assert forall|i: int, j: int| 0 <= i < j < out@.len() implies !record_lt(
                #[trigger] out@[j],
                #[trigger] out@[i],
            ) by {
                if j < p {
                    assert(out@[i] == before[i] && out@[j] == before[j]);
                } else if j == p {
                    assert(out@[i] == before[i]);
                } else if i == p {
                    assert(out@[j] == before[j - 1]);
                    assert(record_lt(x, before[p as int]));
                    if j - 1 > p {
                        assert(!record_lt(before[j - 1], before[p as int]));
                    }
                    if record_lt(before[j - 1], x) {
                        lemma_record_lt_transitive(before[j - 1], x, before[p as int]);
                        lemma_record_lt_irreflexive(before[p as int]);
                    }
                } else if i < p {
                    assert(out@[i] == before[i] && out@[j] == before[j - 1]);
                } else {
                    assert(out@[i] == before[i - 1] && out@[j] == before[j - 1]);
                }
            }
        }
    }
    assert(rest@.to_multiset().len() == 0);
    assert(rest@.to_multiset() =~= Multiset::empty());
    assert(out@.to_multiset().add(Multiset::empty()) =~= out@.to_multiset());
    out
}

/// How many of `s` have proxy type `t`.
pub open spec fn type_count(s: Seq<ProxyRecord>, t: Seq<char>) -> nat
    decreases s.len(),
{
    if s.len() == 0 {
        0
    } else {
        type_count(s.drop_last(), t) + if s.last().proxy_type@ == t {
            1nat
        } else {
            0nat
        }
    }
}

/// Some entry of `counts` is for type `t`.
pub open spec fn type_listed(counts: Seq<(String, usize)>, t: Seq<char>) -> bool {
    exists|i: int| 0 <= i < counts.len() && #[trigger] counts[i].0@ == t
}

/// `counts` holds each type of `s` once, in order, with how many of `s`
/// have it.
pub open spec fn counts_by_type(s: Seq<ProxyRecord>, counts: Seq<(String, usize)>) -> bool {
    &&& forall|i: int, j: int|
        0 <= i < j < counts.len() ==> seq_lt(#[trigger] counts[i].0@, #[trigger] counts[j].0@)
    &&& forall|i: int| 0 <= i < counts.len() ==> #[trigger] counts[i].1 == type_count(s, counts[i].0@)
        && counts[i].1 > 0
    &&& forall|k: int| 0 <= k < s.len() ==> type_listed(counts, #[trigger] s[k].proxy_type@)
}

/// Counts the records of `s` by proxy type, the types in order.
pub fn count_types(s: &Vec<ProxyRecord>) -> (counts: Vec<(String, usize)>)
    ensures
        counts_by_type(s@, counts@),
{
    let mut counts: Vec<(String, usize)> = Vec::new();
    let mut n: usize = 0;
    while n < s.len()
        invariant
            n <= s.len(),
            forall|i: int, j: int|
                0 <= i < j < counts@.len() ==> seq_lt(#[trigger] counts@[i].0@, #[trigger] counts@[j].0@),
            forall|i: int|
                0 <= i < counts@.len() ==> #[trigger] counts@[i].1 == type_count(
                    s@.take(n as int),
                    counts@[i].0@,
                ) && counts@[i].1 > 0,
            forall|k: int| 0 <= k < n ==> type_listed(counts@, #[trigger] s@[k].proxy_type@),
            forall|t: Seq<char>|
                #[trigger] type_count(s@.take(n as int), t) > 0 ==> type_listed(counts@, t),
        decreases s.len() - n,
    {
        let t = &s[n].proxy_type;
        let ghost prefix = s@.take(n as int);
        let ghost next = s@.take(n + 1);
        assert(next.drop_last() =~= prefix);
        assert(next.last() == s@[n as int]);
        let mut p: usize = 0;
        while p < counts.len() && str_lt(counts[p].0.as_str(), t.as_str())
            invariant
                p <= counts@.len(),
                forall|k: int| 0 <= k < p ==> seq_lt(#[trigger] counts@[k].0@, t@),
            decreases counts.len() - p,
        {
            p = p + 1;
        }
        if p < counts.len() && str_eq(counts[p].0.as_str(), t.as_str()) {
            let c = counts[p].1;
            assert(c == type_count(prefix, t@));
            assert(c <= n) by {
                lemma_type_count_le(prefix, t@);
            }
            let ghost before = counts@;
            let name = string_from(counts[p].0.as_str());
            counts.set(p, (name, c + 1));
            proof {
                assert forall|i: int| 0 <= i < counts@.len() implies #[trigger] counts@[i].1
                    == type_count(next, counts@[i].0@) && counts@[i].1 > 0 by {
                    if i != p {
                        assert(counts@[i] == before[i]);
                        if before[i].0@ == t@ {
                            if i < p {
                                crate::text::lemma_seq_lt_irreflexive(t@);
                            } else {
                                assert(seq_lt(before[p as int].0@, before[i].0@));
                                crate::text::lemma_seq_lt_irreflexive(t@);
                            }
                        }
                    }
                }
                assert forall|k: int| 0 <= k < n + 1 implies type_listed(
                    counts@,
                    #[trigger] s@[k].proxy_type@,
                ) by {
                    if k == n {
                        assert(counts@[p as int].0@ == s@[k].proxy_type@);
                    } else {
                        assert(type_listed(before, s@[k].proxy_type@));
                        let i = choose|i: int|
                            0 <= i < before.len() && #[trigger] before[i].0@ == s@[k].proxy_type@;
                        assert(counts@[i].0@ == before[i].0@);
                    }
                }
                assert forall|u: Seq<char>| #[trigger] type_count(next, u) > 0 implies type_listed(
                    counts@,
                    u,
                ) by {
                    if u == t@ {
                        assert(counts@[p as int].0@ == u);
                    } else {
                        assert(type_count(next, u) == type_count(prefix, u));
                        assert(type_listed(before, u));
                        let i = choose|i: int| 0 <= i < before.len() && #[trigger] before[i].0@ == u;
                        assert(counts@[i].0@ == before[i].0@);
                    }
                }
            }
        } else {
            let ghost before = counts@;
            proof {
                if type_count(prefix, t@) > 0 {
                    assert(type_listed(before, t@));
                    let i = choose|i: int| 0 <= i < before.len() && #[trigger] before[i].0@ == t@;
                    if i < p {
                        crate::text::lemma_seq_lt_irreflexive(t@);
                    } else if i > p {
                        assert(p < before.len());
                        crate::text::lemma_seq_lt_total(before[p as int].0@, t@);
                        assert(seq_lt(t@, before[p as int].0@));
                        assert(seq_lt(before[p as int].0@, before[i].0@));
                        lemma_seq_lt_transitive(t@, before[p as int].0@, t@);
                        crate::text::lemma_seq_lt_irreflexive(t@);
                    }
                }
                assert(type_count(prefix, t@) == 0);
                if p < before.len() {
                    crate::text::lemma_seq_lt_total(before[p as int].0@, t@);
                }
            }
            let name = string_from(t.as_str());
            counts.insert(p, (name, 1));
            proof {
                assert forall|i: int, j: int| 0 <= i < j < counts@.len() implies seq_lt(
                    #[trigger] counts@[i].0@,
                    #[trigger] counts@[j].0@,
                ) by {
                    if j < p {
                        assert(counts@[i] == before[i] && counts@[j] == before[j]);
                    } else if j == p {
                        assert(counts@[i] == before[i]);
                    } else if i == p {
                        assert(counts@[j] == before[j - 1]);
                        if j - 1 > p {
                            lemma_seq_lt_transitive(t@, before[p as int].0@, before[j - 1].0@);
                        }
                    } else if i < p {
                        assert(counts@[i] == before[i] && counts@[j] == before[j - 1]);
                    } else {
                        assert(counts@[i] == before[i - 1] && counts@[j] == before[j - 1]);
                    }
                }
                assert forall|i: int| 0 <= i < counts@.len() implies #[trigger] counts@[i].1
                    == type_count(next, counts@[i].0@) && counts@[i].1 > 0 by {
                    if i < p {
                        assert(counts@[i] == before[i]);
                        if before[i].0@ == t@ {
                            crate::text::lemma_seq_lt_irreflexive(t@);
                        }
                    } else if i > p {
                        assert(counts@[i] == before[i - 1]);
                        if before[i - 1].0@ == t@ {
                            if i - 1 > p {
                                lemma_seq_lt_transitive(t@, before[p as int].0@, t@);
                            }
                            crate::text::lemma_seq_lt_irreflexive(t@);
                        }
                    }
                }
                assert forall|k: int| 0 <= k < n + 1 implies type_listed(
                    counts@,
                    #[trigger] s@[k].proxy_type@,
                ) by {
                    if k == n {
                        assert(counts@[p as int].0@ == s@[k].proxy_type@);
                    } else {
                        assert(type_listed(before, s@[k].proxy_type@));
                        let i = choose|i: int|
                            0 <= i < before.len() && #[trigger] before[i].0@ == s@[k].proxy_type@;
                        if i < p {
                            assert(counts@[i].0@ == before[i].0@);
                        } else {
                            assert(counts@[i + 1].0@ == before[i].0@);
                        }
                    }
                }
                assert forall|u: Seq<char>| #[trigger] type_count(next, u) > 0 implies type_listed(
                    counts@,
                    u,
                ) by {
                    if u == t@ {
                        assert(counts@[p as int].0@ == u);
                    } else {
                        assert(type_count(next, u) == type_count(prefix, u));
                        assert(type_listed(before, u));
                        let i = choose|i: int| 0 <= i < before.len() && #[trigger] before[i].0@ == u;
                        if i < p {
                            assert(counts@[i].0@ == before[i].0@);
                        } else {
                            assert(counts@[i + 1].0@ == before[i].0@);
                        }
                    }
                }
            }
        }
        n = n + 1;
    }
    assert(s@.take(n as int) =~= s@);
    assert(forall|i: int| 0 <= i < counts@.len() ==> #[trigger] counts@[i].1 == type_count(s@, counts@[i].0@));
    counts
}

proof fn lemma_type_count_le(s: Seq<ProxyRecord>, t: Seq<char>)
    ensures
        type_count(s, t) <= s.len(),
    decreases s.len(),
{
    if s.len() > 0 {
        lemma_type_count_le(s.drop_last(), t);
    }
}

/// The records of a walk, in its order.
pub open spec fn walk_values(w: Seq<(String, ProxyRecord)>) -> Seq<ProxyRecord> {
    w.map_values(|e: (String, ProxyRecord)| e.1)
}

/// The key of `w`'s `i`-th entry.
pub open spec fn walk_key<V>(w: Seq<(String, V)>, i: int) -> Seq<char> {
    w[i].0@
}

/// The records of a walk, moved out in order.
fn walk_into_values(w: Vec<(String, ProxyRecord)>) -> (v: Vec<ProxyRecord>)
    ensures
        v@ == walk_values(w@),
{
    let ghost walk = w@;
    let mut rest = w;
    let mut v: Vec<ProxyRecord> = Vec::new();
    let ghost mut i: int = 0;
    while rest.len() > 0
        invariant
            0 <= i <= walk.len(),
            rest@ == walk.skip(i),
            v@ == walk_values(walk.take(i)),
        decreases rest.len(),
    {
        let e = rest.remove(0);
        v.push(e.1);
        proof {
            assert(walk_values(walk.take(i + 1)) =~= walk_values(walk.take(i)).push(e.1));
            assert(rest@ =~= walk.skip(i + 1));
            i = i + 1;
        }
    }
    assert(walk.take(i) =~= walk);
    v
}

/// The part of a key before its first `:` (the whole key when it has none):
/// the run id of the proxy registered under it.
pub open spec fn run_of_key(key: Seq<char>) -> Seq<char> {
    match first_index(key, ':') {
        Some(i) => key.take(i),
        None => key,
    }
}

/// The run id in a proxy key.
pub fn owner_run_id(key: &str) -> (r: String)
    ensures
        r@ == run_of_key(key@),
{
    let v = chars_of(key);
    match find_char(&v, ':') {
        Some(i) => {
            assert(v@.subrange(0, i as int) =~= v@.take(i as int));
            string_of(&v, 0, i)
        },
        None => string_of(&v, 0, v.len()),
    }
}

/// The records of the server's registered proxies and of its xtcp proxies.
#[derive(Debug)]
pub struct ProxyDirectory {
    records: RecordTable,
    xtcp: XtcpTable,
}

impl ProxyDirectory {
    /// The records, by key `run_id:proxy_name`.
    pub closed spec fn records(&self) -> Map<Seq<char>, ProxyRecord> {
        records_of(self.records)
    }

    /// The xtcp proxies, by name.
    pub closed spec fn xtcp_proxies(&self) -> Map<Seq<char>, XtcpProxyInfo> {
        xtcp_of(self.xtcp)
    }

    /// An empty directory.
    pub fn new() -> (d: Self)
        ensures
            d.records().dom() == Set::<Seq<char>>::empty(),
            d.xtcp_proxies().dom() == Set::<Seq<char>>::empty(),
    {
        ProxyDirectory { records: record_table_new(), xtcp: xtcp_table_new() }
    }

    /// A proxy is registered under `key`.
    pub fn contains_key(&self, key: &str) -> (b: bool)
        ensures
            b == self.records().contains_key(key@),
    {
        record_table_contains(&self.records, key)
    }

    /// Registers `rec` under `key`.
    pub fn add_record(&mut self, key: String, rec: ProxyRecord)
        ensures
            final(self).records() == old(self).records().insert(key@, rec),
            final(self).xtcp_proxies() == old(self).xtcp_proxies(),
    {
        record_table_insert(&mut self.records, key, rec)
    }

    /// Unregisters the proxy under `key`, handing back its record.
    pub fn remove_record(&mut self, key: &str) -> (r: Option<ProxyRecord>)
        ensures
            final(self).records() == old(self).records().remove(key@),
            final(self).xtcp_proxies() == old(self).xtcp_proxies(),
            r is Some <==> old(self).records().contains_key(key@),
            r matches Some(x) ==> x == old(self).records()[key@],
    {
        record_table_remove(&mut self.records, key)
    }

    /// An xtcp proxy named `name` is registered.
    pub fn xtcp_contains(&self, name: &str) -> (b: bool)
        ensures
            b == self.xtcp_proxies().contains_key(name@),
    {
        xtcp_table_contains(&self.xtcp, name)
    }

    /// Registers the xtcp proxy `name`.
    pub fn add_xtcp(&mut self, name: String, info: XtcpProxyInfo)
        ensures
            final(self).xtcp_proxies() == old(self).xtcp_proxies().insert(name@, info),
            final(self).records() == old(self).records(),
    {
        xtcp_table_insert(&mut self.xtcp, name, info)
    }

    /// Unregisters the xtcp proxy `name`.
    pub fn remove_xtcp(&mut self, name: &str)
        ensures
            final(self).xtcp_proxies() == old(self).xtcp_proxies().remove(name@),
            final(self).records() == old(self).records(),
    {
        xtcp_table_remove(&mut self.xtcp, name)
    }

    /// The owner, secret key and relay of the xtcp proxy `proxy_name`.
    pub fn get_xtcp_owner(&self, proxy_name: &str) -> (r: Option<XtcpProxyInfo>)
        ensures
            r is Some <==> self.xtcp_proxies().contains_key(proxy_name@),
            r matches Some(x) ==> x == self.xtcp_proxies()[proxy_name@],
    {
        xtcp_table_get(&self.xtcp, proxy_name)
    }

    /// How many proxies are registered.
    pub fn count(&self) -> (n: usize)
        ensures
            exists|w: Seq<(String, ProxyRecord)>| is_walk(self.records(), w) && n == w.len(),
    {
        let w = record_table_entries(&self.records);
        w.len()
    }

    /// The keys of the registered proxies, each once, in no fixed order.
    pub fn list_proxy_keys(&self) -> (out: Vec<String>)
        ensures
            exists|w: Seq<(String, ProxyRecord)>|
                is_walk(self.records(), w) && out@.len() == w.len() && forall|i: int|
                    0 <= i < w.len() ==> #[trigger] out@[i]@ == walk_key(w, i),
    {
        let w = record_table_entries(&self.records);
        let mut out: Vec<String> = Vec::new();
        let mut i: usize = 0;
        while i < w.len()
            invariant
                i <= w.len(),
                out@.len() == i,
                forall|k: int| 0 <= k < i ==> #[trigger] out@[k]@ == walk_key(w@, k),
            decreases w.len() - i,
        {
            out.push(string_from(w[i].0.as_str()));
            i = i + 1;
        }
        assert(is_walk(self.records(), w@));
        assert(forall|k: int| 0 <= k < w@.len() ==> #[trigger] out@[k]@ == walk_key(w@, k));
        out
    }

    /// The records of the registered proxies, by name and then run id.
    pub fn list_records(&self) -> (out: Vec<ProxyRecord>)
        ensures
            records_sorted(out@),
            exists|w: Seq<(String, ProxyRecord)>|
                is_walk(self.records(), w) && out@.to_multiset() == #[trigger] walk_values(w).to_multiset(),
    {
        let mut w = record_table_entries(&self.records);
        let ghost walk = w@;
        let ghost values = walk_values(walk);
        let mut items: Vec<ProxyRecord> = Vec::new();
        proof {
            broadcast use vstd::seq_lib::group_to_multiset_ensures, vstd::multiset::group_multiset_axioms;

            assert(items@.to_multiset() =~= Multiset::empty());
        }
        while w.len() > 0
            invariant
                w@.len() <= walk.len(),
                w@ == walk.take(w@.len() as int),
                items@.to_multiset().add(
                    walk_values(w@).to_multiset(),
                ) == values.to_multiset(),
            decreases w.len(),
        {
            let ghost before = w@;
            let e = w.pop().unwrap();
            let ghost items_before = items@;
            items.push(e.1);
            proof {
                broadcast use vstd::seq_lib::group_to_multiset_ensures, vstd::multiset::group_multiset_axioms;

                assert(before == w@.push(e));
                assert(walk_values(before) =~= walk_values(w@).push(e.1));
                vstd::seq_lib::to_multiset_build(items_before, e.1);
                vstd::seq_lib::to_multiset_build(
                    walk_values(w@),
                    e.1,
                );
                assert(w@ =~= walk.take(w@.len() as int));
                assert(items@.to_multiset().add(
                    walk_values(w@).to_multiset(),
                ) =~= items_before.to_multiset().add(
                    walk_values(before).to_multiset(),
                ));
            }
        }
        proof {
            broadcast use vstd::seq_lib::group_to_multiset_ensures, vstd::multiset::group_multiset_axioms;

            assert(walk_values(w@).to_multiset() =~= Multiset::empty());
            assert(items@.to_multiset() =~= values.to_multiset());
        }
        sort_records(items)
    }
}

impl ProxyDirectory {
    /// The record of some registered proxy named `proxy_name` (the first
    /// that the table walk meets), if there is one.
    pub fn get_record(&self, proxy_name: &str) -> (r: Option<ProxyRecord>)
        ensures
            r matches Some(x) ==> x.proxy_name@ == proxy_name@ && exists|k: Seq<char>|
                #[trigger] self.records().contains_key(k) && self.records()[k] == x,
            r is None ==> forall|k: Seq<char>|
                #[trigger] self.records().contains_key(k) ==> self.records()[k].proxy_name@
                    != proxy_name@,
    {
        let mut w = record_table_entries(&self.records);
        let ghost walk = w@;
        let mut i: usize = 0;
        while i < w.len()
            invariant
                i <= w.len(),
                w@ == walk,
                is_walk(self.records(), walk),
                forall|k: int| 0 <= k < i ==> (#[trigger] walk[k]).1.proxy_name@ != proxy_name@,
            decreases w.len() - i,
        {
            if str_eq(w[i].1.proxy_name.as_str(), proxy_name) {
                let e = w.remove(i);
                assert(self.records().contains_key(walk[i as int].0@));
                return Some(e.1);
            }
            i = i + 1;
        }
        assert forall|k: Seq<char>| #[trigger] self.records().contains_key(k) implies self.records()[k].proxy_name@
            != proxy_name@ by {
            let j = choose|j: int| 0 <= j < walk.len() && #[trigger] walk[j].0@ == k;
            assert(walk[j].1 == self.records()[walk[j].0@]);
        }
        None
    }

    /// The registered proxies counted by type, the types in order.
    pub fn count_by_type(&self) -> (counts: Vec<(String, usize)>)
        ensures
            exists|w: Seq<(String, ProxyRecord)>|
                is_walk(self.records(), w) && counts_by_type(#[trigger] walk_values(w), counts@),
    {
        let w = record_table_entries(&self.records);
        let ghost walk = w@;
        let values = walk_into_values(w);
        assert(is_walk(self.records(), walk));
        count_types(&values)
    }

    /// The keys of the proxies that run `run_id` registered (those that start
    /// with `run_id:`), each once.
    pub fn keys_of_run(&self, run_id: &str) -> (out: Vec<String>)
        ensures
            forall|i: int|
                0 <= i < out@.len() ==> self.records().contains_key(#[trigger] out@[i]@)
                    && has_prefix(out@[i]@, run_id@ + ":"@),
            forall|k: Seq<char>|
                #[trigger] self.records().contains_key(k) && has_prefix(k, run_id@ + ":"@)
                    ==> exists|i: int| 0 <= i < out@.len() && #[trigger] out@[i]@ == k,
            forall|i: int, j: int|
                0 <= i < out@.len() && 0 <= j < out@.len() && i != j ==> #[trigger] out@[i]@
                    != #[trigger] out@[j]@,
    {
        let prefix = cat2(run_id, ":");
        let w = record_table_entries(&self.records);
        let ghost walk = w@;
        let mut out: Vec<String> = Vec::new();
        let ghost mut from: Seq<int> = Seq::empty();
        let mut i: usize = 0;
        while i < w.len()
            invariant
                i <= w.len(),
                w@ == walk,
                prefix@ == run_id@ + ":"@,
                is_walk(self.records(), walk),
                from.len() == out@.len(),
                forall|m: int| 0 <= m < out@.len() ==> 0 <= #[trigger] from[m] < i && out@[m]@ == walk[from[m]].0@,
                forall|m: int, n: int| 0 <= m < n < out@.len() ==> #[trigger] from[m] < #[trigger] from[n],
                forall|m: int|
                    0 <= m < out@.len() ==> self.records().contains_key(#[trigger] out@[m]@)
                        && has_prefix(out@[m]@, prefix@),
                forall|k: int|
                    0 <= k < i && has_prefix(#[trigger] walk[k].0@, prefix@) ==> exists|m: int|
                        0 <= m < out@.len() && #[trigger] out@[m]@ == walk[k].0@,
            decreases w.len() - i,
        {
            let ghost before = out@;
            if starts_with(w[i].0.as_str(), prefix.as_str()) {
                out.push(string_from(w[i].0.as_str()));
                proof {
                    from = from.push(i as int);
                    assert(out@[out@.len() - 1]@ == walk[i as int].0@);
                }
            }
            proof {
                assert forall|k: int|
                    0 <= k < i + 1 && has_prefix(#[trigger] walk[k].0@, prefix@) implies exists|m: int|
                    0 <= m < out@.len() && #[trigger] out@[m]@ == walk[k].0@ by {
                    if k < i {
                        let m = choose|m: int| 0 <= m < before.len() && #[trigger] before[m]@ == walk[k].0@;
                        assert(out@[m] == before[m]);
                    } else {
                        assert(out@[out@.len() - 1]@ == walk[i as int].0@);
                    }
                }
            }
            i = i + 1;
        }
        proof {
            assert forall|k: Seq<char>| #[trigger] self.records().contains_key(k) && has_prefix(
                k,
                run_id@ + ":"@,
            ) implies exists|m: int| 0 <= m < out@.len() && #[trigger] out@[m]@ == k by {
                let j = choose|j: int| 0 <= j < walk.len() && #[trigger] walk[j].0@ == k;
                assert(has_prefix(walk[j].0@, prefix@));
            }
            assert forall|m: int, n: int|
                0 <= m < out@.len() && 0 <= n < out@.len() && m != n implies #[trigger] out@[m]@
                != #[trigger] out@[n]@ by {
                if m < n {
                    assert(from[m] < from[n]);
                } else {
                    assert(from[n] < from[m]);
                }
            }
        }
        out
    }

    /// The key of some registered proxy named `proxy_name`, from any run
    /// (the first key ending in `:proxy_name` that the table walk meets).
    pub fn find_key_by_name(&self, proxy_name: &str) -> (r: Option<String>)
        ensures
            r matches Some(k) ==> self.records().contains_key(k@) && has_suffix(
                k@,
                ":"@ + proxy_name@,
            ),
            r is None ==> forall|k: Seq<char>|
                #[trigger] self.records().contains_key(k) ==> !has_suffix(k, ":"@ + proxy_name@),
    {
        let suffix = cat2(":", proxy_name);
        let w = record_table_entries(&self.records);
        let ghost walk = w@;
        let mut i: usize = 0;
        while i < w.len()
            invariant
                i <= w.len(),
                w@ == walk,
                suffix@ == ":"@ + proxy_name@,
                is_walk(self.records(), walk),
                forall|k: int| 0 <= k < i ==> !has_suffix(#[trigger] walk[k].0@, suffix@),
            decreases w.len() - i,
        {
            if ends_with(w[i].0.as_str(), suffix.as_str()) {
                assert(self.records().contains_key(walk[i as int].0@));
                return Some(string_from(w[i].0.as_str()));
            }
            i = i + 1;
        }
        assert forall|k: Seq<char>| #[trigger] self.records().contains_key(k) implies !has_suffix(
            k,
            ":"@ + proxy_name@,
        ) by {
            let j = choose|j: int| 0 <= j < walk.len() && #[trigger] walk[j].0@ == k;
            assert(!has_suffix(walk[j].0@, suffix@));
        }
        None
    }
}

} // verus!
