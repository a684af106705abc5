//! The server's counters: totals of connections, bytes and failures, and
//! per-proxy traffic figures. Counters wrap around at 2^64, as atomic
//! additions do.
use vstd::prelude::*;
use dashmap::DashMap;
use vstd::multiset::Multiset;
use crate::text::{seq_lt, str_lt, lemma_seq_lt_transitive, lemma_seq_lt_irreflexive};

verus! {

/// `a + b` modulo 2^64.
pub open spec fn wrap_add(a: u64, b: u64) -> u64 {
    if a + b > u64::MAX {
        (a + b - 0x1_0000_0000_0000_0000) as u64
    } else {
        (a + b) as u64
    }
}

/// The server-wide counters.
#[derive(Clone, Copy, Debug)]
pub struct Metrics {
    pub incoming_connections_total: u64,
    pub work_connections_total: u64,
    pub tcp_proxy_connections_total: u64,
    pub tcp_proxy_errors_total: u64,
    pub tcp_mux_streams_opened_total: u64,
    pub tcp_bytes_in_total: u64,
    pub tcp_bytes_out_total: u64,
    pub auth_failures_total: u64,
    pub proxy_registrations_total: u64,
    pub proxy_registration_failures_total: u64,
    pub req_work_conn_total: u64,
    pub idle_work_conn_hits_total: u64,
    pub xtcp_visitor_requests_total: u64,
    pub xtcp_sk_mismatch_total: u64,
    pub xtcp_owner_not_found_total: u64,
    pub xtcp_owner_offline_total: u64,
    pub xtcp_owner_requests_forwarded_total: u64,
    pub xtcp_responses_forwarded_total: u64,
}

impl Default for Metrics {
    /// All counters at zero.
    fn default() -> (m: Metrics)
        ensures
            m.incoming_connections_total == 0,
            m.work_connections_total == 0,
            m.tcp_proxy_connections_total == 0,
            m.tcp_proxy_errors_total == 0,
            m.tcp_mux_streams_opened_total == 0,
            m.tcp_bytes_in_total == 0,
            m.tcp_bytes_out_total == 0,
            m.auth_failures_total == 0,
            m.proxy_registrations_total == 0,
            m.proxy_registration_failures_total == 0,
            m.req_work_conn_total == 0,
            m.idle_work_conn_hits_total == 0,
            m.xtcp_visitor_requests_total == 0,
            m.xtcp_sk_mismatch_total == 0,
            m.xtcp_owner_not_found_total == 0,
            m.xtcp_owner_offline_total == 0,
            m.xtcp_owner_requests_forwarded_total == 0,
            m.xtcp_responses_forwarded_total == 0,
    {
        Metrics {
            incoming_connections_total: 0,
            work_connections_total: 0,
            tcp_proxy_connections_total: 0,
            tcp_proxy_errors_total: 0,
            tcp_mux_streams_opened_total: 0,
            tcp_bytes_in_total: 0,
            tcp_bytes_out_total: 0,
            auth_failures_total: 0,
            proxy_registrations_total: 0,
            proxy_registration_failures_total: 0,
            req_work_conn_total: 0,
            idle_work_conn_hits_total: 0,
            xtcp_visitor_requests_total: 0,
            xtcp_sk_mismatch_total: 0,
            xtcp_owner_not_found_total: 0,
            xtcp_owner_offline_total: 0,
            xtcp_owner_requests_forwarded_total: 0,
            xtcp_responses_forwarded_total: 0,
        }
    }
}

/// Counts an accepted client connection.
pub fn inc_incoming_connections(m: &mut Metrics)
    ensures
        *final(m) == (Metrics { incoming_connections_total: wrap_add(old(m).incoming_connections_total, 1), ..*old(m) }),
{
    m.incoming_connections_total = m.incoming_connections_total.wrapping_add(1);
}

/// Counts a work connection.
pub fn inc_work_connections(m: &mut Metrics)
    ensures
        *final(m) == (Metrics { work_connections_total: wrap_add(old(m).work_connections_total, 1), ..*old(m) }),
{
    m.work_connections_total = m.work_connections_total.wrapping_add(1);
}

/// Counts a TCP proxy connection.
pub fn inc_tcp_proxy_connections(m: &mut Metrics)
    ensures
        *final(m) == (Metrics { tcp_proxy_connections_total: wrap_add(old(m).tcp_proxy_connections_total, 1), ..*old(m) }),
{
    m.tcp_proxy_connections_total = m.tcp_proxy_connections_total.wrapping_add(1);
}

/// Counts a TCP proxy error.
pub fn inc_tcp_proxy_errors(m: &mut Metrics)
    ensures
        *final(m) == (Metrics { tcp_proxy_errors_total: wrap_add(old(m).tcp_proxy_errors_total, 1), ..*old(m) }),
{
    m.tcp_proxy_errors_total = m.tcp_proxy_errors_total.wrapping_add(1);
}

/// Counts an opened TCP mux stream.
pub fn inc_tcp_mux_streams(m: &mut Metrics)
    ensures
        *final(m) == (Metrics { tcp_mux_streams_opened_total: wrap_add(old(m).tcp_mux_streams_opened_total, 1), ..*old(m) }),
{
    m.tcp_mux_streams_opened_total = m.tcp_mux_streams_opened_total.wrapping_add(1);
}

/// Adds `v` bytes received from TCP proxy peers.
pub fn add_tcp_bytes_in(m: &mut Metrics, v: u64)
    ensures
        *final(m) == (Metrics { tcp_bytes_in_total: wrap_add(old(m).tcp_bytes_in_total, v), ..*old(m) }),
{
    m.tcp_bytes_in_total = m.tcp_bytes_in_total.wrapping_add(v);
}

/// Adds `v` bytes sent to TCP proxy peers.
pub fn add_tcp_bytes_out(m: &mut Metrics, v: u64)
    ensures
        *final(m) == (Metrics { tcp_bytes_out_total: wrap_add(old(m).tcp_bytes_out_total, v), ..*old(m) }),
{
    m.tcp_bytes_out_total = m.tcp_bytes_out_total.wrapping_add(v);
}

/// Counts an authentication failure.
pub fn inc_auth_failures(m: &mut Metrics)
    ensures
        *final(m) == (Metrics { auth_failures_total: wrap_add(old(m).auth_failures_total, 1), ..*old(m) }),
{
    m.auth_failures_total = m.auth_failures_total.wrapping_add(1);
}

/// Counts a proxy registration.
pub fn inc_proxy_registrations(m: &mut Metrics)
    ensures
        *final(m) == (Metrics { proxy_registrations_total: wrap_add(old(m).proxy_registrations_total, 1), ..*old(m) }),
{
    m.proxy_registrations_total = m.proxy_registrations_total.wrapping_add(1);
}

/// Counts a failed proxy registration.
pub fn inc_proxy_registration_failures(m: &mut Metrics)
    ensures
        *final(m) == (Metrics { proxy_registration_failures_total: wrap_add(old(m).proxy_registration_failures_total, 1), ..*old(m) }),
{
    m.proxy_registration_failures_total = m.proxy_registration_failures_total.wrapping_add(1);
}

/// Counts a work connection request.
pub fn inc_req_work_conn(m: &mut Metrics)
    ensures
        *final(m) == (Metrics { req_work_conn_total: wrap_add(old(m).req_work_conn_total, 1), ..*old(m) }),
{
    m.req_work_conn_total = m.req_work_conn_total.wrapping_add(1);
}

/// Counts a request served by an idle work connection.
pub fn inc_idle_work_conn_hits(m: &mut Metrics)
    ensures
        *final(m) == (Metrics { idle_work_conn_hits_total: wrap_add(old(m).idle_work_conn_hits_total, 1), ..*old(m) }),
{
    m.idle_work_conn_hits_total = m.idle_work_conn_hits_total.wrapping_add(1);
}

/// Counts an XTCP visitor request.
pub fn inc_xtcp_visitor_requests(m: &mut Metrics)
    ensures
        *final(m) == (Metrics { xtcp_visitor_requests_total: wrap_add(old(m).xtcp_visitor_requests_total, 1), ..*old(m) }),
{
    m.xtcp_visitor_requests_total = m.xtcp_visitor_requests_total.wrapping_add(1);
}

/// Counts an XTCP secret-key mismatch.
pub fn inc_xtcp_sk_mismatch(m: &mut Metrics)
    ensures
        *final(m) == (Metrics { xtcp_sk_mismatch_total: wrap_add(old(m).xtcp_sk_mismatch_total, 1), ..*old(m) }),
{
    m.xtcp_sk_mismatch_total = m.xtcp_sk_mismatch_total.wrapping_add(1);
}

/// Counts an XTCP request for an unknown proxy.
pub fn inc_xtcp_owner_not_found(m: &mut Metrics)
    ensures
        *final(m) == (Metrics { xtcp_owner_not_found_total: wrap_add(old(m).xtcp_owner_not_found_total, 1), ..*old(m) }),
{
    m.xtcp_owner_not_found_total = m.xtcp_owner_not_found_total.wrapping_add(1);
}

/// Counts an XTCP request for an offline owner.
pub fn inc_xtcp_owner_offline(m: &mut Metrics)
    ensures
        *final(m) == (Metrics { xtcp_owner_offline_total: wrap_add(old(m).xtcp_owner_offline_total, 1), ..*old(m) }),
{
    m.xtcp_owner_offline_total = m.xtcp_owner_offline_total.wrapping_add(1);
}

/// Counts an XTCP request forwarded to its owner.
pub fn inc_xtcp_owner_requests_forwarded(m: &mut Metrics)
    ensures
        *final(m) == (Metrics { xtcp_owner_requests_forwarded_total: wrap_add(old(m).xtcp_owner_requests_forwarded_total, 1), ..*old(m) }),
{
    m.xtcp_owner_requests_forwarded_total = m.xtcp_owner_requests_forwarded_total.wrapping_add(1);
}

/// Counts an XTCP response forwarded to its visitor.
pub fn inc_xtcp_responses_forwarded(m: &mut Metrics)
    ensures
        *final(m) == (Metrics { xtcp_responses_forwarded_total: wrap_add(old(m).xtcp_responses_forwarded_total, 1), ..*old(m) }),
{
    m.xtcp_responses_forwarded_total = m.xtcp_responses_forwarded_total.wrapping_add(1);
}

// Per-proxy metrics.

/// Traffic figures of one proxy.
#[derive(Clone, Copy, Debug)]
pub struct ProxyMetrics {
    pub bytes_in: u64,
    pub bytes_out: u64,
    pub connections_total: u64,
    pub connections_active: i64,
    pub errors: u64,
}

/// The figures of a proxy that has seen no traffic.
pub open spec fn zero_proxy_metrics() -> ProxyMetrics {
    ProxyMetrics { bytes_in: 0, bytes_out: 0, connections_total: 0, connections_active: 0, errors: 0 }
}

impl ProxyMetrics {
    /// All figures at zero.
    pub fn new() -> (pm: Self)
        ensures
            pm == zero_proxy_metrics(),
    {
        ProxyMetrics { bytes_in: 0, bytes_out: 0, connections_total: 0, connections_active: 0, errors: 0 }
    }
}

/// A table of per-proxy figures, by proxy name.
pub type ProxyMetricsTable = DashMap<String, ProxyMetrics>;

/// The figures that a table holds, by proxy name.
pub uninterp spec fn proxy_metrics_of(t: ProxyMetricsTable) -> Map<Seq<char>, ProxyMetrics>;

/// `DashMap::new`: an empty table.
#[verifier::external_body]
fn proxy_table_new() -> (t: ProxyMetricsTable)
    ensures
        proxy_metrics_of(t).dom() == Set::<Seq<char>>::empty(),
{
    DashMap::new()
}

/// `DashMap::entry(..).or_insert_with(..)`: the figures under `name`,
/// inserted as new ones when the table had none.
#[verifier::external_body]
fn proxy_table_get_or_insert(t: &mut ProxyMetricsTable, name: &str) -> (pm: ProxyMetrics)
    ensures
        proxy_metrics_of(*old(t)).contains_key(name@) ==> pm == proxy_metrics_of(*old(t))[name@]
            && proxy_metrics_of(*final(t)) == proxy_metrics_of(*old(t)),
        !proxy_metrics_of(*old(t)).contains_key(name@) ==> pm == zero_proxy_metrics()
            && proxy_metrics_of(*final(t)) == proxy_metrics_of(*old(t)).insert(name@, pm),
{
    *t.entry(name.to_string()).or_insert_with(ProxyMetrics::new)
}

/// `DashMap::insert`: `name` now has the figures `pm`.
#[verifier::external_body]
fn proxy_table_insert(t: &mut ProxyMetricsTable, name: &str, pm: ProxyMetrics)
    ensures
        proxy_metrics_of(*final(t)) == proxy_metrics_of(*old(t)).insert(name@, pm),
{
    t.insert(name.to_string(), pm);
}

/// `DashMap::remove`: no figures under `name` any more.
#[verifier::external_body]
fn proxy_table_remove(t: &mut ProxyMetricsTable, name: &str)
    ensures
        proxy_metrics_of(*final(t)) == proxy_metrics_of(*old(t)).remove(name@),
{
    t.remove(name);
}

/// The entries of a table, in the order that `DashMap::iter` walks them.
/// Each entry of the table comes out once; which order they come in is
/// left open.
#[verifier::external_body]
fn proxy_table_entries(t: &ProxyMetricsTable) -> (out: Vec<(String, ProxyMetrics)>)
    ensures
        forall|i: int|
            0 <= i < out@.len() ==> proxy_metrics_of(*t).contains_key(#[trigger] out@[i].0@)
                && proxy_metrics_of(*t)[out@[i].0@] == out@[i].1,
        forall|i: int, j: int|
            0 <= i < out@.len() && 0 <= j < out@.len() && i != j ==> #[trigger] out@[i].0@
                != #[trigger] out@[j].0@,
        forall|k: Seq<char>|
            #[trigger] proxy_metrics_of(*t).contains_key(k) ==> exists|i: int|
                0 <= i < out@.len() && #[trigger] out@[i].0@ == k,
{
    t.iter().map(|e| (e.key().clone(), *e.value())).collect()
}

/// The per-proxy figures of a server, by proxy name.
#[derive(Debug)]
pub struct ProxyMetricsRegistry {
    table: ProxyMetricsTable,
}

impl ProxyMetricsRegistry {
    /// The figures held, by proxy name.
    pub closed spec fn view(&self) -> Map<Seq<char>, ProxyMetrics> {
        proxy_metrics_of(self.table)
    }

    /// A registry with no proxy.
    pub fn new() -> (r: Self)
        ensures
            r.view().dom() == Set::<Seq<char>>::empty(),
    {
        ProxyMetricsRegistry { table: proxy_table_new() }
    }
}

/// The names a registry holds after one call: `(true, n)` stands for
/// `get_or_create_proxy_metrics(n)`, `(false, n)` for
/// `remove_proxy_metrics(n)`.
pub open spec fn names_after(names: Set<Seq<char>>, call: (bool, Seq<char>)) -> Set<Seq<char>> {
    if call.0 {
        names.insert(call.1)
    } else {
        names.remove(call.1)
    }
}

/// Name `n` was created by one of `calls` and not removed since.
pub open spec fn live_after(calls: Seq<(bool, Seq<char>)>, n: Seq<char>) -> bool {
    exists|i: int|
        0 <= i < calls.len() && #[trigger] calls[i] == (true, n) && forall|j: int|
            i < j < calls.len() ==> #[trigger] calls[j] != (false, n)
}

/// Law: a registry that starts empty and then sees the calls `calls` (its
/// name sets in turn being `names`) holds exactly the names that were
/// created and not removed since; `list_proxy_metrics` lists each of them
/// once.
pub proof fn law_registry_history(calls: Seq<(bool, Seq<char>)>, names: Seq<Set<Seq<char>>>)
    requires
        names.len() == calls.len() + 1,
        names[0] == Set::<Seq<char>>::empty(),
        forall|i: int| 0 <= i < calls.len() ==> #[trigger] names[i + 1] == names_after(names[i], calls[i]),
    ensures
        forall|n: Seq<char>| #[trigger] names.last().contains(n) <==> live_after(calls, n),
    decreases calls.len(),
{
    if calls.len() > 0 {
        let pc = calls.drop_last();
        let pn = names.drop_last();
        assert forall|i: int| 0 <= i < pc.len() implies #[trigger] pn[i + 1] == names_after(pn[i], pc[i]) by {
            assert(names[i + 1] == names_after(names[i], calls[i]));
        }
        law_registry_history(pc, pn);
        let k = calls.len() - 1;
        assert(names.last() == names_after(names[k], calls[k]));
        assert(pn.last() == names[k]);
        assert forall|n: Seq<char>| #[trigger] names.last().contains(n) <==> live_after(calls, n) by {
            if calls[k] == (true, n) {
                assert(names.last().contains(n));
                assert(live_after(calls, n)) by {
                    assert(calls[k] == (true, n));
                }
            } else if calls[k] == (false, n) {
                assert(!names.last().contains(n));
                if live_after(calls, n) {
                    let i = choose|i: int|
                        0 <= i < calls.len() && #[trigger] calls[i] == (true, n) && forall|j: int|
                            i < j < calls.len() ==> #[trigger] calls[j] != (false, n);
                    assert(i != k);
                    assert(calls[k] != (false, n));
                }
            } else {
                assert(names.last().contains(n) == pn.last().contains(n));
                if live_after(calls, n) {
                    let i = choose|i: int|
                        0 <= i < calls.len() && #[trigger] calls[i] == (true, n) && forall|j: int|
                            i < j < calls.len() ==> #[trigger] calls[j] != (false, n);
                    assert(i != k);
                    assert(pc[i] == (true, n));
                    assert forall|j: int| i < j < pc.len() implies #[trigger] pc[j] != (false, n) by {
                        assert(pc[j] == calls[j]);
                    }
                    assert(live_after(pc, n));
                }
                if live_after(pc, n) {
                    let i = choose|i: int|
                        0 <= i < pc.len() && #[trigger] pc[i] == (true, n) && forall|j: int|
                            i < j < pc.len() ==> #[trigger] pc[j] != (false, n);
                    assert(calls[i] == (true, n));
                    assert forall|j: int| i < j < calls.len() implies #[trigger] calls[j] != (false, n) by {
                        if j < k {
                            assert(pc[j] == calls[j]);
                        }
                    }
                }
            }
        }
    } else {
        assert forall|n: Seq<char>| #[trigger] names.last().contains(n) <==> live_after(calls, n) by {
            assert(names.last() == names[0]);
        }
    }
}

/// The figures of `proxy_name`, created at zero when it has none yet.
pub fn get_or_create_proxy_metrics(reg: &mut ProxyMetricsRegistry, proxy_name: &str) -> (pm: ProxyMetrics)
    ensures
        old(reg).view().contains_key(proxy_name@) ==> pm == old(reg).view()[proxy_name@]
            && final(reg).view() == old(reg).view(),
        !old(reg).view().contains_key(proxy_name@) ==> pm == zero_proxy_metrics()
            && final(reg).view() == old(reg).view().insert(proxy_name@, zero_proxy_metrics()),
        final(reg).view().dom() == names_after(old(reg).view().dom(), (true, proxy_name@)),
{
    proxy_table_get_or_insert(&mut reg.table, proxy_name)
}

/// The figures of a proxy after one more connection that carried
/// `bytes_in` bytes in and `bytes_out` out, and failed when `failed`
/// (counters wrap as `u64`).
pub open spec fn after_connection(p: ProxyMetrics, bytes_in: u64, bytes_out: u64, failed: bool) -> ProxyMetrics {
    ProxyMetrics {
        bytes_in: wrap_add(p.bytes_in, bytes_in),
        bytes_out: wrap_add(p.bytes_out, bytes_out),
        connections_total: wrap_add(p.connections_total, 1),
        errors: if failed {
            wrap_add(p.errors, 1)
        } else {
            p.errors
        },
        ..p
    }
}

/// Records one finished connection of `proxy_name` (see
/// `after_connection`); a proxy without figures starts from zero.
pub fn record_proxy_connection(
    reg: &mut ProxyMetricsRegistry,
    proxy_name: &str,
    bytes_in: u64,
    bytes_out: u64,
    failed: bool,
)
    ensures
        final(reg).view() == old(reg).view().insert(
            proxy_name@,
            after_connection(
                if old(reg).view().contains_key(proxy_name@) {
                    old(reg).view()[proxy_name@]
                } else {
                    zero_proxy_metrics()
                },
                bytes_in,
                bytes_out,
                failed,
            ),
        ),
{
    let pm = proxy_table_get_or_insert(&mut reg.table, proxy_name);
    let next = ProxyMetrics {
        bytes_in: pm.bytes_in.wrapping_add(bytes_in),
        bytes_out: pm.bytes_out.wrapping_add(bytes_out),
        connections_total: pm.connections_total.wrapping_add(1),
        connections_active: pm.connections_active,
        errors: if failed {
            pm.errors.wrapping_add(1)
        } else {
            pm.errors
        },
    };
    proxy_table_insert(&mut reg.table, proxy_name, next);
    proof {
        assert(next == after_connection(pm, bytes_in, bytes_out, failed));
    }
}

/// Forgets the figures of `proxy_name`.
pub fn remove_proxy_metrics(reg: &mut ProxyMetricsRegistry, proxy_name: &str)
    ensures
        final(reg).view() == old(reg).view().remove(proxy_name@),
        final(reg).view().dom() == names_after(old(reg).view().dom(), (false, proxy_name@)),
{
    proxy_table_remove(&mut reg.table, proxy_name)
}

/// Every proxy's name with its figures, each proxy once, in no fixed order.
pub fn list_proxy_metrics(reg: &ProxyMetricsRegistry) -> (out: Vec<(String, ProxyMetrics)>)
    ensures
        forall|i: int|
            0 <= i < out@.len() ==> reg.view().contains_key(#[trigger] out@[i].0@)
                && reg.view()[out@[i].0@] == out@[i].1,
        forall|i: int, j: int|
            0 <= i < out@.len() && 0 <= j < out@.len() && i != j ==> #[trigger] out@[i].0@
                != #[trigger] out@[j].0@,
        forall|k: Seq<char>|
            #[trigger] reg.view().contains_key(k) ==> exists|i: int|
                0 <= i < out@.len() && #[trigger] out@[i].0@ == k,
{
    proxy_table_entries(&reg.table)
}

/// The entries are in the order of their names.
pub open spec fn names_sorted(v: Seq<(String, ProxyMetrics)>) -> bool {
    forall|i: int, j: int| 0 <= i < j < v.len() ==> !seq_lt(#[trigger] v[j].0@, #[trigger] v[i].0@)
}

/// The entries of `v` in the order of their names (as the metrics page
/// lists them).
pub fn sort_proxy_metrics(v: Vec<(String, ProxyMetrics)>) -> (out: Vec<(String, ProxyMetrics)>)
    ensures
        out@.to_multiset() == v@.to_multiset(),
        names_sorted(out@),
{
    broadcast use vstd::seq_lib::group_to_multiset_ensures, vstd::multiset::group_multiset_axioms;

    let mut rest = v;
    let mut out: Vec<(String, ProxyMetrics)> = Vec::new();
    assert(out@.to_multiset() =~= Multiset::empty());
    assert(Multiset::<(String, ProxyMetrics)>::empty().add(rest@.to_multiset()) =~= rest@.to_multiset());
    while rest.len() > 0
        invariant
            out@.to_multiset().add(rest@.to_multiset()) == v@.to_multiset(),
            names_sorted(out@),
        decreases rest.len(),
    {
        let ghost before_rest = rest@;
        let x = rest.pop().unwrap();
        assert(before_rest == rest@.push(x));
        let mut p: usize = 0;
        while p < out.len() && !str_lt(x.0.as_str(), out[p].0.as_str())
            invariant
                p <= out.len(),
                forall|k: int| 0 <= k < p ==> !seq_lt(x.0@, #[trigger] out@[k].0@),
            decreases out.len() - p,
        {
            p = p + 1;
        }
        let ghost before = out@;
        out.insert(p, x);
        proof {
            assert(out@ == before.insert(p as int, x));
            vstd::seq_lib::to_multiset_insert(before, p as int, x);
            vstd::seq_lib::to_multiset_build(rest@, x);
            assert(out@.to_multiset() =~= before.to_multiset().insert(x));
            assert(before_rest.to_multiset() =~= rest@.to_multiset().insert(x));
            assert(out@.to_multiset().add(rest@.to_multiset()) =~= before.to_multiset().add(
                before_rest.to_multiset(),
            ));
            assert forall|i: int, j: int| 0 <= i < j < out@.len() implies !seq_lt(
                #[trigger] out@[j].0@,
                #[trigger] out@[i].0@,
            ) by {
                if j < p {
                    assert(out@[i] == before[i] && out@[j] == before[j]);
                } else if j == p {
                    assert(out@[i] == before[i]);
                } else if i == p {
                    assert(out@[j] == before[j - 1]);
                    assert(seq_lt(x.0@, before[p as int].0@));
                    if j - 1 > p {
                        assert(!seq_lt(before[j - 1].0@, before[p as int].0@));
                    }
                    if seq_lt(before[j - 1].0@, x.0@) {
                        lemma_seq_lt_transitive(before[j - 1].0@, x.0@, before[p as int].0@);
                        lemma_seq_lt_irreflexive(before[p as int].0@);
                    }
                } else if i < p {
                    assert(out@[i] == before[i] && out@[j] == before[j - 1]);
                } else {
                    assert(out@[i] == before[i - 1] && out@[j] == before[j - 1]);
                }
            }
        }
    }
    assert(rest@.to_multiset().len() == 0);
    assert(rest@.to_multiset() =~= Multiset::empty());
    assert(out@.to_multiset().add(Multiset::empty()) =~= out@.to_multiset());
    out
}

} // verus!
