//! The virtual-host route tables: for each domain, the backends registered
//! for it, in registration order, with the round-robin counter that spreads
//! requests over them.
use vstd::prelude::*;
use dashmap::DashMap;
use crate::text::{str_eq, string_from, seq_lt, str_lt, lemma_seq_lt_transitive, lemma_seq_lt_total};

verus! {

/// One backend behind a virtual host: the registration that owns it
/// (`run_id:proxy_name`) and the proxy that a work connection is asked for.
#[derive(Clone)]
pub struct VhostRoute {
    pub route_key: String,
    pub proxy_name: String,
}

/// A route as plain values: its key and its proxy name.
pub type RouteView = (Seq<char>, Seq<char>);

/// The routes of one domain and its round-robin counter.
#[derive(Clone)]
pub struct DomainRoutes {
    pub domain: String,
    pub routes: Vec<VhostRoute>,
    pub rr: usize,
}

pub open spec fn route_view(r: VhostRoute) -> RouteView {
    (r.route_key@, r.proxy_name@)
}

pub open spec fn routes_view(v: Seq<VhostRoute>) -> Seq<RouteView> {
    v.map_values(|r: VhostRoute| route_view(r))
}

/// What the table keeps for one domain: its routes and its counter.
pub open spec fn entry_value(e: DomainRoutes) -> (Seq<RouteView>, usize) {
    (routes_view(e.routes@), e.rr)
}

/// Some route of `rs` has the key `k`.
pub open spec fn has_key(rs: Seq<RouteView>, k: Seq<char>) -> bool {
    exists|j: int| 0 <= j < rs.len() && rs[j].0 == k
}

/// No two routes of `rs` share a key.
pub open spec fn keys_distinct(rs: Seq<RouteView>) -> bool {
    forall|i: int, j: int| 0 <= i < j < rs.len() ==> rs[i].0 != rs[j].0
}

/// The routes of a domain after registering `(k, name)` there: unchanged
/// when a route with that key is already present, else extended by it.
pub open spec fn with_route(rs: Seq<RouteView>, k: Seq<char>, name: Seq<char>) -> Seq<RouteView> {
    if has_key(rs, k) {
        rs
    } else {
        rs.push((k, name))
    }
}

/// What a domain holds after a registration of `(k, name)` reaches it.
pub open spec fn added_entry(
    m: Map<Seq<char>, (Seq<RouteView>, usize)>,
    d: Seq<char>,
    k: Seq<char>,
    name: Seq<char>,
) -> (Seq<RouteView>, usize) {
    if m.dom().contains(d) {
        (with_route(m[d].0, k, name), m[d].1)
    } else {
        (seq![(k, name)], 0usize)
    }
}

/// The routes of a domain without those of the registration `k`.
pub open spec fn without_key(rs: Seq<RouteView>, k: Seq<char>) -> Seq<RouteView> {
    rs.filter(other_key(k))
}

/// Routes whose key is not `k`.
pub open spec fn other_key(k: Seq<char>) -> spec_fn(RouteView) -> bool {
    |r: RouteView| r.0 != k
}

/// The round-robin counter after one pick: one more, wrapping to zero.
pub open spec fn next_counter(rr: usize) -> usize {
    if rr == usize::MAX {
        0
    } else {
        (rr + 1) as usize
    }
}

/// A table of domain routes, by domain.
pub type RouteMap = DashMap<String, DomainRoutes>;

/// What a route map holds, by domain: each domain's routes and counter.
pub uninterp spec fn route_entries(t: RouteMap) -> Map<Seq<char>, (Seq<RouteView>, usize)>;

/// `DashMap::new`: an empty map.
#[verifier::external_body]
fn route_map_new() -> (m: RouteMap)
    ensures
        route_entries(m).dom() == Set::<Seq<char>>::empty(),
{
    DashMap::new()
}

/// `DashMap::get`, the entry cloned: what the map holds under `d`.
#[verifier::external_body]
fn route_map_get(t: &RouteMap, d: &str) -> (r: Option<DomainRoutes>)
    ensures
        r is Some <==> route_entries(*t).contains_key(d@),
        r matches Some(e) ==> entry_value(e) == route_entries(*t)[d@],
{
    t.get(d).map(|e| e.value().clone())
}

/// `DashMap::insert`: `d` now holds `e`.
#[verifier::external_body]
fn route_map_insert(t: &mut RouteMap, d: String, e: DomainRoutes)
    ensures
        route_entries(*final(t)) == route_entries(*old(t)).insert(d@, entry_value(e)),
{
    t.insert(d, e);
}

/// `DashMap::remove`: `d` holds nothing any more.
#[verifier::external_body]
fn route_map_remove(t: &mut RouteMap, d: &str)
    ensures
        route_entries(*final(t)) == route_entries(*old(t)).remove(d@),
{
    t.remove(d);
}

/// The domains of the map, in the order that `DashMap::iter` walks them:
/// each domain once; which order they come in is left open.
#[verifier::external_body]
fn route_map_domains(t: &RouteMap) -> (out: Vec<String>)
    ensures
        forall|i: int| 0 <= i < out@.len() ==> route_entries(*t).contains_key(#[trigger] out@[i]@),
        forall|i: int, j: int|
            0 <= i < out@.len() && 0 <= j < out@.len() && i != j ==> #[trigger] out@[i]@ != #[trigger] out@[j]@,
        forall|d: Seq<char>|
            #[trigger] route_entries(*t).contains_key(d) ==> exists|i: int| 0 <= i < out@.len() && #[trigger] out@[i]@ == d,
{
    t.iter().map(|e| e.key().clone()).collect()
}

/// The route tables of one kind of virtual host (HTTP or HTTPS).
pub struct RouteTable {
    table: RouteMap,
}

/// `d` is one of the first `i` domains of `ds`.
pub open spec fn done_before(ds: Seq<String>, i: int, d: Seq<char>) -> bool {
    exists|j: int| 0 <= j < i && #[trigger] ds[j]@ == d
}

impl RouteTable {
    /// The table as a map from domain to its routes and counter.
    pub closed spec fn view(&self) -> Map<Seq<char>, (Seq<RouteView>, usize)> {
        route_entries(self.table)
    }

    /// No domain is left without routes, no registration appears twice
    /// under one domain, and there are finitely many domains.
    pub closed spec fn wf(&self) -> bool {
        &&& forall|d: Seq<char>|
            #[trigger] self.view().dom().contains(d) ==> self.view()[d].0.len() > 0 && keys_distinct(
                self.view()[d].0,
            )
        &&& self.view().dom().finite()
    }

    /// What the well-formedness means for the map view.
    pub proof fn lemma_wf(&self)
        requires
            self.wf(),
        ensures
            forall|d: Seq<char>|
                #[trigger] self.view().dom().contains(d) ==> self.view()[d].0.len() > 0
                    && keys_distinct(self.view()[d].0),
            self.view().dom().finite(),
    {
    }

    pub fn new() -> (t: Self)
        ensures
            t.wf(),
            t.view() == Map::<Seq<char>, (Seq<RouteView>, usize)>::empty(),
    {
        let t = RouteTable { table: route_map_new() };
        assert(t.view() =~= Map::<Seq<char>, (Seq<RouteView>, usize)>::empty());
        t
    }

    /// Registers the route `(route_key, proxy_name)` under each of
    /// `domains`: a domain seen for the first time gets it as its only
    /// route and a counter at zero; a known domain gets it appended unless
    /// a route with that key is there already.
    pub fn add_routes(&mut self, domains: &[String], route_key: &str, proxy_name: &str)
        requires
            old(self).wf(),
        ensures
            final(self).wf(),
            forall|d: Seq<char>|
                #[trigger] final(self).view().dom().contains(d) <==> (old(self).view().dom().contains(d)
                    || domain_texts(domains@).contains(d)),
            forall|d: Seq<char>|
                #[trigger] final(self).view().dom().contains(d) ==> final(self).view()[d] == if domain_texts(
                    domains@,
                ).contains(d) {
                    added_entry(old(self).view(), d, route_key@, proxy_name@)
                } else {
                    old(self).view()[d]
                },
    {
        let ghost m0 = self.view();
        let mut i: usize = 0;
        while i < domains.len()
            invariant
                i <= domains@.len(),
                self.wf(),
                forall|d: Seq<char>|
                    #[trigger] self.view().dom().contains(d) <==> (m0.dom().contains(d)
                        || domain_texts(domains@).take(i as int).contains(d)),
                forall|d: Seq<char>|
                    #[trigger] self.view().dom().contains(d) ==> self.view()[d] == if domain_texts(
                        domains@,
                    ).take(i as int).contains(d) {
                        added_entry(m0, d, route_key@, proxy_name@)
                    } else {
                        m0[d]
                    },
            decreases domains@.len() - i,
        {
            let d = domains[i].as_str();
            let ghost m1 = self.view();
            let ghost dd = d@;
            let ghost pre = domain_texts(domains@).take(i as int);
            assert(domain_texts(domains@).take(i as int + 1) =~= pre.push(dd));
            let entry = match route_map_get(&self.table, d) {
                Some(e) => {
                    let ghost v0 = entry_value(e);
                    proof {
                        lemma_with_route_idempotent(v0.0, route_key@, proxy_name@);
                    }
                    let mut e = e;
                    if !routes_have_key(&e.routes, route_key) {
                        let r = VhostRoute { route_key: string_from(route_key), proxy_name: string_from(proxy_name) };
                        let ghost before = e.routes@;
                        e.routes.push(r);
                        proof {
                            assert(routes_view(e.routes@) =~= routes_view(before).push((route_key@, proxy_name@)));
                        }
                    }
                    e
                },
                None => {
                    let mut rs: Vec<VhostRoute> = Vec::new();
                    rs.push(VhostRoute { route_key: string_from(route_key), proxy_name: string_from(proxy_name) });
                    let e = DomainRoutes { domain: string_from(d), routes: rs, rr: 0 };
                    proof {
                        assert(routes_view(e.routes@) =~= seq![(route_key@, proxy_name@)]);
                    }
                    e
                },
            };
            proof {
                assert(entry_value(entry) == added_entry(m1, dd, route_key@, proxy_name@));
                if m1.dom().contains(dd) {
                    lemma_with_route_idempotent(m1[dd].0, route_key@, proxy_name@);
                    lemma_with_route_distinct(m1[dd].0, route_key@, proxy_name@);
                } else {
                    assert(keys_distinct(seq![(route_key@, proxy_name@)]));
                }
            }
            route_map_insert(&mut self.table, string_from(d), entry);
            proof {
                lemma_add_step(m0, m1, pre, dd, route_key@, proxy_name@);
            }
            i = i + 1;
        }
        assert(domain_texts(domains@).take(domains@.len() as int) =~= domain_texts(domains@));
    }

    /// Removes the routes of the registration `route_key` from every
    /// domain; a domain left without routes is dropped with its counter.
    pub fn unregister(&mut self, route_key: &str)
        requires
            old(self).wf(),
        ensures
            final(self).wf(),
            forall|d: Seq<char>|
                #[trigger] final(self).view().dom().contains(d) <==> (old(self).view().dom().contains(d)
                    && without_key(old(self).view()[d].0, route_key@).len() > 0),
            forall|d: Seq<char>|
                #[trigger] final(self).view().dom().contains(d) ==> final(self).view()[d] == (
                    without_key(old(self).view()[d].0, route_key@),
                    old(self).view()[d].1,
                ),
    {
        let ghost m0 = self.view();
        let ghost k = route_key@;
        let ds = route_map_domains(&self.table);
        let mut i: usize = 0;
        while i < ds.len()
            invariant
                i <= ds@.len(),
                k == route_key@,
                self.wf(),
                forall|a: int| 0 <= a < ds@.len() ==> m0.contains_key(#[trigger] ds@[a]@),
                forall|a: int, b: int|
                    0 <= a < ds@.len() && 0 <= b < ds@.len() && a != b ==> #[trigger] ds@[a]@ != #[trigger] ds@[b]@,
                forall|d: Seq<char>|
                    #[trigger] self.view().dom().contains(d) <==> (m0.dom().contains(d) && (done_before(ds@, i as int, d)
                        ==> without_key(m0[d].0, k).len() > 0)),
                forall|d: Seq<char>|
                    #[trigger] self.view().dom().contains(d) ==> self.view()[d] == if done_before(ds@, i as int, d) {
                        (without_key(m0[d].0, k), m0[d].1)
                    } else {
                        m0[d]
                    },
            decreases ds@.len() - i,
        {
            let d = ds[i].as_str();
            let ghost dd = d@;
            let ghost m1 = self.view();
            assert(!done_before(ds@, i as int, dd)) by {
                if done_before(ds@, i as int, dd) {
                    let j = choose|j: int| 0 <= j < i && #[trigger] ds@[j]@ == dd;
                    assert(ds@[j]@ != ds@[i as int]@);
                }
            }
            assert(m1.dom().contains(dd));
            assert(forall|x: Seq<char>| #[trigger] done_before(ds@, i + 1, x) <==> (done_before(ds@, i as int, x)
                || x == dd)) by {
                assert forall|x: Seq<char>| #[trigger] done_before(ds@, i + 1, x) implies (done_before(ds@, i as int, x)
                    || x == dd) by {
                    let j = choose|j: int| 0 <= j < i + 1 && #[trigger] ds@[j]@ == x;
                    if j < i {
                        assert(done_before(ds@, i as int, x));
                    }
                }
                assert forall|x: Seq<char>| done_before(ds@, i as int, x) || x == dd implies #[trigger] done_before(ds@, i + 1, x) by {
                    if x == dd {
                        assert(ds@[i as int]@ == x);
                    } else {
                        let j = choose|j: int| 0 <= j < i && #[trigger] ds@[j]@ == x;
                        assert(ds@[j]@ == x);
                    }
                }
            }
            match route_map_get(&self.table, d) {
                Some(e) => {
                    let rs = without_route_key(&e.routes, route_key);
                    assert(routes_view(rs@) == without_key(m0[dd].0, k));
                    assert(routes_view(rs@).len() == rs@.len());
                    if rs.len() > 0 {
                        let ne = DomainRoutes { domain: string_from(d), routes: rs, rr: e.rr };
                        proof {
                            lemma_without_key_distinct(m0[dd].0, k);
                        }
                        route_map_insert(&mut self.table, string_from(d), ne);
                    } else {
                        route_map_remove(&mut self.table, d);
                    }
                },
                None => {},
            }
            i = i + 1;
        }
        proof {
            assert forall|d: Seq<char>| m0.dom().contains(d) implies #[trigger] done_before(ds@, i as int, d) by {
                let a = choose|a: int| 0 <= a < ds@.len() && #[trigger] ds@[a]@ == d;
                assert(ds@[a]@ == d);
            }
        }
    }

    /// Picks the route for a request to domain `d`: the one at the
    /// domain's counter modulo the number of routes; the counter then
    /// advances by one, wrapping at the top of `usize`.
    pub fn pick(&mut self, d: &str) -> (r: Option<VhostRoute>)
        requires
            old(self).wf(),
        ensures
            final(self).wf(),
            r is Some <==> old(self).view().dom().contains(d@),
            r matches Some(route) ==> ({
                let (rs, rr) = old(self).view()[d@];
                &&& route_view(route) == rs[(rr as int) % (rs.len() as int)]
                &&& final(self).view() == old(self).view().insert(d@, (rs, next_counter(rr)))
            }),
            r is None ==> final(self).view() == old(self).view(),
    {
        match route_map_get(&self.table, d) {
            None => None,
            Some(e) => {
                let ghost m0 = self.view();
                let n = e.routes.len();
                assert(routes_view(e.routes@).len() == e.routes@.len());
                let rr = e.rr;
                let route = copy_route(&e.routes[rr % n]);
                let next = if rr == usize::MAX { 0 } else { rr + 1 };
                let ne = DomainRoutes { domain: e.domain, routes: e.routes, rr: next };
                route_map_insert(&mut self.table, string_from(d), ne);
                proof {
                    assert(self.view() =~= m0.insert(d@, (m0[d@].0, next_counter(rr))));
                }
                Some(route)
            },
        }
    }

    /// The routes registered for domain `d`, if it has any.
    pub fn routes_of(&self, d: &str) -> (r: Option<Vec<VhostRoute>>)
        requires
            self.wf(),
        ensures
            r is Some <==> self.view().dom().contains(d@),
            r matches Some(v) ==> routes_view(v@) == self.view()[d@].0,
    {
        match route_map_get(&self.table, d) {
            None => None,
            Some(e) => Some(e.routes),
        }
    }
}

/// The domains of a list of names, as plain text.
pub open spec fn domain_texts(domains: Seq<String>) -> Seq<Seq<char>> {
    domains.map_values(|s: String| s@)
}

pub proof fn lemma_with_route_idempotent(rs: Seq<RouteView>, k: Seq<char>, name: Seq<char>)
    ensures
        has_key(with_route(rs, k, name), k),
        with_route(with_route(rs, k, name), k, name) == with_route(rs, k, name),
        keys_distinct(rs) ==> keys_distinct(with_route(rs, k, name)),
        with_route(rs, k, name).len() >= rs.len(),
        with_route(rs, k, name).len() > 0,
{
    if !has_key(rs, k) {
        let t = rs.push((k, name));
        assert(t[rs.len() as int].0 == k);
        assert(keys_distinct(rs) ==> keys_distinct(t)) by {
            if keys_distinct(rs) {
                assert forall|i: int, j: int| 0 <= i < j < t.len() implies t[i].0 != t[j].0 by {
                    if j == rs.len() {
                        assert(t[i] == rs[i]);
                    } else {
                        assert(t[i] == rs[i]);
                        assert(t[j] == rs[j]);
                    }
                }
            }
        }
    } else {
        let j = choose|j: int| 0 <= j < rs.len() && rs[j].0 == k;
        assert(rs.len() > j);
    }
}

proof fn lemma_add_step(
    m0: Map<Seq<char>, (Seq<RouteView>, usize)>,
    m1: Map<Seq<char>, (Seq<RouteView>, usize)>,
    pre: Seq<Seq<char>>,
    dd: Seq<char>,
    k: Seq<char>,
    name: Seq<char>,
)
    requires
        forall|d: Seq<char>| #[trigger] m1.dom().contains(d) <==> (m0.dom().contains(d) || pre.contains(d)),
        forall|d: Seq<char>|
            #[trigger] m1.dom().contains(d) ==> m1[d] == if pre.contains(d) {
                added_entry(m0, d, k, name)
            } else {
                m0[d]
            },
    ensures
        ({
            let m2 = m1.insert(dd, added_entry(m1, dd, k, name));
            &&& forall|d: Seq<char>|
                #[trigger] m2.dom().contains(d) <==> (m0.dom().contains(d) || pre.push(dd).contains(d))
            &&& forall|d: Seq<char>|
                #[trigger] m2.dom().contains(d) ==> m2[d] == if pre.push(dd).contains(d) {
                    added_entry(m0, d, k, name)
                } else {
                    m0[d]
                }
        }),
{
    let m2 = m1.insert(dd, added_entry(m1, dd, k, name));
    assert forall|d: Seq<char>| pre.push(dd).contains(d) <==> (pre.contains(d) || d == dd) by {
        if pre.push(dd).contains(d) {
            let i = choose|i: int| 0 <= i < pre.push(dd).len() && pre.push(dd)[i] == d;
            if i < pre.len() {
                assert(pre[i] == d);
            }
        }
        if pre.contains(d) {
            let i = choose|i: int| 0 <= i < pre.len() && pre[i] == d;
            assert(pre.push(dd)[i] == d);
        }
        if d == dd {
            assert(pre.push(dd)[pre.len() as int] == d);
        }
    }
    if m0.dom().contains(dd) {
        lemma_with_route_idempotent(m0[dd].0, k, name);
    } else {
        lemma_with_route_idempotent(seq![], k, name);
        assert(has_key(seq![(k, name)], k)) by {
            assert(seq![(k, name)][0].0 == k);
        }
    }
    assert(added_entry(m1, dd, k, name) == added_entry(m0, dd, k, name));
}

fn copy_route(r: &VhostRoute) -> (out: VhostRoute)
    ensures
        route_view(out) == route_view(*r),
{
    VhostRoute { route_key: string_from(r.route_key.as_str()), proxy_name: string_from(r.proxy_name.as_str()) }
}

proof fn lemma_with_route_distinct(rs: Seq<RouteView>, k: Seq<char>, name: Seq<char>)
    requires
        keys_distinct(rs),
    ensures
        keys_distinct(with_route(rs, k, name)),
        with_route(rs, k, name).len() > 0 || rs.len() == 0 && has_key(rs, k),
{
    if !has_key(rs, k) {
        let t = rs.push((k, name));
        assert forall|i: int, j: int| 0 <= i < j < t.len() implies t[i].0 != t[j].0 by {
            if j == rs.len() {
                assert(t[i] == rs[i]);
                assert(!(rs[i].0 == k));
            } else {
                assert(t[i] == rs[i] && t[j] == rs[j]);
            }
        }
    }
}

proof fn lemma_without_key_distinct(rs: Seq<RouteView>, k: Seq<char>)
    requires
        keys_distinct(rs),
    ensures
        keys_distinct(without_key(rs, k)),
    decreases rs.len(),
{
    reveal(Seq::filter);
    if rs.len() > 0 {
        let p = rs.drop_last();
        assert(keys_distinct(p));
        lemma_without_key_distinct(p, k);
        let fp = without_key(p, k);
        let f = without_key(rs, k);
        if rs.last().0 == k {
            assert(f == fp);
        } else {
            assert(f == fp.push(rs.last()));
            assert forall|i: int, j: int| 0 <= i < j < f.len() implies f[i].0 != f[j].0 by {
                if j == fp.len() {
                    assert(f[i] == fp[i]);
                    assert(fp.contains(fp[i]));
                    p.lemma_filter_contains_rev(other_key(k), fp[i]);
                    let x = choose|x: int| 0 <= x < p.len() && p[x] == fp[i];
                    assert(rs[x] == p[x]);
                    assert(f[j] == rs[rs.len() - 1]);
                } else {
                    assert(f[i] == fp[i]);
                    assert(f[j] == fp[j]);
                }
            }
        }
    }
}

fn without_route_key(routes: &Vec<VhostRoute>, key: &str) -> (out: Vec<VhostRoute>)
    ensures
        routes_view(out@) == without_key(routes_view(routes@), key@),
{
    let ghost rv = routes_view(routes@);
    let mut out: Vec<VhostRoute> = Vec::new();
    let mut i: usize = 0;
    assert(rv.take(0) =~= seq![]);
    proof {
        reveal(Seq::filter);
    }
    while i < routes.len()
        invariant
            i <= routes@.len(),
            rv == routes_view(routes@),
            routes_view(out@) == without_key(rv.take(i as int), key@),
        decreases routes@.len() - i,
    {
        let ghost before = routes_view(out@);
        assert(rv.take(i as int + 1).drop_last() =~= rv.take(i as int));
        assert(rv.take(i as int + 1).last() == rv[i as int]);
        proof {
            reveal(Seq::filter);
        }
        if !str_eq(routes[i].route_key.as_str(), key) {
            out.push(copy_route(&routes[i]));
            assert(routes_view(out@) =~= before.push(rv[i as int]));
        } else {
            assert(routes_view(out@) =~= before);
        }
        i = i + 1;
    }
    assert(rv.take(i as int) =~= rv);
    out
}

/// Removing the routes of a key that no route has changes nothing.
pub proof fn lemma_without_absent_key(rs: Seq<RouteView>, k: Seq<char>)
    requires
        !has_key(rs, k),
    ensures
        without_key(rs, k) == rs,
    decreases rs.len(),
{
    reveal(Seq::filter);
    if rs.len() > 0 {
        let p = rs.drop_last();
        assert(!has_key(p, k)) by {
            if has_key(p, k) {
                let j = choose|j: int| 0 <= j < p.len() && p[j].0 == k;
                assert(rs[j].0 == k);
            }
        }
        lemma_without_absent_key(p, k);
        assert(rs.last().0 != k) by {
            assert(rs[rs.len() - 1].0 != k);
        }
        assert(rs =~= p.push(rs.last()));
    }
}

/// Removing the routes of key `k` from a list that ends with one of them
/// gives what removing them from the rest gives.
pub proof fn lemma_without_pushed_key(rs: Seq<RouteView>, k: Seq<char>, name: Seq<char>)
    ensures
        without_key(rs.push((k, name)), k) == without_key(rs, k),
{
    reveal(Seq::filter);
    assert(rs.push((k, name)).drop_last() =~= rs);
}

/// No route with key `k` is left once its routes are removed.
pub proof fn lemma_without_key_has_none(rs: Seq<RouteView>, k: Seq<char>)
    ensures
        !has_key(without_key(rs, k), k),
{
    let f = without_key(rs, k);
    if has_key(f, k) {
        let j = choose|j: int| 0 <= j < f.len() && f[j].0 == k;
        rs.lemma_filter_pred(other_key(k), j);
    }
}

fn routes_have_key(routes: &Vec<VhostRoute>, key: &str) -> (b: bool)
    ensures
        b == has_key(routes_view(routes@), key@),
{
    let mut i: usize = 0;
    while i < routes.len()
        invariant
            i <= routes@.len(),
            forall|j: int| 0 <= j < i ==> routes_view(routes@)[j].0 != key@,
        decreases routes@.len() - i,
    {
        if str_eq(routes[i].route_key.as_str(), key) {
            assert(routes_view(routes@)[i as int].0 == key@);
            return true;
        }
        i = i + 1;
    }
    false
}

/// Each text comes strictly before the next, in the order of `str`.
pub open spec fn strictly_sorted(s: Seq<Seq<char>>) -> bool {
    forall|i: int, j: int| 0 <= i < j < s.len() ==> seq_lt(#[trigger] s[i], #[trigger] s[j])
}

/// Adds `x` to the strictly sorted list `v` at its place, unless it is
/// there already.
pub fn insert_sorted(v: &mut Vec<String>, x: String)
    requires
        strictly_sorted(domain_texts(old(v)@)),
    ensures
        strictly_sorted(domain_texts(final(v)@)),
        forall|t: Seq<char>|
            #[trigger] domain_texts(final(v)@).contains(t) <==> (domain_texts(old(v)@).contains(t) || t
                == x@),
{
    let ghost old_t = domain_texts(v@);
    let mut i: usize = 0;
    while i < v.len() && str_lt(v[i].as_str(), x.as_str())
        invariant
            i <= v@.len(),
            old_t == domain_texts(v@),
            forall|j: int| 0 <= j < i ==> seq_lt(#[trigger] old_t[j], x@),
        decreases v@.len() - i,
    {
        i = i + 1;
    }
    assert(old_t.len() == v@.len());
    if i < v.len() && str_eq(v[i].as_str(), x.as_str()) {
        assert forall|t: Seq<char>| #[trigger] old_t.contains(t) <==> (old_t.contains(t) || t == x@) by {
            if t == x@ {
                assert(old_t[i as int] == t);
            }
        }
        return;
    }
    let ghost xv = x@;
    proof {
        if i < v@.len() {
            lemma_seq_lt_total(old_t[i as int], xv);
        }
    }
    v.insert(i, x);
    let ghost new_t = domain_texts(v@);
    assert(new_t =~= old_t.insert(i as int, xv));
    assert forall|a: int, b: int| 0 <= a < b < new_t.len() implies seq_lt(#[trigger] new_t[a], #[trigger] new_t[b]) by {
        if b < i {
            assert(new_t[a] == old_t[a] && new_t[b] == old_t[b]);
        } else if b == i {
            assert(new_t[a] == old_t[a]);
        } else if a == i {
            assert(new_t[b] == old_t[b - 1]);
            if b - 1 > i {
                assert(seq_lt(old_t[i as int], old_t[b - 1]));
                lemma_seq_lt_transitive(xv, old_t[i as int], old_t[b - 1]);
            }
        } else if a < i {
            assert(new_t[a] == old_t[a] && new_t[b] == old_t[b - 1]);
            if a < b - 1 {
                assert(seq_lt(old_t[a], old_t[b - 1]));
            } else {
                assert(a == i - 1 && b - 1 == i - 1);
                assert(false);
            }
        } else {
            assert(new_t[a] == old_t[a - 1] && new_t[b] == old_t[b - 1]);
        }
    }
    assert forall|t: Seq<char>| #[trigger] new_t.contains(t) <==> (old_t.contains(t) || t == xv) by {
        if new_t.contains(t) {
            let j = choose|j: int| 0 <= j < new_t.len() && new_t[j] == t;
            if j < i {
                assert(old_t[j] == t);
            } else if j > i {
                assert(old_t[j - 1] == t);
            }
        }
        if old_t.contains(t) {
            let j = choose|j: int| 0 <= j < old_t.len() && old_t[j] == t;
            if j < i {
                assert(new_t[j] == t);
            } else {
                assert(new_t[j + 1] == t);
            }
        }
        if t == xv {
            assert(new_t[i as int] == t);
        }
    }
}


} // verus!
