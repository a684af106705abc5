//! The server side of a client's control connection: who owns a proxy name,
//! when a reconnecting client may take a name over, the listing of
//! connected clients, and the pool that pairs work-connection requests with
//! work connections.
use vstd::prelude::*;
use vstd::multiset::Multiset;
use std::collections::VecDeque;
use crate::proxy_registry::key_of;
use crate::proxy_table::ProxyDirectory;
use crate::protocol::message::NewProxyRespMsg;
use crate::text::{seq_lt, str_lt, str_eq, string_from, cat3, lemma_seq_lt_transitive};

verus! {

/// What the admin API shows of a connected client.
#[derive(Debug, Clone)]
pub struct ControlRecord {
    pub run_id: String,
    pub client_id: String,
    pub peer_addr: String,
    pub hostname: String,
    pub os: String,
    pub arch: String,
    pub user: String,
    pub pool_count: u32,
}

/// The connection that owns a proxy name.
#[derive(Debug, Clone)]
pub struct ProxyOwner {
    pub run_id: String,
    pub client_id: String,
}

/// The first of `controls` (in the order given) that has a proxy named
/// `proxy_name` registered.
pub open spec fn first_owner(
    controls: Seq<ControlRecord>,
    records: Map<Seq<char>, crate::proxy_registry::ProxyRecord>,
    proxy_name: Seq<char>,
) -> Option<int>
    decreases controls.len(),
{
    if controls.len() == 0 {
        None
    } else if records.contains_key(key_of(controls[0].run_id@, proxy_name)) {
        Some(0)
    } else {
        match first_owner(controls.drop_first(), records, proxy_name) {
            Some(i) => Some(i + 1),
            None => None,
        }
    }
}

/// The connection, among `controls` (in the order the connection table is
/// walked), that owns the proxy name `proxy_name`.
pub fn find_proxy_owner(controls: &Vec<ControlRecord>, dir: &ProxyDirectory, proxy_name: &str) -> (r:
    Option<ProxyOwner>)
    ensures
        match first_owner(controls@, dir.records(), proxy_name@) {
            Some(i) => r matches Some(o) && o.run_id@ == controls@[i].run_id@ && o.client_id@
                == controls@[i].client_id@,
            None => r is None,
        },
{
    let mut i: usize = 0;
    assert(controls@.skip(0) =~= controls@);
    while i < controls.len()
        invariant
            i <= controls.len(),
            first_owner(controls@, dir.records(), proxy_name@) == match first_owner(
                controls@.skip(i as int),
                dir.records(),
                proxy_name@,
            ) {
                Some(j) => Some(j + i),
                None => None,
            },
        decreases controls.len() - i,
    {
        let c = &controls[i];
        let key = cat3(c.run_id.as_str(), ":", proxy_name);
        let ghost rest = controls@.skip(i as int);
        assert(rest[0] == controls@[i as int]);
        if dir.contains_key(key.as_str()) {
            return Some(
                ProxyOwner {
                    run_id: string_from(c.run_id.as_str()),
                    client_id: string_from(c.client_id.as_str()),
                },
            );
        }
        assert(rest.drop_first() =~= controls@.skip(i + 1));
        i = i + 1;
    }
    None
}

/// What a `NewProxy` request does about an earlier owner of its name.
#[derive(Debug)]
pub enum TakeoverDecision {
    /// The name is free, or already this connection's: register as usual.
    Proceed,
    /// The name belongs to an older connection of the same client: evict
    /// that connection's proxy (and shut the connection down), then register.
    TakeOver { stale_run_id: String },
    /// The name belongs to another client: refuse with this error text.
    Reject { error: String },
}

/// The refusal text for a name that another client uses.
pub open spec fn name_in_use_message(proxy_name: Seq<char>) -> Seq<char> {
    "proxy name "@ + proxy_name + " is already in use by another client"@
}

/// Decides, for connection `run_id` of client `client_id`, what to do about
/// the owner of the proxy name it registers: another connection may be
/// taken over only when it has the same, non-empty client id.
pub fn decide_takeover(owner: &Option<ProxyOwner>, run_id: &str, client_id: &str, proxy_name: &str) -> (d:
    TakeoverDecision)
    ensures
        match owner {
            None => d is Proceed,
            Some(o) => if o.run_id@ == run_id@ {
                d is Proceed
            } else if o.client_id@.len() > 0 && o.client_id@ == client_id@ {
                d matches TakeoverDecision::TakeOver { stale_run_id } && stale_run_id@ == o.run_id@
            } else {
                d matches TakeoverDecision::Reject { error } && error@ == name_in_use_message(
                    proxy_name@,
                )
            },
        },
{
    match owner {
        None => TakeoverDecision::Proceed,
        Some(o) => {
            if str_eq(o.run_id.as_str(), run_id) {
                TakeoverDecision::Proceed
            } else if !o.client_id.as_str().is_empty() && str_eq(o.client_id.as_str(), client_id) {
                TakeoverDecision::TakeOver { stale_run_id: string_from(o.run_id.as_str()) }
            } else {
                TakeoverDecision::Reject {
                    error: cat3("proxy name ", proxy_name, " is already in use by another client"),
                }
            }
        },
    }
}

/// The reply to a `NewProxy` request: the remote address on success, the
/// error text on failure.
pub fn new_proxy_resp(proxy_name: &str, outcome: &Result<String, String>) -> (m: NewProxyRespMsg)
    ensures
        m.proxy_name@ == proxy_name@,
        match outcome {
            Ok(addr) => m.remote_addr@ == addr@ && m.error@.len() == 0,
            Err(e) => m.remote_addr@.len() == 0 && m.error@ == e@,
        },
{
    match outcome {
        Ok(addr) => NewProxyRespMsg {
            proxy_name: string_from(proxy_name),
            remote_addr: string_from(addr.as_str()),
            error: String::new(),
        },
        Err(e) => NewProxyRespMsg {
            proxy_name: string_from(proxy_name),
            remote_addr: String::new(),
            error: string_from(e.as_str()),
        },
    }
}

/// `s` is ordered by run id.
pub open spec fn controls_sorted(s: Seq<ControlRecord>) -> bool {
    forall|i: int, j: int|
        0 <= i < j < s.len() ==> !seq_lt(#[trigger] s[j].run_id@, #[trigger] s[i].run_id@)
}

/// The client listing of the admin API: `v` ordered by run id.
pub fn sort_controls(v: Vec<ControlRecord>) -> (out: Vec<ControlRecord>)
    ensures
        out@.to_multiset() == v@.to_multiset(),
        controls_sorted(out@),
{
    broadcast use vstd::seq_lib::group_to_multiset_ensures, vstd::multiset::group_multiset_axioms;

    let mut rest = v;
    let mut out: Vec<ControlRecord> = Vec::new();
    assert(out@.to_multiset() =~= Multiset::empty());
    assert(Multiset::<ControlRecord>::empty().add(rest@.to_multiset()) =~= rest@.to_multiset());
    while rest.len() > 0
        invariant
            out@.to_multiset().add(rest@.to_multiset()) == v@.to_multiset(),
            controls_sorted(out@),
        decreases rest.len(),
    {
        let ghost before_rest = rest@;
        let x = rest.pop().unwrap();
        assert(before_rest == rest@.push(x));
        let mut p: usize = 0;
        while p < out.len() && !str_lt(x.run_id.as_str(), out[p].run_id.as_str())
            invariant
                p <= out.len(),
                forall|k: int| 0 <= k < p ==> !seq_lt(x.run_id@, #[trigger] out@[k].run_id@),
            decreases out.len() - p,
        {
            p = p + 1;
        }
        let ghost before = out@;
        out.insert(p, x);
        proof {
            vstd::seq_lib::to_multiset_insert(before, p as int, x);
            vstd::seq_lib::to_multiset_build(rest@, x);
            assert(out@.to_multiset().add(rest@.to_multiset()) =~= before.to_multiset().add(
                before_rest.to_multiset(),
            ));
            assert forall|i: int, j: int| 0 <= i < j < out@.len() implies !seq_lt(
                #[trigger] out@[j].run_id@,
                #[trigger] out@[i].run_id@,
            ) by {
                if j < p {
                    assert(out@[i] == before[i] && out@[j] == before[j]);
                } else if j == p {
                    assert(out@[i] == before[i]);
                } else if i == p {
                    assert(out@[j] == before[j - 1]);
                    if j - 1 > p {
                        assert(!seq_lt(before[j - 1].run_id@, before[p as int].run_id@));
                    }
                    if seq_lt(before[j - 1].run_id@, x.run_id@) {
                        lemma_seq_lt_transitive(
                            before[j - 1].run_id@,
                            x.run_id@,
                            before[p as int].run_id@,
                        );
                        crate::text::lemma_seq_lt_irreflexive(before[p as int].run_id@);
                    }
                } else if i < p {
                    assert(out@[i] == before[i] && out@[j] == before[j - 1]);
                } else {
                    assert(out@[i] == before[i - 1] && out@[j] == before[j - 1]);
                }
            }
        }
    }
    assert(rest@.to_multiset().len() == 0);
    assert(rest@.to_multiset() =~= Multiset::empty());
    assert(out@.to_multiset().add(Multiset::empty()) =~= out@.to_multiset());
    out
}

/// The work connections of one client connection: requests from proxies
/// that wait for a connection (served first come, first served), and idle
/// connections that wait for a request (the newest is handed out first).
#[derive(Debug)]
pub struct WorkConnPool<R, C> {
    pending: VecDeque<R>,
    idle: Vec<C>,
}

/// What became of a request or a connection handed to the pool.
#[derive(Debug)]
pub enum PoolOutcome<R, C> {
    /// The request is answered with the connection.
    Matched(R, C),
    /// The request waits for a connection: the client is to be asked for one.
    RequestQueued,
    /// The connection waits for a request.
    ConnStored,
}

impl<R, C> WorkConnPool<R, C> {
    /// A request and a connection never wait at the same time.
    #[verifier::type_invariant]
    spec fn never_both_waiting(&self) -> bool {
        self.pending@.len() == 0 || self.idle@.len() == 0
    }

    /// The waiting requests, oldest first.
    pub closed spec fn pending(&self) -> Seq<R> {
        self.pending@
    }

    /// The idle connections, oldest first.
    pub closed spec fn idle(&self) -> Seq<C> {
        self.idle@
    }

    /// An empty pool.
    pub fn new() -> (p: Self)
        ensures
            p.pending().len() == 0,
            p.idle().len() == 0,
    {
        WorkConnPool { pending: VecDeque::new(), idle: Vec::new() }
    }

    /// Handles a proxy's request for a work connection: the newest idle
    /// connection answers it; with none idle it waits.
    pub fn request(&mut self, req: R) -> (o: PoolOutcome<R, C>)
        ensures
            old(self).idle().len() > 0 ==> o == PoolOutcome::Matched(req, old(self).idle().last())
                && final(self).idle() == old(self).idle().drop_last() && final(self).pending()
                == old(self).pending(),
            old(self).idle().len() == 0 ==> o is RequestQueued && final(self).pending() == old(self).pending().push(req) && final(self).idle() == old(self).idle(),
            final(self).pending().len() == 0 || final(self).idle().len() == 0,
    {
        proof {
            use_type_invariant(&*self);
        }
        if self.idle.len() > 0 {
            let mut idle: Vec<C> = Vec::new();
            std::mem::swap(&mut idle, &mut self.idle);
            let conn = idle.pop().unwrap();
            self.idle = idle;
            PoolOutcome::Matched(req, conn)
        } else {
            let mut pending: VecDeque<R> = VecDeque::new();
            std::mem::swap(&mut pending, &mut self.pending);
            pending.push_back(req);
            self.pending = pending;
            PoolOutcome::RequestQueued
        }
    }

    /// Takes back the newest waiting request (when asking the client for a
    /// connection failed).
    pub fn cancel_last_request(&mut self) -> (r: Option<R>)
        ensures
            old(self).pending().len() > 0 ==> r == Some(old(self).pending().last()) && final(self).pending() == old(self).pending().drop_last(),
            old(self).pending().len() == 0 ==> r is None && final(self).pending() == old(self).pending(),
            final(self).idle() == old(self).idle(),
    {
        proof {
            use_type_invariant(&*self);
        }
        let mut pending: VecDeque<R> = VecDeque::new();
        std::mem::swap(&mut pending, &mut self.pending);
        let r = pending.pop_back();
        self.pending = pending;
        r
    }

    /// Handles a new work connection from the client: the oldest waiting
    /// request gets it; with none waiting it is kept idle.
    pub fn deliver(&mut self, conn: C) -> (o: PoolOutcome<R, C>)
        ensures
            old(self).pending().len() > 0 ==> o == PoolOutcome::Matched(old(self).pending()[0], conn)
                && final(self).pending() == old(self).pending().drop_first() && final(self).idle()
                == old(self).idle(),
            old(self).pending().len() == 0 ==> o is ConnStored && final(self).idle() == old(self).idle().push(conn) && final(self).pending() == old(self).pending(),
            final(self).pending().len() == 0 || final(self).idle().len() == 0,
    {
        proof {
            use_type_invariant(&*self);
        }
        if self.pending.len() > 0 {
            let mut pending: VecDeque<R> = VecDeque::new();
            std::mem::swap(&mut pending, &mut self.pending);
            let req = pending.pop_front().unwrap();
            self.pending = pending;
            PoolOutcome::Matched(req, conn)
        } else {
            let mut idle: Vec<C> = Vec::new();
            std::mem::swap(&mut idle, &mut self.idle);
            idle.push(conn);
            self.idle = idle;
            PoolOutcome::ConnStored
        }
    }

    /// How many requests wait.
    pub fn pending_count(&self) -> (n: usize)
        ensures
            n == self.pending().len(),
    {
        self.pending.len()
    }

    /// How many connections are idle.
    pub fn idle_count(&self) -> (n: usize)
        ensures
            n == self.idle().len(),
    {
        self.idle.len()
    }
}

} // verus!
