//! The server's broker for xtcp (peer-to-peer) connections: it checks a
//! visitor's request against the proxy's owner and secret key, forwards it
//! to the owner, matches the owner's answer with the waiting visitor, and
//! keeps the most recent events for the admin API.
use vstd::prelude::*;
use dashmap::DashMap;
use std::collections::VecDeque;
use crate::error::{Error, Result};
use crate::metrics::{
    Metrics, inc_xtcp_owner_not_found, inc_xtcp_sk_mismatch, inc_xtcp_owner_offline,
    inc_xtcp_owner_requests_forwarded, inc_xtcp_responses_forwarded,
};
use crate::protocol::message::{NatHoleClientMsg, NatHoleRespMsg};
use crate::proxy_registry::XtcpProxyInfo;
use crate::text::{split_once, split_once_str, trim, trim_str, str_eq, string_from, cat2, cat3};

verus! {

/// One step of an xtcp exchange, as the admin API shows it.
#[derive(Debug, Clone)]
pub struct XtcpEvent {
    pub stage: String,
    pub proxy_name: String,
    pub visitor_run_id: String,
    pub owner_run_id: String,
    pub visitor_addr: String,
    pub client_addr: String,
    pub relay_addr: String,
    pub error: String,
}

/// The text of an event, field by field.
pub open spec fn event_view(e: XtcpEvent) -> Seq<Seq<char>> {
    seq![
        e.stage@,
        e.proxy_name@,
        e.visitor_run_id@,
        e.owner_run_id@,
        e.visitor_addr@,
        e.client_addr@,
        e.relay_addr@,
        e.error@,
    ]
}

/// How many events are kept.
pub const MAX_EVENTS: usize = 32;

/// The error text of a visitor message without a `|`.
pub open spec fn bad_signed_msg_text() -> Seq<char> {
    "invalid NatHoleVisitor.signed_msg, expected '<sk>|<visitor_addr>'"@
}

/// What a visitor's `signed_msg` carries: the secret key and the visitor's
/// address, `<sk>|<addr>`, each trimmed; or the error text.
pub open spec fn signed_msg_parts(signed_msg: Seq<char>) -> core::result::Result<
    (Seq<char>, Seq<char>),
    Seq<char>,
> {
    match split_once(signed_msg, '|') {
        None => Err(bad_signed_msg_text()),
        Some((sk, addr)) => if trim(sk).len() == 0 {
            Err("xtcp visitor sk is empty"@)
        } else if trim(addr).len() == 0 {
            Err("xtcp visitor_addr is empty"@)
        } else {
            Ok((trim(sk), trim(addr)))
        },
    }
}

/// Splits a visitor's `signed_msg` into its secret key and address.
pub fn parse_signed_msg(signed_msg: &str) -> (r: Result<(String, String)>)
    ensures
        match signed_msg_parts(signed_msg@) {
            Ok((sk, addr)) => r matches Ok((s, a)) && s@ == sk && a@ == addr,
            Err(m) => r matches Err(e) && e matches Error::Protocol(t) && t@ == m,
        },
{
    let (sk, addr) = match split_once_str(signed_msg, '|') {
        Some(parts) => parts,
        None => {
            return Err(
                Error::Protocol(
                    String::from_str(
                        "invalid NatHoleVisitor.signed_msg, expected '<sk>|<visitor_addr>'",
                    ),
                ),
            );
        },
    };
    let sk = trim_str(sk.as_str());
    let addr = trim_str(addr.as_str());
    if sk.as_str().is_empty() {
        return Err(Error::Protocol(String::from_str("xtcp visitor sk is empty")));
    }
    if addr.as_str().is_empty() {
        return Err(Error::Protocol(String::from_str("xtcp visitor_addr is empty")));
    }
    Ok((sk, addr))
}

/// A visitor waiting for the owner's answer.
#[derive(Debug)]
pub struct PendingNatVisitor {
    pub visitor_run_id: String,
    pub proxy_name: String,
    pub relay_addr: String,
}

/// The waiting visitors, by the visitor's address.
pub type PendingTable = DashMap<String, PendingNatVisitor>;

/// What a table of waiting visitors holds: run id, proxy name and relay
/// address of each, by visitor address.
pub uninterp spec fn pending_of(t: PendingTable) -> Map<Seq<char>, (Seq<char>, Seq<char>, Seq<char>)>;

/// `DashMap::new`: an empty table.
#[verifier::external_body]
fn pending_table_new() -> (t: PendingTable)
    ensures
        pending_of(t).dom() == Set::<Seq<char>>::empty(),
{
    DashMap::new()
}

/// `DashMap::insert`: `addr` now maps to `p`.
#[verifier::external_body]
fn pending_table_insert(t: &mut PendingTable, addr: String, p: PendingNatVisitor)
    ensures
        pending_of(*final(t)) == pending_of(*old(t)).insert(
            addr@,
            (p.visitor_run_id@, p.proxy_name@, p.relay_addr@),
        ),
{
    t.insert(addr, p);
}

/// `DashMap::remove`: the visitor under `addr` leaves the table, and is
/// handed back when there was one.
#[verifier::external_body]
fn pending_table_remove(t: &mut PendingTable, addr: &str) -> (r: Option<PendingNatVisitor>)
    ensures
        pending_of(*final(t)) == pending_of(*old(t)).remove(addr@),
        r is Some <==> pending_of(*old(t)).contains_key(addr@),
        r matches Some(p) ==> pending_of(*old(t))[addr@] == (
            p.visitor_run_id@,
            p.proxy_name@,
            p.relay_addr@,
        ),
{
    t.remove(addr).map(|e| e.1)
}

/// What to do with a visitor's request once it has been checked.
#[derive(Debug)]
pub enum VisitorStep {
    /// Answer the visitor at once with this response.
    Reply(NatHoleRespMsg),
    /// Ask the owner connection `owner_run_id` to prepare, with this message.
    Forward { owner_run_id: String, request: NatHoleClientMsg },
}

/// The most recent xtcp events, oldest first, at most 32.
#[derive(Debug)]
pub struct EventLog {
    events: VecDeque<XtcpEvent>,
}

impl EventLog {
    /// At most 32 events are kept.
    #[verifier::type_invariant]
    spec fn events_bounded(&self) -> bool {
        self.events@.len() <= MAX_EVENTS
    }

    /// The events, oldest first.
    pub closed spec fn events(&self) -> Seq<XtcpEvent> {
        self.events@
    }

    /// An empty log.
    pub fn new() -> (l: Self)
        ensures
            l.events().len() == 0,
    {
        EventLog { events: VecDeque::new() }
    }

    /// Logs `e`, dropping the oldest event when 32 are kept.
    pub fn push(&mut self, e: XtcpEvent)
        ensures
            final(self).events() == log_after(old(self).events(), e),
            final(self).events().len() <= MAX_EVENTS,
    {
        proof {
            use_type_invariant(&*self);
        }
        let mut events: VecDeque<XtcpEvent> = VecDeque::new();
        std::mem::swap(&mut events, &mut self.events);
        if events.len() >= MAX_EVENTS {
            events.pop_front();
        }
        events.push_back(e);
        self.events = events;
    }

    /// The events, oldest first.
    pub fn list(&self) -> (out: Vec<XtcpEvent>)
        ensures
            out@.len() == self.events().len(),
            out@.len() <= MAX_EVENTS,
            forall|i: int|
                0 <= i < out@.len() ==> event_view(#[trigger] out@[i]) == event_view(self.events()[i]),
    {
        proof {
            use_type_invariant(self);
        }
        let mut out: Vec<XtcpEvent> = Vec::new();
        let mut i: usize = 0;
        while i < self.events.len()
            invariant
                i <= self.events@.len(),
                out@.len() == i,
                forall|k: int|
                    0 <= k < i ==> event_view(#[trigger] out@[k]) == event_view(self.events@[k]),
            decreases self.events.len() - i,
        {
            out.push(copy_event(&self.events[i]));
            i = i + 1;
        }
        out
    }
}

/// The broker's state: the waiting visitors and the recent events.
#[derive(Debug)]
pub struct NatHoleController {
    pending: PendingTable,
    log: EventLog,
}

fn copy_event(e: &XtcpEvent) -> (c: XtcpEvent)
    ensures
        event_view(c) == event_view(*e),
{
    XtcpEvent {
        stage: string_from(e.stage.as_str()),
        proxy_name: string_from(e.proxy_name.as_str()),
        visitor_run_id: string_from(e.visitor_run_id.as_str()),
        owner_run_id: string_from(e.owner_run_id.as_str()),
        visitor_addr: string_from(e.visitor_addr.as_str()),
        client_addr: string_from(e.client_addr.as_str()),
        relay_addr: string_from(e.relay_addr.as_str()),
        error: string_from(e.error.as_str()),
    }
}

/// The events after `e` is logged: the oldest is dropped when 32 are kept.
pub open spec fn log_after(events: Seq<XtcpEvent>, e: XtcpEvent) -> Seq<XtcpEvent> {
    if events.len() >= MAX_EVENTS {
        events.drop_first().push(e)
    } else {
        events.push(e)
    }
}

/// The event made of the given texts.
pub open spec fn event_of(
    stage: Seq<char>,
    proxy_name: Seq<char>,
    visitor_run_id: Seq<char>,
    owner_run_id: Seq<char>,
    visitor_addr: Seq<char>,
    client_addr: Seq<char>,
    relay_addr: Seq<char>,
    error: Seq<char>,
) -> Seq<Seq<char>> {
    seq![
        stage,
        proxy_name,
        visitor_run_id,
        owner_run_id,
        visitor_addr,
        client_addr,
        relay_addr,
        error,
    ]
}

impl NatHoleController {
    /// The waiting visitors: run id, proxy name and relay, by address.
    pub closed spec fn pending(&self) -> Map<Seq<char>, (Seq<char>, Seq<char>, Seq<char>)> {
        pending_of(self.pending)
    }

    /// The recent events, oldest first.
    pub closed spec fn events(&self) -> Seq<XtcpEvent> {
        self.log.events()
    }

    /// A broker with no waiting visitor and no event.
    pub fn new() -> (c: Self)
        ensures
            c.pending().dom() == Set::<Seq<char>>::empty(),
            c.events().len() == 0,
    {
        NatHoleController { pending: pending_table_new(), log: EventLog::new() }
    }

    /// Logs `e`, dropping the oldest event when 32 are kept.
    pub fn push_event(&mut self, e: XtcpEvent)
        ensures
            final(self).events() == log_after(old(self).events(), e),
            final(self).events().len() <= MAX_EVENTS,
            final(self).pending() == old(self).pending(),
    {
        self.log.push(e)
    }

    /// The recent events, oldest first.
    pub fn recent_events(&self) -> (out: Vec<XtcpEvent>)
        ensures
            out@.len() == self.events().len(),
            forall|i: int|
                0 <= i < out@.len() ==> event_view(#[trigger] out@[i]) == event_view(self.events()[i]),
    {
        self.log.list()
    }

    /// Handles a visitor's request for xtcp proxy `proxy_name`, with the
    /// secret key and address from its signed message (the address already
    /// put in the form the server sees the visitor at) and the proxy's owner
    /// if it is registered: answers at once when the proxy is unknown or the
    /// key does not match, else records the visitor as waiting and says to
    /// forward the request to the owner.
    pub fn begin_visitor(
        &mut self,
        metrics: &mut Metrics,
        visitor_run_id: &str,
        proxy_name: &str,
        signed_sk: &str,
        visitor_addr: &str,
        owner: Option<XtcpProxyInfo>,
    ) -> (step: VisitorStep)
        ensures
            match owner {
                None => {
                    &&& step matches VisitorStep::Reply(r) && r.visitor_addr@ == visitor_addr@
                        && r.client_addr@.len() == 0 && r.relay_addr@.len() == 0 && r.error@ == (
                    "xtcp proxy "@ + proxy_name@ + " not found"@)
                    &&& final(self).pending() == old(self).pending()
                    &&& final(self).events() == log_after(old(self).events(), final(self).events().last())
                    &&& final(metrics).xtcp_owner_not_found_total == crate::metrics::wrap_add(
                        old(metrics).xtcp_owner_not_found_total,
                        1,
                    )
                    &&& event_view(final(self).events().last()) == event_of(
                        "owner_not_found"@,
                        proxy_name@,
                        visitor_run_id@,
                        Seq::empty(),
                        visitor_addr@,
                        Seq::empty(),
                        Seq::empty(),
                        "xtcp proxy "@ + proxy_name@ + " not found"@,
                    )
                },
                Some(o) => if o.sk@ != signed_sk@ {
                    &&& step matches VisitorStep::Reply(r) && r.visitor_addr@ == visitor_addr@
                        && r.client_addr@.len() == 0 && r.relay_addr@.len() == 0 && r.error@
                        == "xtcp sk mismatch"@
                    &&& final(self).pending() == old(self).pending()
                    &&& final(self).events() == log_after(old(self).events(), final(self).events().last())
                    &&& final(metrics).xtcp_sk_mismatch_total == crate::metrics::wrap_add(
                        old(metrics).xtcp_sk_mismatch_total,
                        1,
                    )
                    &&& event_view(final(self).events().last()) == event_of(
                        "sk_mismatch"@,
                        proxy_name@,
                        visitor_run_id@,
                        o.run_id@,
                        visitor_addr@,
                        Seq::empty(),
                        o.relay_addr@,
                        "xtcp sk mismatch"@,
                    )
                } else {
                    &&& step matches VisitorStep::Forward { owner_run_id, request }
                        && owner_run_id@ == o.run_id@ && request.proxy_name@ == proxy_name@
                        && request.visitor_addr@ == visitor_addr@
                    &&& final(self).pending() == old(self).pending().insert(
                        visitor_addr@,
                        (visitor_run_id@, proxy_name@, o.relay_addr@),
                    )
                    &&& final(self).events() == old(self).events()
                    &&& *final(metrics) == *old(metrics)
                },
            },
            final(self).events().len() <= MAX_EVENTS,
    {
        proof {
            use_type_invariant(&self.log);
        }
        match owner {
            None => {
                inc_xtcp_owner_not_found(metrics);
                let error = cat3("xtcp proxy ", proxy_name, " not found");
                let event = XtcpEvent {
                    stage: String::from_str("owner_not_found"),
                    proxy_name: string_from(proxy_name),
                    visitor_run_id: string_from(visitor_run_id),
                    owner_run_id: String::new(),
                    visitor_addr: string_from(visitor_addr),
                    client_addr: String::new(),
                    relay_addr: String::new(),
                    error: string_from(error.as_str()),
                };
                self.push_event(event);
                VisitorStep::Reply(
                    NatHoleRespMsg {
                        visitor_addr: string_from(visitor_addr),
                        client_addr: String::new(),
                        relay_addr: String::new(),
                        error,
                    },
                )
            },
            Some(o) => {
                if !str_eq(o.sk.as_str(), signed_sk) {
                    inc_xtcp_sk_mismatch(metrics);
                    let event = XtcpEvent {
                        stage: String::from_str("sk_mismatch"),
                        proxy_name: string_from(proxy_name),
                        visitor_run_id: string_from(visitor_run_id),
                        owner_run_id: string_from(o.run_id.as_str()),
                        visitor_addr: string_from(visitor_addr),
                        client_addr: String::new(),
                        relay_addr: string_from(o.relay_addr.as_str()),
                        error: String::from_str("xtcp sk mismatch"),
                    };
                    self.push_event(event);
                    return VisitorStep::Reply(
                        NatHoleRespMsg {
                            visitor_addr: string_from(visitor_addr),
                            client_addr: String::new(),
                            relay_addr: String::new(),
                            error: String::from_str("xtcp sk mismatch"),
                        },
                    );
                }
                pending_table_insert(
                    &mut self.pending,
                    string_from(visitor_addr),
                    PendingNatVisitor {
                        visitor_run_id: string_from(visitor_run_id),
                        proxy_name: string_from(proxy_name),
                        relay_addr: string_from(o.relay_addr.as_str()),
                    },
                );
                VisitorStep::Forward {
                    owner_run_id: o.run_id,
                    request: NatHoleClientMsg {
                        proxy_name: string_from(proxy_name),
                        visitor_addr: string_from(visitor_addr),
                    },
                }
            },
        }
    }

    /// Records how forwarding a visitor's request to the owner went: when
    /// sending failed (with error text `failure`), the visitor is answered
    /// that the owner is offline; when it went through, nothing is sent back
    /// yet.
    pub fn finish_forward(
        &mut self,
        metrics: &mut Metrics,
        visitor_run_id: &str,
        proxy_name: &str,
        visitor_addr: &str,
        owner: &XtcpProxyInfo,
        failure: Option<String>,
    ) -> (reply: Option<NatHoleRespMsg>)
        ensures
            final(self).pending() == old(self).pending(),
            final(self).events().len() <= MAX_EVENTS,
            match failure {
                Some(f) => {
                    &&& reply matches Some(r) && r.visitor_addr@.len() == 0 && r.client_addr@.len()
                        == 0 && r.relay_addr@.len() == 0 && r.error@ == "owner client offline"@
                    &&& final(metrics).xtcp_owner_offline_total == crate::metrics::wrap_add(
                        old(metrics).xtcp_owner_offline_total,
                        1,
                    )
                    &&& event_view(final(self).events().last()) == event_of(
                        "owner_offline"@,
                        proxy_name@,
                        visitor_run_id@,
                        owner.run_id@,
                        visitor_addr@,
                        Seq::empty(),
                        owner.relay_addr@,
                        "owner client offline: "@ + f@,
                    )
                },
                None => {
                    &&& reply is None
                    &&& final(metrics).xtcp_owner_requests_forwarded_total == crate::metrics::wrap_add(
                        old(metrics).xtcp_owner_requests_forwarded_total,
                        1,
                    )
                    &&& event_view(final(self).events().last()) == event_of(
                        "visitor_forwarded"@,
                        proxy_name@,
                        visitor_run_id@,
                        owner.run_id@,
                        visitor_addr@,
                        Seq::empty(),
                        owner.relay_addr@,
                        Seq::empty(),
                    )
                },
            },
    {
        match failure {
            Some(f) => {
                inc_xtcp_owner_offline(metrics);
                let event = XtcpEvent {
                    stage: String::from_str("owner_offline"),
                    proxy_name: string_from(proxy_name),
                    visitor_run_id: string_from(visitor_run_id),
                    owner_run_id: string_from(owner.run_id.as_str()),
                    visitor_addr: string_from(visitor_addr),
                    client_addr: String::new(),
                    relay_addr: string_from(owner.relay_addr.as_str()),
                    error: cat2("owner client offline: ", f.as_str()),
                };
                self.push_event(event);
                Some(
                    NatHoleRespMsg {
                        visitor_addr: String::new(),
                        client_addr: String::new(),
                        relay_addr: String::new(),
                        error: String::from_str("owner client offline"),
                    },
                )
            },
            None => {
                inc_xtcp_owner_requests_forwarded(metrics);
                let event = XtcpEvent {
                    stage: String::from_str("visitor_forwarded"),
                    proxy_name: string_from(proxy_name),
                    visitor_run_id: string_from(visitor_run_id),
                    owner_run_id: string_from(owner.run_id.as_str()),
                    visitor_addr: string_from(visitor_addr),
                    client_addr: String::new(),
                    relay_addr: string_from(owner.relay_addr.as_str()),
                    error: String::new(),
                };
                self.push_event(event);
                None
            },
        }
    }

    /// Handles the owner's answer `msg` (its client address already put in
    /// the form the server sees the owner at): when a visitor waits at the
    /// answer's visitor address, it stops waiting and gets the answer, with
    /// the proxy's relay filled in when the answer has none; else the answer
    /// is dropped. Gives the visitor's run id and the answer to send.
    pub fn handle_client_resp(
        &mut self,
        metrics: &mut Metrics,
        owner_run_id: &str,
        msg: NatHoleRespMsg,
    ) -> (out: Option<(String, NatHoleRespMsg)>)
        ensures
            final(self).pending() == old(self).pending().remove(msg.visitor_addr@),
            final(self).events().len() <= MAX_EVENTS,
            !old(self).pending().contains_key(msg.visitor_addr@) ==> out is None && final(self).events() == old(self).events() && *final(metrics) == *old(metrics),
            old(self).pending().contains_key(msg.visitor_addr@) ==> {
                let p = old(self).pending()[msg.visitor_addr@];
                let relay = if msg.relay_addr@.len() == 0 {
                    p.2
                } else {
                    msg.relay_addr@
                };
                &&& out matches Some((run, r)) && run@ == p.0 && r.visitor_addr@ == msg.visitor_addr@
                    && r.client_addr@ == msg.client_addr@ && r.relay_addr@ == relay && r.error@
                    == msg.error@
                &&& final(metrics).xtcp_responses_forwarded_total == crate::metrics::wrap_add(
                    old(metrics).xtcp_responses_forwarded_total,
                    1,
                )
                &&& event_view(final(self).events().last()) == event_of(
                    if msg.error@.len() == 0 {
                        "response_forwarded"@
                    } else {
                        "response_error"@
                    },
                    p.1,
                    p.0,
                    owner_run_id@,
                    msg.visitor_addr@,
                    msg.client_addr@,
                    relay,
                    msg.error@,
                )
            },
    {
        proof {
            use_type_invariant(&self.log);
        }
        let pending = match pending_table_remove(&mut self.pending, msg.visitor_addr.as_str()) {
            Some(p) => p,
            None => return None,
        };
        let relay_addr = if msg.relay_addr.as_str().is_empty() {
            pending.relay_addr
        } else {
            msg.relay_addr
        };
        inc_xtcp_responses_forwarded(metrics);
        let stage = if msg.error.as_str().is_empty() {
            String::from_str("response_forwarded")
        } else {
            String::from_str("response_error")
        };
        let event = XtcpEvent {
            stage,
            proxy_name: string_from(pending.proxy_name.as_str()),
            visitor_run_id: string_from(pending.visitor_run_id.as_str()),
            owner_run_id: string_from(owner_run_id),
            visitor_addr: string_from(msg.visitor_addr.as_str()),
            client_addr: string_from(msg.client_addr.as_str()),
            relay_addr: string_from(relay_addr.as_str()),
            error: string_from(msg.error.as_str()),
        };
        self.push_event(event);
        let resp = NatHoleRespMsg {
            visitor_addr: msg.visitor_addr,
            client_addr: msg.client_addr,
            relay_addr,
            error: msg.error,
        };
        Some((pending.visitor_run_id, resp))
    }
}

/// Law: the event log never holds more than 32 events, and logging keeps
/// the newest 32 in the order they came.
pub proof fn law_event_log_bounded(events: Seq<XtcpEvent>, e: XtcpEvent)
    requires
        events.len() <= MAX_EVENTS,
    ensures
        log_after(events, e).len() <= MAX_EVENTS,
        log_after(events, e).last() == e,
        log_after(events, e).drop_last() == (if events.len() >= MAX_EVENTS {
            events.drop_first()
        } else {
            events
        }),
{
    assert(log_after(events, e).drop_last() =~= (if events.len() >= MAX_EVENTS {
        events.drop_first()
    } else {
        events
    }));
}

} // verus!
