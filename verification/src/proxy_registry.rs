//! The server's decisions on proxy registration: which kind of proxy a
//! `NewProxy` message asks for, which requests are refused and why, the
//! load-balancing group it joins, and the address reported back.
use vstd::prelude::*;
use crate::error::{Error, Result};
use crate::protocol::message::{NewProxyMsg, ProxyExtra, LoadBalancerExtra, StcpVisitorConnMsg};
use crate::auth::{timestamp_string, timestamp_text, within_window, LOGIN_WINDOW_SECS};
use crate::crypto::{AuthSigner, signature_of};
use crate::text::{
    trim, trim_str, string_from, str_eq, cat2, cat3, cat5, decimal, decimal_string,
};

verus! {

/// What the server keeps about a registered proxy.
#[derive(Debug, Clone)]
pub struct ProxyRecord {
    pub run_id: String,
    pub proxy_name: String,
    pub proxy_type: String,
    pub remote_addr: String,
}

/// What the server keeps about an xtcp proxy, for visitors to reach it.
#[derive(Debug, Clone)]
pub struct XtcpProxyInfo {
    pub run_id: String,
    pub sk: String,
    pub relay_addr: String,
}

/// The kinds of proxy the server runs.
#[derive(Debug, Clone, Copy, PartialEq, Eq, Structural)]
pub enum ProxyKind {
    /// A TCP proxy with a listener of its own.
    Tcp,
    /// A TCP proxy that joins a load-balancing group.
    TcpGroup,
    /// A secret TCP proxy: no public port; visitors that know its key reach
    /// it through the server.
    Stcp,
    Http,
    Https,
    /// A UDP (or SUDP) proxy.
    Udp,
    Xtcp,
}

/// The key a proxy is registered under: `run_id:proxy_name`.
pub open spec fn key_of(run_id: Seq<char>, proxy_name: Seq<char>) -> Seq<char> {
    run_id + ":"@ + proxy_name
}

/// The key a proxy is registered under.
pub fn proxy_key(run_id: &str, proxy_name: &str) -> (k: String)
    ensures
        k@ == key_of(run_id@, proxy_name@),
{
    cat3(run_id, ":", proxy_name)
}

/// The trimmed text of an optional string field, empty when absent.
pub open spec fn field_text(v: Option<String>) -> Seq<char> {
    match v {
        Some(s) => trim(s@),
        None => Seq::empty(),
    }
}

/// The load-balancing group and group key that a message's extra fields
/// name: the top-level `group`/`group_key`, each falling back to the one in
/// `load_balancer` when it is empty.
pub open spec fn lb_group_of(extra: ProxyExtra) -> (Seq<char>, Seq<char>) {
    let g = field_text(extra.group);
    let k = field_text(extra.group_key);
    match extra.load_balancer {
        Some(lb) => (
            if g.len() == 0 && lb.group is Some {
                field_text(lb.group)
            } else {
                g
            },
            if k.len() == 0 && lb.group_key is Some {
                field_text(lb.group_key)
            } else {
                k
            },
        ),
        None => (g, k),
    }
}

fn field_string(v: &Option<String>) -> (s: String)
    ensures
        s@ == field_text(*v),
{
    match v {
        Some(x) => trim_str(x.as_str()),
        None => String::new(),
    }
}

/// The load-balancing group and group key of a `NewProxy` message.
pub fn parse_lb_group(msg: &NewProxyMsg) -> (r: (String, String))
    ensures
        (r.0@, r.1@) == lb_group_of(msg.extra),
{
    let mut group = field_string(&msg.extra.group);
    let mut group_key = field_string(&msg.extra.group_key);
    match &msg.extra.load_balancer {
        Some(lb) => {
            if group.as_str().is_empty() {
                if let Some(v) = &lb.group {
                    group = trim_str(v.as_str());
                }
            }
            if group_key.as_str().is_empty() {
                if let Some(v) = &lb.group_key {
                    group_key = trim_str(v.as_str());
                }
            }
        },
        None => {},
    }
    (group, group_key)
}

/// The kind of proxy a type name asks for, if the server runs it.
pub open spec fn kind_of(proxy_type: Seq<char>, group: Seq<char>) -> Option<ProxyKind> {
    if proxy_type == "stcp"@ {
        Some(ProxyKind::Stcp)
    } else if proxy_type == "tcp"@ {
        if group.len() == 0 {
            Some(ProxyKind::Tcp)
        } else {
            Some(ProxyKind::TcpGroup)
        }
    } else if proxy_type == "http"@ {
        Some(ProxyKind::Http)
    } else if proxy_type == "https"@ {
        Some(ProxyKind::Https)
    } else if proxy_type == "udp"@ || proxy_type == "sudp"@ {
        Some(ProxyKind::Udp)
    } else if proxy_type == "xtcp"@ {
        Some(ProxyKind::Xtcp)
    } else {
        None
    }
}

/// Why a registration is refused before any proxy is made, if it is: the
/// key is taken; a grouped TCP proxy has no fixed port; an xtcp proxy has
/// no secret key or its name is taken; the type is not supported.
pub open spec fn registration_refusal(
    msg: NewProxyMsg,
    key_taken: bool,
    xtcp_name_taken: bool,
) -> Option<Seq<char>> {
    let t = msg.proxy_type@;
    let group = lb_group_of(msg.extra).0;
    if key_taken {
        Some("Proxy "@ + msg.proxy_name@ + " already exists"@)
    } else {
        match kind_of(t, group) {
            None => Some("Unsupported proxy type: "@ + t),
            Some(ProxyKind::TcpGroup) => if msg.remote_port == 0 {
                Some("tcp/stcp load_balancer.group requires fixed remote_port"@)
            } else {
                None
            },
            Some(ProxyKind::Xtcp) => if trim(msg.sk@).len() == 0 {
                Some("xtcp proxy requires sk"@)
            } else if xtcp_name_taken {
                Some("xtcp proxy "@ + msg.proxy_name@ + " already exists"@)
            } else {
                None
            },
            _ => None,
        }
    }
}

/// The id of the load-balancing group a grouped TCP proxy joins:
/// `type:port:group:key`.
pub open spec fn group_id_of(msg: NewProxyMsg) -> Seq<char> {
    msg.proxy_type@ + ":"@ + decimal(msg.remote_port as nat) + ":"@ + lb_group_of(msg.extra).0
        + ":"@ + lb_group_of(msg.extra).1
}

/// The decision on a registration that goes ahead.
#[derive(Debug)]
pub struct RegistrationPlan {
    pub kind: ProxyKind,
    /// The key the proxy is registered under.
    pub proxy_key: String,
    /// For a grouped TCP proxy, the group it joins.
    pub group_id: String,
}

fn type_is(t: &str, name: &str) -> (b: bool)
    ensures
        b == (t@ == name@),
{
    str_eq(t, name)
}

/// Decides on a `NewProxy` message from run `run_id`: refuses it (see
/// `registration_refusal`), or says which kind of proxy to make, under
/// which key, and which group a grouped TCP proxy joins. `key_taken` tells
/// whether the key is registered already, `xtcp_name_taken` whether an
/// xtcp proxy of that name is.
pub fn plan_registration(
    run_id: &str,
    msg: &NewProxyMsg,
    key_taken: bool,
    xtcp_name_taken: bool,
) -> (r: Result<RegistrationPlan>)
    ensures
        registration_refusal(*msg, key_taken, xtcp_name_taken) is Some <==> r is Err,
        r matches Err(e) ==> (e matches Error::Proxy(m) && Some(m@) == registration_refusal(
            *msg,
            key_taken,
            xtcp_name_taken,
        )),
        r matches Ok(p) ==> Some(p.kind) == kind_of(msg.proxy_type@, lb_group_of(msg.extra).0)
            && p.proxy_key@ == key_of(run_id@, msg.proxy_name@) && (p.kind == ProxyKind::TcpGroup
            ==> p.group_id@ == group_id_of(*msg)) && (p.kind != ProxyKind::TcpGroup
            ==> p.group_id@.len() == 0),
{
    if key_taken {
        let m = cat3("Proxy ", msg.proxy_name.as_str(), " already exists");
        return Err(Error::Proxy(m));
    }
    let key = proxy_key(run_id, msg.proxy_name.as_str());
    let t = msg.proxy_type.as_str();
    proof {
        reveal_strlit("tcp");
        reveal_strlit("stcp");
        reveal_strlit("http");
        reveal_strlit("https");
        reveal_strlit("udp");
        reveal_strlit("sudp");
        reveal_strlit("xtcp");
    }
    if type_is(t, "stcp") {
        return Ok(RegistrationPlan { kind: ProxyKind::Stcp, proxy_key: key, group_id: String::new() });
    }
    if type_is(t, "tcp") {
        let (group, group_key) = parse_lb_group(msg);
        if group.as_str().is_empty() {
            return Ok(RegistrationPlan { kind: ProxyKind::Tcp, proxy_key: key, group_id: String::new() });
        }
        if msg.remote_port == 0 {
            return Err(
                Error::Proxy(String::from_str("tcp/stcp load_balancer.group requires fixed remote_port")),
            );
        }
        let port = decimal_string(msg.remote_port as u64);
        let head = cat5(t, ":", port.as_str(), ":", group.as_str());
        let group_id = cat3(head.as_str(), ":", group_key.as_str());
        Ok(RegistrationPlan { kind: ProxyKind::TcpGroup, proxy_key: key, group_id })
    } else if type_is(t, "http") {
        Ok(RegistrationPlan { kind: ProxyKind::Http, proxy_key: key, group_id: String::new() })
    } else if type_is(t, "https") {
        Ok(RegistrationPlan { kind: ProxyKind::Https, proxy_key: key, group_id: String::new() })
    } else if type_is(t, "udp") || type_is(t, "sudp") {
        Ok(RegistrationPlan { kind: ProxyKind::Udp, proxy_key: key, group_id: String::new() })
    } else if type_is(t, "xtcp") {
        let sk = trim_str(msg.sk.as_str());
        if sk.as_str().is_empty() {
            return Err(Error::Proxy(String::from_str("xtcp proxy requires sk")));
        }
        if xtcp_name_taken {
            let m = cat3("xtcp proxy ", msg.proxy_name.as_str(), " already exists");
            return Err(Error::Proxy(m));
        }
        Ok(RegistrationPlan { kind: ProxyKind::Xtcp, proxy_key: key, group_id: String::new() })
    } else {
        let m = cat2("Unsupported proxy type: ", t);
        Err(Error::Proxy(m))
    }
}

/// The address reported for an stcp proxy, which has no public port.
pub fn stcp_remote_addr() -> (s: String)
    ensures
        s@ == "stcp"@,
{
    String::from_str("stcp")
}

/// The server's check of a visitor's connection to the stcp proxy that
/// `msg` names, whose provider registered secret key `sk` (none when no
/// stcp proxy of that name is registered), at the server's time `now`: the
/// visitor's signature must be the HMAC of its timestamp under the key, and
/// the timestamp must lie within the login window.
pub fn check_stcp_visitor(msg: &StcpVisitorConnMsg, sk: Option<&str>, now: i64) -> (r: Result<()>)
    ensures
        sk is None ==> (r matches Err(Error::Proxy(m)) && m@ == "stcp proxy "@ + msg.proxy_name@
            + " not found"@),
        sk matches Some(k) ==> (r is Ok <==> (msg.sk_signature@ == signature_of(
            k@,
            timestamp_text(msg.timestamp),
        ) && within_window(now, msg.timestamp))),
        sk is Some && r is Err ==> (r matches Err(Error::Proxy(m)) && m@ == "stcp visitor sk mismatch"@),
{
    let k = match sk {
        Some(k) => k,
        None => return Err(Error::Proxy(cat3("stcp proxy ", msg.proxy_name.as_str(), " not found"))),
    };
    let ts = timestamp_string(msg.timestamp);
    let signed = AuthSigner::verify(k, ts.as_str(), msg.sk_signature.as_str());
    let d = (now as i128) - (msg.timestamp as i128);
    if !signed || d > LOGIN_WINDOW_SECS as i128 || 0 - d > LOGIN_WINDOW_SECS as i128 {
        return Err(Error::Proxy(String::from_str("stcp visitor sk mismatch")));
    }
    Ok(())
}

/// The address reported for a proxy listening on `port`: `0.0.0.0:port`.
pub open spec fn listen_addr_of(port: u16) -> Seq<char> {
    "0.0.0.0:"@ + decimal(port as nat)
}

/// The address reported for a proxy that listens on `port`.
pub fn remote_addr_for_port(port: u16) -> (s: String)
    ensures
        s@ == listen_addr_of(port),
{
    let p = decimal_string(port as u64);
    cat2("0.0.0.0:", p.as_str())
}

/// The address reported for an xtcp proxy: `xtcp`, or `xtcp(relay=..)`
/// when it has a relay.
pub open spec fn xtcp_addr_of(relay_addr: Seq<char>) -> Seq<char> {
    if relay_addr.len() == 0 {
        "xtcp"@
    } else {
        "xtcp(relay="@ + relay_addr + ")"@
    }
}

/// The address reported for an xtcp proxy with relay address `relay_addr`
/// (empty when it has no relay).
pub fn xtcp_remote_addr(relay_addr: &str) -> (s: String)
    ensures
        s@ == xtcp_addr_of(relay_addr@),
{
    if relay_addr.is_empty() {
        String::from_str("xtcp")
    } else {
        cat3("xtcp(relay=", relay_addr, ")")
    }
}

fn copy_strings(v: &Vec<String>) -> (out: Vec<String>)
    ensures
        out@.len() == v@.len(),
        forall|i: int| 0 <= i < v@.len() ==> #[trigger] out@[i]@ == v@[i]@,
{
    let mut out: Vec<String> = Vec::new();
    let mut i: usize = 0;
    while i < v.len()
        invariant
            i <= v.len(),
            out@.len() == i,
            forall|k: int| 0 <= k < i ==> #[trigger] out@[k]@ == v@[k]@,
        decreases v.len() - i,
    {
        out.push(string_from(v[i].as_str()));
        i = i + 1;
    }
    out
}

fn copy_opt(v: &Option<String>) -> (out: Option<String>)
    ensures
        out is Some == v is Some,
        out matches Some(x) ==> x@ == v->0@,
{
    match v {
        Some(s) => Some(string_from(s.as_str())),
        None => None,
    }
}

/// The message of the relay proxy behind an xtcp proxy that falls back to
/// relaying: the same message, named `<name>__relay`, of type `tcp`, with
/// no secret key and no multiplexer.
pub fn relay_proxy_msg(msg: &NewProxyMsg) -> (r: NewProxyMsg)
    ensures
        r.proxy_name@ == msg.proxy_name@ + "__relay"@,
        r.proxy_type@ == "tcp"@,
        r.sk@.len() == 0,
        r.multiplexer@.len() == 0,
        r.use_encryption == msg.use_encryption,
        r.use_compression == msg.use_compression,
        r.local_ip@ == msg.local_ip@,
        r.local_port == msg.local_port,
        r.remote_port == msg.remote_port,
        r.custom_domains@.len() == msg.custom_domains@.len(),
        forall|i: int|
            0 <= i < msg.custom_domains@.len() ==> #[trigger] r.custom_domains@[i]@
                == msg.custom_domains@[i]@,
        r.subdomain@ == msg.subdomain@,
        r.locations@.len() == msg.locations@.len(),
        forall|i: int|
            0 <= i < msg.locations@.len() ==> #[trigger] r.locations@[i]@ == msg.locations@[i]@,
        r.host_header_rewrite@ == msg.host_header_rewrite@,
        r.fallback_to_relay == msg.fallback_to_relay,
        lb_group_of(r.extra) == lb_group_of(msg.extra),
{
    let lb = match &msg.extra.load_balancer {
        Some(l) => Some(LoadBalancerExtra { group: copy_opt(&l.group), group_key: copy_opt(&l.group_key) }),
        None => None,
    };
    let extra = ProxyExtra {
        group: copy_opt(&msg.extra.group),
        group_key: copy_opt(&msg.extra.group_key),
        load_balancer: lb,
    };
    NewProxyMsg {
        proxy_name: cat2(msg.proxy_name.as_str(), "__relay"),
        proxy_type: String::from_str("tcp"),
        use_encryption: msg.use_encryption,
        use_compression: msg.use_compression,
        local_ip: string_from(msg.local_ip.as_str()),
        local_port: msg.local_port,
        remote_port: msg.remote_port,
        custom_domains: copy_strings(&msg.custom_domains),
        subdomain: string_from(msg.subdomain.as_str()),
        locations: copy_strings(&msg.locations),
        host_header_rewrite: string_from(msg.host_header_rewrite.as_str()),
        sk: String::new(),
        multiplexer: String::new(),
        fallback_to_relay: msg.fallback_to_relay,
        extra,
    }
}

} // verus!
