//! The client's decisions around its control connection: how it connects,
//! what it sends at login and for each proxy, how it reads the server's
//! replies, how it keeps the connection alive, how it answers the server's
//! requests, and how long it waits before reconnecting.
use vstd::prelude::*;
use crate::config::{ClientConfig, ProxyConfig, VisitorConfig};
use crate::error::{Error, Result};
use crate::protocol::message::{LoadBalancerExtra, LoginMsg, Message, NatHoleRespMsg, NatHoleVisitorMsg, NewProxyMsg, NewWorkConnMsg, NewProxyRespMsg, PongMsg, ProxyExtra, StartWorkConnMsg, StcpVisitorConnMsg, type_byte_of};
use crate::auth::{timestamp_string, timestamp_text};
use crate::crypto::{AuthSigner, signature_of};
use crate::text::{trim, trim_str, string_from, str_eq, cat3, cat5, decimal, decimal_string, is_blank};

verus! {

/// How the client reaches the server.
#[derive(Debug, Clone, Copy, PartialEq, Eq, Structural)]
pub enum TransportKind {
    PlainTcp,
    Tls,
    Ws,
    Wss,
    Kcp,
    Quic,
}

/// The way a configuration asks to reach the server: KCP and QUIC by name,
/// WebSocket with or without TLS, and anything else as TCP with or without
/// TLS.
pub open spec fn transport_kind_of(protocol: Seq<char>, tls: bool) -> TransportKind {
    if protocol == "kcp"@ {
        TransportKind::Kcp
    } else if protocol == "quic"@ {
        TransportKind::Quic
    } else if protocol == "websocket"@ {
        if tls {
            TransportKind::Wss
        } else {
            TransportKind::Ws
        }
    } else if tls {
        TransportKind::Tls
    } else {
        TransportKind::PlainTcp
    }
}

/// How the client reaches the server, for `config`.
pub fn transport_kind(config: &ClientConfig) -> (k: TransportKind)
    ensures
        k == transport_kind_of(config.transport.protocol@, config.transport.tls.enable),
{
    let p = config.transport.protocol.as_str();
    let tls = config.transport.tls.enable;
    proof {
        reveal_strlit("kcp");
        reveal_strlit("quic");
        reveal_strlit("websocket");
    }
    if str_eq(p, "kcp") {
        TransportKind::Kcp
    } else if str_eq(p, "quic") {
        TransportKind::Quic
    } else if str_eq(p, "websocket") {
        if tls {
            TransportKind::Wss
        } else {
            TransportKind::Ws
        }
    } else if tls {
        TransportKind::Tls
    } else {
        TransportKind::PlainTcp
    }
}

/// `server_addr:server_port`.
pub open spec fn server_endpoint_of(config: ClientConfig) -> Seq<char> {
    config.server_addr@ + ":"@ + decimal(config.server_port as nat)
}

/// The server's `host:port`.
pub fn server_endpoint(config: &ClientConfig) -> (s: String)
    ensures
        s@ == server_endpoint_of(*config),
{
    let port = decimal_string(config.server_port as u64);
    cat3(config.server_addr.as_str(), ":", port.as_str())
}

/// The WebSocket URL of the server: `ws://host:port/ws`, or `wss://` with
/// TLS.
pub fn websocket_url(config: &ClientConfig, secure: bool) -> (s: String)
    ensures
        s@ == (if secure {
            "wss://"@
        } else {
            "ws://"@
        }) + server_endpoint_of(*config) + "/ws"@,
{
    let endpoint = server_endpoint(config);
    if secure {
        cat3("wss://", endpoint.as_str(), "/ws")
    } else {
        cat3("ws://", endpoint.as_str(), "/ws")
    }
}

/// The name the client expects the server's certificate for: the
/// configured TLS server name, else the server address.
pub fn tls_server_name_text(config: &ClientConfig) -> (s: String)
    ensures
        s@ == if config.transport.tls.server_name@.len() > 0 {
            config.transport.tls.server_name@
        } else {
            config.server_addr@
        },
{
    if !config.transport.tls.server_name.as_str().is_empty() {
        string_from(config.transport.tls.server_name.as_str())
    } else {
        string_from(config.server_addr.as_str())
    }
}

/// The client id that a login carries: the configured one, trimmed, or
/// `user@host:server_addr` when none is configured.
pub open spec fn client_id_of(configured: Seq<char>, user: Seq<char>, host: Seq<char>, server_addr: Seq<
    char,
>) -> Seq<char> {
    if trim(configured).len() > 0 {
        trim(configured)
    } else {
        user + "@"@ + host + ":"@ + server_addr
    }
}

/// The client id of this client, given the local user and host names.
pub fn effective_client_id(config: &ClientConfig, user: &str, host: &str) -> (id: String)
    ensures
        id@ == client_id_of(config.client_id@, user@, host@, config.server_addr@),
{
    let t = trim_str(config.client_id.as_str());
    if !t.as_str().is_empty() {
        return t;
    }
    cat5(user, "@", host, ":", config.server_addr.as_str())
}

/// The login message: the client's version and environment, as privilege
/// key the HMAC signature of the timestamp under its token (the token
/// itself never goes on the wire), no run id yet, and the configured pool
/// size.
pub fn login_msg(
    config: &ClientConfig,
    version: &str,
    hostname: &str,
    os: &str,
    arch: &str,
    user: &str,
    timestamp: i64,
) -> (m: LoginMsg)
    ensures
        m.version@ == version@,
        m.hostname@ == hostname@,
        m.os@ == os@,
        m.arch@ == arch@,
        m.user@ == user@,
        m.client_id@ == client_id_of(config.client_id@, user@, hostname@, config.server_addr@),
        m.timestamp == timestamp,
        m.privilege_key@ == signature_of(config.auth.token@, timestamp_text(timestamp)),
        m.run_id@.len() == 0,
        m.pool_count == config.transport.pool_count,
{
    let ts = timestamp_string(timestamp);
    LoginMsg {
        version: string_from(version),
        hostname: string_from(hostname),
        os: string_from(os),
        arch: string_from(arch),
        user: string_from(user),
        client_id: effective_client_id(config, user, hostname),
        timestamp,
        privilege_key: AuthSigner::sign(config.auth.token.as_str(), ts.as_str()),
        run_id: String::new(),
        pool_count: config.transport.pool_count,
    }
}

/// The text of a reply of the wrong kind: `Expected <what>, got '<c>'`,
/// with the type byte of the message that came.
pub open spec fn unexpected_text(what: Seq<char>, got: Message) -> Seq<char> {
    "Expected "@ + what + ", got '"@ + seq![type_byte_of(got) as char] + "'"@
}

fn unexpected(what: &str, got: &Message) -> (e: Error)
    ensures
        e matches Error::Protocol(m) && m@ == unexpected_text(what@, *got),
{
    let mut s = cat3("Expected ", what, ", got '");
    crate::text::push_char(&mut s, got.type_byte() as char);
    crate::text::push_char(&mut s, '\'');
    proof {
        reveal_strlit("'");
    }
    assert(s@ =~= unexpected_text(what@, *got));
    Error::Protocol(s)
}

/// What the server's answer to a login means: the run id it gave, or the
/// refusal (as an authentication error), or a protocol error for another
/// message, or a closed connection.
pub fn login_outcome(reply: Option<Message>) -> (r: Result<String>)
    ensures
        match reply {
            Some(Message::LoginResp(resp)) => if resp.error@.len() > 0 {
                r matches Err(Error::Auth(m)) && m@ == resp.error@
            } else {
                r matches Ok(id) && id@ == resp.run_id@
            },
            Some(other) => r matches Err(Error::Protocol(m)) && m@ == unexpected_text(
                "LoginResp"@,
                other,
            ),
            None => r matches Err(Error::ConnectionClosed),
        },
{
    match reply {
        Some(Message::LoginResp(resp)) => {
            if !resp.error.as_str().is_empty() {
                Err(Error::Auth(resp.error))
            } else {
                Ok(resp.run_id)
            }
        },
        Some(other) => Err(unexpected("LoginResp", &other)),
        None => Err(Error::ConnectionClosed),
    }
}

/// The multiplexer a proxy registers with: the configured one, or `tcp_mux`
/// for a plain TCP proxy outside a load-balancing group when the client's
/// transport multiplexes and none is configured.
pub open spec fn multiplexer_of(p: ProxyConfig, transport_tcp_mux: bool) -> Seq<char> {
    if p.multiplexer@.len() == 0 && transport_tcp_mux && p.proxy_type@ == "tcp"@ && trim(
        p.load_balancer.group@,
    ).len() == 0 {
        "tcp_mux"@
    } else {
        p.multiplexer@
    }
}

fn copy_strings(v: &Vec<String>) -> (out: Vec<String>)
    ensures
        out@.len() == v@.len(),
        forall|i: int| 0 <= i < v@.len() ==> #[trigger] out@[i]@ == v@[i]@,
{
    let mut out: Vec<String> = Vec::new();
    let mut i: usize = 0;
    while i < v.len()
        invariant
            i <= v.len(),
            out@.len() == i,
            forall|k: int| 0 <= k < i ==> #[trigger] out@[k]@ == v@[k]@,
        decreases v.len() - i,
    {
        out.push(string_from(v[i].as_str()));
        i = i + 1;
    }
    out
}

/// The `NewProxy` message for a configured proxy: its settings, the
/// multiplexer it registers with (see `multiplexer_of`), and its
/// load-balancing group and key under `load_balancer`.
pub fn new_proxy_msg(p: &ProxyConfig, transport_tcp_mux: bool) -> (m: NewProxyMsg)
    ensures
        m.proxy_name@ == p.name@,
        m.proxy_type@ == p.proxy_type@,
        m.use_encryption == p.use_encryption,
        m.use_compression == p.use_compression,
        m.local_ip@ == p.local_ip@,
        m.local_port == p.local_port,
        m.remote_port == p.remote_port,
        m.custom_domains@.len() == p.custom_domains@.len(),
        forall|i: int|
            0 <= i < p.custom_domains@.len() ==> #[trigger] m.custom_domains@[i]@
                == p.custom_domains@[i]@,
        m.subdomain@ == p.subdomain@,
        m.locations@.len() == p.locations@.len(),
        forall|i: int| 0 <= i < p.locations@.len() ==> #[trigger] m.locations@[i]@ == p.locations@[i]@,
        m.host_header_rewrite@ == p.host_header_rewrite@,
        m.sk@ == p.sk@,
        m.multiplexer@ == multiplexer_of(*p, transport_tcp_mux),
        m.fallback_to_relay == p.fallback_to_relay,
        m.extra.group is None,
        m.extra.group_key is None,
        m.extra.load_balancer is Some,
        m.extra.load_balancer->0.group matches Some(g) && g@ == p.load_balancer.group@,
        m.extra.load_balancer->0.group_key matches Some(k) && k@ == p.load_balancer.group_key@,
{
    let has_lb_group = !is_blank(p.load_balancer.group.as_str());
    proof {
        reveal_strlit("tcp");
    }
    let multiplexer = if p.multiplexer.as_str().is_empty() && transport_tcp_mux && str_eq(
        p.proxy_type.as_str(),
        "tcp",
    ) && !has_lb_group {
        String::from_str("tcp_mux")
    } else {
        string_from(p.multiplexer.as_str())
    };
    NewProxyMsg {
        proxy_name: string_from(p.name.as_str()),
        proxy_type: string_from(p.proxy_type.as_str()),
        use_encryption: p.use_encryption,
        use_compression: p.use_compression,
        local_ip: string_from(p.local_ip.as_str()),
        local_port: p.local_port,
        remote_port: p.remote_port,
        custom_domains: copy_strings(&p.custom_domains),
        subdomain: string_from(p.subdomain.as_str()),
        locations: copy_strings(&p.locations),
        host_header_rewrite: string_from(p.host_header_rewrite.as_str()),
        sk: string_from(p.sk.as_str()),
        multiplexer,
        fallback_to_relay: p.fallback_to_relay,
        extra: ProxyExtra {
            group: None,
            group_key: None,
            load_balancer: Some(
                LoadBalancerExtra {
                    group: Some(string_from(p.load_balancer.group.as_str())),
                    group_key: Some(string_from(p.load_balancer.group_key.as_str())),
                },
            ),
        },
    }
}

/// What the server's answer to a proxy registration means.
pub fn new_proxy_outcome(reply: Option<Message>) -> (r: Result<()>)
    ensures
        match reply {
            Some(Message::NewProxyResp(resp)) => if resp.error@.len() > 0 {
                r matches Err(Error::Proxy(m)) && m@ == resp.error@
            } else {
                r is Ok
            },
            Some(other) => r matches Err(Error::Protocol(m)) && m@ == unexpected_text(
                "NewProxyResp"@,
                other,
            ),
            None => r matches Err(Error::ConnectionClosed),
        },
{
    match reply {
        Some(Message::NewProxyResp(resp)) => {
            if !resp.error.as_str().is_empty() {
                Err(Error::Proxy(resp.error))
            } else {
                Ok(())
            }
        },
        Some(other) => Err(unexpected("NewProxyResp", &other)),
        None => Err(Error::ConnectionClosed),
    }
}

/// The first message of a work connection, its key the HMAC signature of
/// the run id under the token, or the refusal to open one without a run id.
pub fn new_work_conn_msg(run_id: &str, token: &str) -> (r: Result<NewWorkConnMsg>)
    ensures
        trim(run_id@).len() == 0 ==> (r matches Err(Error::Protocol(m)) && m@
            == "refuse to create work connection with empty run_id"@),
        trim(run_id@).len() > 0 ==> (r matches Ok(m) && m.run_id@ == run_id@ && m.privilege_key@
            == signature_of(token@, run_id@)),
{
    if is_blank(run_id) {
        return Err(
            Error::Protocol(String::from_str("refuse to create work connection with empty run_id")),
        );
    }
    Ok(NewWorkConnMsg { run_id: string_from(run_id), privilege_key: AuthSigner::sign(token, run_id) })
}

/// The first message of a visitor's connection to the stcp proxy
/// `server_name`: the HMAC signature of its timestamp under the secret key
/// (the key itself never goes on the wire).
pub fn stcp_visitor_msg(server_name: &str, sk: &str, timestamp: i64) -> (m: StcpVisitorConnMsg)
    ensures
        m.proxy_name@ == server_name@,
        m.sk_signature@ == signature_of(sk@, timestamp_text(timestamp)),
        m.timestamp == timestamp,
{
    let ts = timestamp_string(timestamp);
    StcpVisitorConnMsg {
        proxy_name: string_from(server_name),
        sk_signature: AuthSigner::sign(sk, ts.as_str()),
        timestamp,
    }
}

/// What the server's first message on a work connection means: the proxy
/// the connection is for, or the refusal, a protocol error, or a closed
/// connection.
pub fn start_work_conn_outcome(reply: Option<Message>) -> (r: Result<StartWorkConnMsg>)
    ensures
        match reply {
            Some(Message::StartWorkConn(start)) => if start.error@.len() > 0 {
                r matches Err(Error::Proxy(m)) && m@ == start.error@
            } else {
                r matches Ok(s) && s.proxy_name@ == start.proxy_name@ && s.src_addr@
                    == start.src_addr@ && s.dst_addr@ == start.dst_addr@
            },
            Some(other) => r matches Err(Error::Protocol(m)) && m@ == unexpected_text(
                "StartWorkConn"@,
                other,
            ),
            None => r matches Err(Error::ConnectionClosed),
        },
{
    match reply {
        Some(Message::StartWorkConn(start)) => {
            if !start.error.as_str().is_empty() {
                Err(Error::Proxy(start.error))
            } else {
                Ok(start)
            }
        },
        Some(other) => Err(unexpected("StartWorkConn", &other)),
        None => Err(Error::ConnectionClosed),
    }
}

/// The heartbeat interval in seconds: the configured one, 30 when unset.
pub fn heartbeat_interval(config: &ClientConfig) -> (s: u64)
    ensures
        s == if config.transport.heartbeat_interval > 0 {
            config.transport.heartbeat_interval
        } else {
            30
        },
{
    if config.transport.heartbeat_interval > 0 {
        config.transport.heartbeat_interval
    } else {
        30
    }
}

/// The heartbeat timeout in seconds: the configured one, 90 when unset.
pub fn heartbeat_timeout(config: &ClientConfig) -> (s: u64)
    ensures
        s == if config.transport.heartbeat_timeout > 0 {
            config.transport.heartbeat_timeout
        } else {
            90
        },
{
    if config.transport.heartbeat_timeout > 0 {
        config.transport.heartbeat_timeout
    } else {
        90
    }
}

/// The server has been silent too long: more than `timeout` seconds since
/// the last pong.
pub fn heartbeat_expired(now: i64, last_pong: i64, timeout: u64) -> (expired: bool)
    ensures
        expired == (now - last_pong > timeout),
{
    (now as i128) - (last_pong as i128) > (timeout as i128)
}

/// What to do with a server's request for a work connection for
/// `proxy_name`: open one, unless the named proxy is not available (a
/// request without a name is always served) or the client has no run id.
pub fn serve_work_conn_request(proxy_name: &str, proxy_available: bool, run_id: &str) -> (serve: bool)
    ensures
        serve == ((proxy_name@.len() == 0 || proxy_available) && trim(run_id@).len() > 0),
{
    if !proxy_name.is_empty() && !proxy_available {
        return false;
    }
    !is_blank(run_id)
}

/// What the client does with a message that arrives on its control
/// connection.
pub enum ClientAction {
    /// Open a work connection for `proxy_name` under run id `run_id`.
    OpenWorkConn { proxy_name: String, run_id: String },
    /// Leave the server's request for `proxy_name` unanswered.
    SkipWorkConn { proxy_name: String },
    /// Send this message back.
    Reply(Message),
    /// The server is alive: note the time of its pong.
    NoteHeartbeat,
    /// Ask the xtcp proxy `proxy_name` to meet the visitor at `visitor_addr`.
    ServeNatHole { proxy_name: String, visitor_addr: String },
    /// Hand the server's xtcp answer to the waiting visitor.
    CompleteXtcp(NatHoleRespMsg),
    /// Hand the server's answer to a registration to its waiter.
    CompleteRegistration(NewProxyRespMsg),
    /// The server asked the client to exit without reconnecting, for this
    /// reason.
    Exit { reason: String },
    /// A message the client does not expect, with its type byte.
    Unexpected(u8),
}

/// The step of the client's message loop for `msg`, at time `now`, with
/// run id `run_id`; `proxy_available` tells whether the proxy a work
/// connection request names may take work.
pub fn client_step(msg: Message, proxy_available: bool, run_id: &str, now: i64) -> (a: ClientAction)
    ensures
        match msg {
            Message::ReqWorkConn(r) => if (r.proxy_name@.len() == 0 || proxy_available) && trim(
                run_id@,
            ).len() > 0 {
                a matches ClientAction::OpenWorkConn { proxy_name, run_id: id } && proxy_name@
                    == r.proxy_name@ && id@ == run_id@
            } else {
                a matches ClientAction::SkipWorkConn { proxy_name } && proxy_name@ == r.proxy_name@
            },
            Message::Ping(_) => a == ClientAction::Reply(Message::Pong(PongMsg { timestamp: now })),
            Message::Pong(_) => a is NoteHeartbeat,
            Message::NatHoleClient(r) => a matches ClientAction::ServeNatHole { proxy_name, visitor_addr }
                && proxy_name == r.proxy_name && visitor_addr == r.visitor_addr,
            Message::NatHoleResp(r) => a == ClientAction::CompleteXtcp(r),
            Message::NewProxyResp(r) => a == ClientAction::CompleteRegistration(r),
            Message::ServerShutdown(r) => a == ClientAction::Exit { reason: r.reason },
            other => a == ClientAction::Unexpected(type_byte_of(other)),
        },
{
    match msg {
        Message::ReqWorkConn(r) => {
            if serve_work_conn_request(r.proxy_name.as_str(), proxy_available, run_id) {
                ClientAction::OpenWorkConn { proxy_name: r.proxy_name, run_id: string_from(run_id) }
            } else {
                ClientAction::SkipWorkConn { proxy_name: r.proxy_name }
            }
        },
        Message::Ping(_) => ClientAction::Reply(Message::Pong(PongMsg { timestamp: now })),
        Message::Pong(_) => ClientAction::NoteHeartbeat,
        Message::NatHoleClient(r) => ClientAction::ServeNatHole {
            proxy_name: r.proxy_name,
            visitor_addr: r.visitor_addr,
        },
        Message::NatHoleResp(r) => ClientAction::CompleteXtcp(r),
        Message::NewProxyResp(r) => ClientAction::CompleteRegistration(r),
        Message::ServerShutdown(r) => ClientAction::Exit { reason: r.reason },
        other => {
            let b = other.type_byte();
            ClientAction::Unexpected(b)
        },
    }
}

/// The provider's answer to the server's xtcp request: the address it
/// listens at, or the error text.
pub fn nat_hole_answer(visitor_addr: &str, outcome: &core::result::Result<String, String>) -> (r:
    NatHoleRespMsg)
    ensures
        r.visitor_addr@ == visitor_addr@,
        r.relay_addr@.len() == 0,
        match outcome {
            Ok(addr) => r.client_addr@ == addr@ && r.error@.len() == 0,
            Err(e) => r.client_addr@.len() == 0 && r.error@ == e@,
        },
{
    match outcome {
        Ok(addr) => NatHoleRespMsg {
            visitor_addr: string_from(visitor_addr),
            client_addr: string_from(addr.as_str()),
            relay_addr: String::new(),
            error: String::new(),
        },
        Err(e) => NatHoleRespMsg {
            visitor_addr: string_from(visitor_addr),
            client_addr: String::new(),
            relay_addr: String::new(),
            error: string_from(e.as_str()),
        },
    }
}

/// A visitor's request to reach the xtcp proxy `server_name`, signed with
/// its secret key: `<sk>|<visitor_addr>`; refused while another is in
/// progress.
pub fn xtcp_visitor_request(server_name: &str, sk: &str, visitor_addr: &str, in_progress: bool) -> (r:
    Result<NatHoleVisitorMsg>)
    ensures
        in_progress ==> (r matches Err(Error::Proxy(m)) && m@
            == "xtcp visitor request already in progress"@),
        !in_progress ==> (r matches Ok(m) && m.proxy_name@ == server_name@ && m.signed_msg@ == sk@
            + "|"@ + visitor_addr@),
{
    if in_progress {
        return Err(Error::Proxy(String::from_str("xtcp visitor request already in progress")));
    }
    Ok(NatHoleVisitorMsg { proxy_name: string_from(server_name), signed_msg: cat3(sk, "|", visitor_addr) })
}

/// What the server's xtcp answer means to the waiting visitor: the answer,
/// or its error.
pub fn nat_hole_result(resp: NatHoleRespMsg) -> (r: Result<NatHoleRespMsg>)
    ensures
        resp.error@.len() == 0 ==> (r matches Ok(x) && x == resp),
        resp.error@.len() > 0 ==> (r matches Err(Error::Proxy(m)) && m@ == resp.error@),
{
    if resp.error.as_str().is_empty() {
        Ok(resp)
    } else {
        Err(Error::Proxy(resp.error))
    }
}

/// Where an xtcp visitor listens, or why it cannot: `bind_addr` (127.0.0.1
/// when blank) and `bind_port`, which must be set.
pub fn visitor_listen_addr(v: &VisitorConfig) -> (r: Result<String>)
    ensures
        v.bind_port == 0 ==> (r matches Err(Error::Config(m)) && m@ == "xtcp visitor "@ + v.name@
            + " bind_port cannot be 0"@),
        v.bind_port > 0 ==> (r matches Ok(a) && a@ == (if trim(v.bind_addr@).len() == 0 {
            "127.0.0.1"@
        } else {
            v.bind_addr@
        }) + ":"@ + decimal(v.bind_port as nat)),
{
    if v.bind_port == 0 {
        return Err(Error::Config(cat3("xtcp visitor ", v.name.as_str(), " bind_port cannot be 0")));
    }
    let port = decimal_string(v.bind_port as u64);
    if is_blank(v.bind_addr.as_str()) {
        Ok(cat3("127.0.0.1", ":", port.as_str()))
    } else {
        Ok(cat3(v.bind_addr.as_str(), ":", port.as_str()))
    }
}

/// How long a visitor waits for a direct connection: the configured
/// timeout, at least 3 seconds.
pub fn punch_timeout_secs(v: &VisitorConfig) -> (s: u64)
    ensures
        s == if v.xtcp_punch_timeout_secs > 3 {
            v.xtcp_punch_timeout_secs
        } else {
            3
        },
{
    if v.xtcp_punch_timeout_secs > 3 {
        v.xtcp_punch_timeout_secs
    } else {
        3
    }
}

/// What a visitor does when the direct connection failed with error text
/// `direct_error`.
pub enum FallbackDecision {
    /// Connect to the relay at this address.
    UseRelay(String),
    /// Give up with this error.
    Fail(Error),
}

/// Decides the fallback after a failed direct connection: the relay when
/// the visitor allows it and the server gave one, else the error.
pub fn decide_fallback(v: &VisitorConfig, relay_addr: &str, direct_error: &str) -> (d: FallbackDecision)
    ensures
        v.fallback_to_relay && relay_addr@.len() > 0 ==> (d matches FallbackDecision::UseRelay(a)
            && a@ == relay_addr@),
        v.fallback_to_relay && relay_addr@.len() == 0 ==> (d matches FallbackDecision::Fail(
            Error::Proxy(m),
        ) && m@ == "xtcp direct failed: "@ + direct_error@ + ", relay unavailable"@),
        !v.fallback_to_relay ==> (d matches FallbackDecision::Fail(Error::Proxy(m)) && m@
            == "xtcp direct failed: "@ + direct_error@ + " (fallback disabled)"@),
{
    if v.fallback_to_relay && !relay_addr.is_empty() {
        FallbackDecision::UseRelay(string_from(relay_addr))
    } else if v.fallback_to_relay {
        FallbackDecision::Fail(
            Error::Proxy(cat3("xtcp direct failed: ", direct_error, ", relay unavailable")),
        )
    } else {
        FallbackDecision::Fail(
            Error::Proxy(cat3("xtcp direct failed: ", direct_error, " (fallback disabled)")),
        )
    }
}

/// The longest wait between reconnections, in seconds.
pub const MAX_BACKOFF_SECS: u64 = 30;

/// The wait before reconnection attempt `retry_count`: 2^retry_count
/// seconds, doubling up to 2^5 and never more than 30.
pub open spec fn backoff_of(retry_count: u32) -> u64 {
    let e = if retry_count < 5 {
        retry_count
    } else {
        5
    };
    let d = vstd::arithmetic::power2::pow2(e as nat);
    if d < MAX_BACKOFF_SECS {
        d as u64
    } else {
        MAX_BACKOFF_SECS
    }
}

/// The wait before reconnection attempt `retry_count`.
pub fn reconnect_backoff(retry_count: u32) -> (secs: u64)
    ensures
        secs == backoff_of(retry_count),
{
    let e: u32 = if retry_count < 5 {
        retry_count
    } else {
        5
    };
    let d: u64 = 1u64 << (e as u64);
    proof {
        vstd::arithmetic::power2::lemma2_to64();
        assert(d == vstd::arithmetic::power2::pow2(e as nat)) by {
            vstd::bits::lemma_u64_shl_is_mul(1, e as u64);
            vstd::arithmetic::power2::lemma_pow2(e as nat);
        }
    }
    if d < MAX_BACKOFF_SECS {
        d
    } else {
        MAX_BACKOFF_SECS
    }
}

/// Law: the wait between reconnections grows with the attempt count and
/// never passes 30 seconds.
pub proof fn law_backoff_bounded_and_monotone(a: u32, b: u32)
    requires
        a <= b,
    ensures
        1 <= backoff_of(a) <= backoff_of(b) <= MAX_BACKOFF_SECS,
{
    vstd::arithmetic::power2::lemma2_to64();
    let ea = if a < 5 {
        a
    } else {
        5
    };
    let eb = if b < 5 {
        b
    } else {
        5
    };
    assert(ea <= eb);
    vstd::arithmetic::power2::lemma_pow2_pos(ea as nat);
    vstd::arithmetic::power2::lemma_pow2_strictly_increases(0, 1);
    if ea < eb {
        vstd::arithmetic::power2::lemma_pow2_strictly_increases(ea as nat, eb as nat);
    }
}

/// What the client does after its control connection failed with `e`.
pub enum ReconnectDecision {
    /// Wait this many seconds, then connect again (the attempt count is
    /// given too).
    Retry { attempt: u32, wait_secs: u64 },
    /// Give up: the error is permanent.
    GiveUp,
}

/// Decides on a failed connection: retriable errors are retried after the
/// backoff of the next attempt, others end the client.
pub fn after_failure(e: &Error, retry_count: u32) -> (d: ReconnectDecision)
    requires
        retry_count < u32::MAX,
    ensures
        crate::error::retriable(*e) ==> (d matches ReconnectDecision::Retry { attempt, wait_secs }
            && attempt == retry_count + 1 && wait_secs == backoff_of((retry_count + 1) as u32)),
        !crate::error::retriable(*e) ==> d is GiveUp,
{
    if e.is_retriable() {
        let attempt = retry_count + 1;
        ReconnectDecision::Retry { attempt, wait_secs: reconnect_backoff(attempt) }
    } else {
        ReconnectDecision::GiveUp
    }
}

/// The texts of a list of strings.
pub open spec fn texts_of(v: Seq<String>) -> Seq<Seq<char>> {
    v.map_values(|s: String| s@)
}

/// The names of the proxies of a configuration.
pub open spec fn proxy_names(ps: Seq<ProxyConfig>) -> Seq<Seq<char>> {
    ps.map_values(|p: ProxyConfig| p.name@)
}

/// The running proxies, of those named `running`, that a reload closes:
/// those the new configuration `next` no longer names, in order.
pub open spec fn closed_by_reload(running: Seq<Seq<char>>, next: Seq<ProxyConfig>) -> Seq<Seq<char>>
    decreases running.len(),
{
    if running.len() == 0 {
        Seq::empty()
    } else {
        let rest = closed_by_reload(running.drop_last(), next);
        if proxy_names(next).contains(running.last()) {
            rest
        } else {
            rest.push(running.last())
        }
    }
}

/// The positions in the new configuration `next` of the proxies a reload
/// registers: those not among the running ones, in order.
pub open spec fn added_by_reload(running: Seq<Seq<char>>, next: Seq<ProxyConfig>) -> Seq<int>
    decreases next.len(),
{
    if next.len() == 0 {
        Seq::empty()
    } else {
        let rest = added_by_reload(running, next.drop_last());
        if running.contains(next.last().name@) {
            rest
        } else {
            rest.push(next.len() - 1)
        }
    }
}

fn names_contain(names: &[String], n: &str) -> (b: bool)
    ensures
        b == texts_of(names@).contains(n@),
{
    let mut i: usize = 0;
    while i < names.len()
        invariant
            i <= names.len(),
            forall|k: int| 0 <= k < i ==> names@[k]@ != n@,
        decreases names.len() - i,
    {
        if str_eq(names[i].as_str(), n) {
            assert(texts_of(names@)[i as int] == n@);
            return true;
        }
        i = i + 1;
    }
    assert forall|k: int| 0 <= k < names@.len() implies #[trigger] texts_of(names@)[k] != n@ by {
        assert(names@[k]@ != n@);
    }
    false
}

fn config_names_contain(ps: &[ProxyConfig], n: &str) -> (b: bool)
    ensures
        b == proxy_names(ps@).contains(n@),
{
    let mut i: usize = 0;
    while i < ps.len()
        invariant
            i <= ps.len(),
            forall|k: int| 0 <= k < i ==> ps@[k].name@ != n@,
        decreases ps.len() - i,
    {
        if str_eq(ps[i].name.as_str(), n) {
            assert(proxy_names(ps@)[i as int] == n@);
            return true;
        }
        i = i + 1;
    }
    assert forall|k: int| 0 <= k < ps@.len() implies #[trigger] proxy_names(ps@)[k] != n@ by {
        assert(ps@[k].name@ != n@);
    }
    false
}

/// What a reload of the configuration `next` does while the proxies named
/// `running` run: the names to close (see `closed_by_reload`) and the
/// positions in `next` of the proxies to register (see `added_by_reload`).
pub fn reload_plan(running: &[String], next: &[ProxyConfig]) -> (r: (Vec<String>, Vec<usize>))
    ensures
        texts_of(r.0@) == closed_by_reload(texts_of(running@), next@),
        r.1@.map_values(|i: usize| i as int) == added_by_reload(texts_of(running@), next@),
{
    let ghost rn = texts_of(running@);
    let mut closed: Vec<String> = Vec::new();
    let mut i: usize = 0;
    while i < running.len()
        invariant
            i <= running.len(),
            rn == texts_of(running@),
            texts_of(closed@) == closed_by_reload(rn.take(i as int), next@),
        decreases running.len() - i,
    {
        assert(rn.take(i + 1).drop_last() =~= rn.take(i as int));
        let ghost before = closed@;
        if !config_names_contain(next, running[i].as_str()) {
            closed.push(string_from(running[i].as_str()));
            assert(texts_of(closed@) =~= texts_of(before).push(running@[i as int]@));
        }
        i = i + 1;
    }
    assert(rn.take(running.len() as int) =~= rn);
    let mut added: Vec<usize> = Vec::new();
    let mut j: usize = 0;
    while j < next.len()
        invariant
            j <= next.len(),
            rn == texts_of(running@),
            added@.map_values(|x: usize| x as int) == added_by_reload(rn, next@.take(j as int)),
        decreases next.len() - j,
    {
        assert(next@.take(j + 1).drop_last() =~= next@.take(j as int));
        let ghost before = added@;
        if !names_contain(running, next[j].name.as_str()) {
            added.push(j);
            assert(added@.map_values(|x: usize| x as int) =~= before.map_values(|x: usize| x as int).push(j as int));
        }
        j = j + 1;
    }
    assert(next@.take(next.len() as int) =~= next@);
    (closed, added)
}

} // verus!
