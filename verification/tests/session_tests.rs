use std::collections::HashMap;

use arp::client_control::{
    after_failure, decide_fallback, reload_plan, effective_client_id, heartbeat_expired, heartbeat_interval,
    heartbeat_timeout, login_msg, login_outcome, nat_hole_answer, nat_hole_result, new_proxy_msg,
    new_proxy_outcome, new_work_conn_msg, punch_timeout_secs, reconnect_backoff, serve_work_conn_request,
    server_endpoint, start_work_conn_outcome, tls_server_name_text, transport_kind, visitor_listen_addr,
    websocket_url, xtcp_visitor_request, FallbackDecision, ReconnectDecision, TransportKind,
};
use arp::config::{
    AuthConfig, ClientConfig, HealthCheckConfig, LoadBalancerConfig, PluginConfig, ProxyConfig, ServerConfig,
    TransportConfig, VisitorConfig,
};
use arp::protocol::{
    LoginMsg, LoginRespMsg, Message, NatHoleRespMsg, NewProxyRespMsg, NewWorkConnMsg, PingMsg, StartWorkConnMsg,
};
use arp::server_session::{
    bind_endpoint, check_tls_files, check_work_conn_run_id, dashboard_listen_addr, listener_kind, login_reply,
    route_first_message, stream_setup, unknown_run_id, FirstMessage, ListenerKind, StreamSetup,
};
use arp::client_control::{client_step, stcp_visitor_msg, ClientAction};
use arp::protocol::{NatHoleClientMsg, PongMsg, ReqWorkConnMsg};
use arp::Error;

fn client_config() -> ClientConfig {
    ClientConfig {
        server_addr: "example.com".to_string(),
        server_port: 7000,
        client_id: String::new(),
        log_level: String::new(),
        auth: AuthConfig { token: "tok".to_string(), ..AuthConfig::default() },
        transport: TransportConfig::default(),
        admin_addr: String::new(),
        admin_port: 0,
        admin_user: String::new(),
        admin_pwd: String::new(),
        proxies: Vec::new(),
        visitors: Vec::new(),
    }
}

fn server_config() -> ServerConfig {
    ServerConfig {
        bind_addr: "0.0.0.0".to_string(),
        bind_port: 7000,
        kcp_bind_port: 0,
        quic_bind_port: 0,
        vhost_http_port: 0,
        vhost_https_port: 0,
        dashboard_addr: String::new(),
        dashboard_port: 0,
        dashboard_user: String::new(),
        dashboard_pwd: String::new(),
        log_level: String::new(),
        auth: AuthConfig::default(),
        transport: TransportConfig::default(),
        allow_ports: Vec::new(),
        max_pool_count: 0,
        max_ports_per_client: 0,
        subdomain_host: String::new(),
        tcp_mux: false,
        custom: HashMap::new(),
    }
}

fn proxy(name: &str, proxy_type: &str) -> ProxyConfig {
    ProxyConfig {
        name: name.to_string(),
        proxy_type: proxy_type.to_string(),
        local_ip: "127.0.0.1".to_string(),
        local_port: 22,
        remote_port: 6000,
        use_encryption: false,
        use_compression: false,
        custom_domains: Vec::new(),
        subdomain: String::new(),
        locations: Vec::new(),
        host_header_rewrite: String::new(),
        http_user: String::new(),
        http_pwd: String::new(),
        sk: String::new(),
        fallback_to_relay: false,
        multiplexer: String::new(),
        bandwidth_limit: String::new(),
        bandwidth_limit_mode: String::new(),
        health_check: HealthCheckConfig::default(),
        load_balancer: LoadBalancerConfig::default(),
        plugin: PluginConfig::default(),
    }
}

fn visitor(bind_addr: &str, bind_port: u16, fallback: bool, punch: u64) -> VisitorConfig {
    VisitorConfig {
        name: "v".to_string(),
        visitor_type: "xtcp".to_string(),
        server_name: "x".to_string(),
        sk: "k".to_string(),
        bind_addr: bind_addr.to_string(),
        bind_port,
        fallback_to_relay: fallback,
        xtcp_punch_timeout_secs: punch,
    }
}

fn protocol_text<T>(e: Result<T, Error>) -> String {
    match e {
        Err(Error::Protocol(m)) => m,
        Err(other) => panic!("expected a protocol error, got {}", other.message()),
        Ok(_) => panic!("expected a protocol error"),
    }
}

#[test]
fn client_transport_choice() {
    let mut c = client_config();
    assert_eq!(transport_kind(&c), TransportKind::PlainTcp);
    c.transport.tls.enable = true;
    assert_eq!(transport_kind(&c), TransportKind::Tls);
    c.transport.protocol = "websocket".to_string();
    assert_eq!(transport_kind(&c), TransportKind::Wss);
    c.transport.tls.enable = false;
    assert_eq!(transport_kind(&c), TransportKind::Ws);
    c.transport.protocol = "kcp".to_string();
    assert_eq!(transport_kind(&c), TransportKind::Kcp);
    c.transport.protocol = "quic".to_string();
    assert_eq!(transport_kind(&c), TransportKind::Quic);
    assert_eq!(server_endpoint(&c), "example.com:7000");
    assert_eq!(websocket_url(&c, false), "ws://example.com:7000/ws");
    assert_eq!(websocket_url(&c, true), "wss://example.com:7000/ws");
    assert_eq!(tls_server_name_text(&c), "example.com");
    c.transport.tls.server_name = "proxy.internal".to_string();
    assert_eq!(tls_server_name_text(&c), "proxy.internal");
}

#[test]
fn login_message_and_outcomes() {
    let mut c = client_config();
    assert_eq!(effective_client_id(&c, "alice", "box"), "alice@box:example.com");
    c.client_id = "  edge-1 ".to_string();
    assert_eq!(effective_client_id(&c, "alice", "box"), "edge-1");
    let m = login_msg(&c, "0.5.5", "box", "linux", "x86_64", "alice", 42);
    assert_eq!(m.client_id, "edge-1");
    assert_eq!(m.privilege_key, arp::crypto::AuthSigner::sign("tok", "42"));
    assert_ne!(m.privilege_key, "tok");
    assert_eq!(m.run_id, "");
    assert_eq!(m.pool_count, 1);
    assert_eq!(m.timestamp, 42);

    let ok = Message::LoginResp(LoginRespMsg { version: "1".into(), run_id: "run-7".into(), error: String::new() });
    assert_eq!(login_outcome(Some(ok)).unwrap(), "run-7");
    let refused = Message::LoginResp(LoginRespMsg { version: "1".into(), run_id: String::new(), error: "bad token".into() });
    match login_outcome(Some(refused)) {
        Err(Error::Auth(m)) => assert_eq!(m, "bad token"),
        _ => panic!("expected an auth error"),
    }
    assert_eq!(protocol_text(login_outcome(Some(Message::Ping(PingMsg { timestamp: 1 })))), "Expected LoginResp, got 'h'");
    assert!(matches!(login_outcome(None), Err(Error::ConnectionClosed)));
}

#[test]
fn proxy_registration_messages() {
    let p = proxy("ssh", "tcp");
    assert_eq!(new_proxy_msg(&p, true).multiplexer, "tcp_mux");
    assert_eq!(new_proxy_msg(&p, false).multiplexer, "");
    let mut grouped = proxy("ssh", "tcp");
    grouped.load_balancer.group = "g".to_string();
    grouped.load_balancer.group_key = "gk".to_string();
    let m = new_proxy_msg(&grouped, true);
    assert_eq!(m.multiplexer, "");
    let lb = m.extra.load_balancer.unwrap();
    assert_eq!(lb.group.as_deref(), Some("g"));
    assert_eq!(lb.group_key.as_deref(), Some("gk"));
    assert_eq!(new_proxy_msg(&proxy("dns", "udp"), true).multiplexer, "");
    let mut chosen = proxy("ssh", "tcp");
    chosen.multiplexer = "yamux".to_string();
    assert_eq!(new_proxy_msg(&chosen, true).multiplexer, "yamux");

    let ok = Message::NewProxyResp(NewProxyRespMsg { proxy_name: "ssh".into(), remote_addr: ":6000".into(), error: String::new() });
    assert!(new_proxy_outcome(Some(ok)).is_ok());
    let refused = Message::NewProxyResp(NewProxyRespMsg { proxy_name: "ssh".into(), remote_addr: String::new(), error: "port taken".into() });
    match new_proxy_outcome(Some(refused)) {
        Err(Error::Proxy(m)) => assert_eq!(m, "port taken"),
        _ => panic!("expected a proxy error"),
    }
    assert!(matches!(new_proxy_outcome(None), Err(Error::ConnectionClosed)));
}

#[test]
fn work_connection_messages() {
    assert_eq!(protocol_text(new_work_conn_msg("  ", "tok")), "refuse to create work connection with empty run_id");
    let m = new_work_conn_msg("run-1", "tok").unwrap();
    assert_eq!(m.run_id, "run-1");
    assert_eq!(m.privilege_key, arp::crypto::AuthSigner::sign("tok", "run-1"));
    let start = StartWorkConnMsg { proxy_name: "ssh".into(), src_addr: String::new(), dst_addr: String::new(), error: String::new() };
    assert_eq!(start_work_conn_outcome(Some(Message::StartWorkConn(start))).unwrap().proxy_name, "ssh");
    let failed = StartWorkConnMsg { proxy_name: "ssh".into(), src_addr: String::new(), dst_addr: String::new(), error: "gone".into() };
    match start_work_conn_outcome(Some(Message::StartWorkConn(failed))) {
        Err(Error::Proxy(m)) => assert_eq!(m, "gone"),
        _ => panic!("expected a proxy error"),
    }
    assert_eq!(
        protocol_text(start_work_conn_outcome(Some(Message::Ping(PingMsg { timestamp: 0 })))),
        "Expected StartWorkConn, got 'h'"
    );
    assert!(serve_work_conn_request("", false, "run"));
    assert!(serve_work_conn_request("ssh", true, "run"));
    assert!(!serve_work_conn_request("ssh", false, "run"));
    assert!(!serve_work_conn_request("ssh", true, " "));
}

#[test]
fn heartbeat_settings() {
    let mut c = client_config();
    assert_eq!(heartbeat_interval(&c), 30);
    assert_eq!(heartbeat_timeout(&c), 90);
    c.transport.heartbeat_interval = 0;
    c.transport.heartbeat_timeout = 0;
    assert_eq!(heartbeat_interval(&c), 30);
    assert_eq!(heartbeat_timeout(&c), 90);
    c.transport.heartbeat_interval = 5;
    c.transport.heartbeat_timeout = 15;
    assert_eq!(heartbeat_interval(&c), 5);
    assert_eq!(heartbeat_timeout(&c), 15);
    assert!(!heartbeat_expired(100, 10, 90));
    assert!(heartbeat_expired(101, 10, 90));
    assert!(!heartbeat_expired(i64::MAX, i64::MIN, u64::MAX));
    assert!(heartbeat_expired(i64::MAX, i64::MIN, u64::MAX - 1));
}

#[test]
fn reconnect_backoff_doubles_to_thirty() {
    let waits: Vec<u64> = (0..8).map(reconnect_backoff).collect();
    assert_eq!(waits, vec![1, 2, 4, 8, 16, 30, 30, 30]);
    match after_failure(&Error::ConnectionClosed, 0) {
        ReconnectDecision::Retry { attempt, wait_secs } => {
            assert_eq!(attempt, 1);
            assert_eq!(wait_secs, 2);
        }
        ReconnectDecision::GiveUp => panic!("a closed connection is retried"),
    }
    assert!(matches!(after_failure(&Error::Auth("no".into()), 3), ReconnectDecision::GiveUp));
}

#[test]
fn xtcp_visitor_decisions() {
    assert_eq!(visitor_listen_addr(&visitor("", 6000, true, 0)).unwrap(), "127.0.0.1:6000");
    assert_eq!(visitor_listen_addr(&visitor("0.0.0.0", 6001, true, 0)).unwrap(), "0.0.0.0:6001");
    match visitor_listen_addr(&visitor("", 0, true, 0)) {
        Err(Error::Config(m)) => assert_eq!(m, "xtcp visitor v bind_port cannot be 0"),
        _ => panic!("expected a config error"),
    }
    assert_eq!(punch_timeout_secs(&visitor("", 1, true, 0)), 3);
    assert_eq!(punch_timeout_secs(&visitor("", 1, true, 12)), 12);

    let req = xtcp_visitor_request("x", "k", "1.2.3.4:5", false).unwrap();
    assert_eq!(req.proxy_name, "x");
    assert_eq!(req.signed_msg, "k|1.2.3.4:5");
    match xtcp_visitor_request("x", "k", "1.2.3.4:5", true) {
        Err(Error::Proxy(m)) => assert_eq!(m, "xtcp visitor request already in progress"),
        _ => panic!("expected a proxy error"),
    }

    match decide_fallback(&visitor("", 1, true, 0), "9.9.9.9:7001", "timeout") {
        FallbackDecision::UseRelay(a) => assert_eq!(a, "9.9.9.9:7001"),
        FallbackDecision::Fail(_) => panic!("the relay is used"),
    }
    match decide_fallback(&visitor("", 1, true, 0), "", "timeout") {
        FallbackDecision::Fail(Error::Proxy(m)) => assert_eq!(m, "xtcp direct failed: timeout, relay unavailable"),
        _ => panic!("expected a failure"),
    }
    match decide_fallback(&visitor("", 1, false, 0), "9.9.9.9:7001", "timeout") {
        FallbackDecision::Fail(Error::Proxy(m)) => assert_eq!(m, "xtcp direct failed: timeout (fallback disabled)"),
        _ => panic!("expected a failure"),
    }

    let answer = nat_hole_answer("1.2.3.4:5", &Ok("5.6.7.8:9".to_string()));
    assert_eq!(answer.client_addr, "5.6.7.8:9");
    assert_eq!(answer.error, "");
    let refusal = nat_hole_answer("1.2.3.4:5", &Err("no such proxy".to_string()));
    assert_eq!(refusal.client_addr, "");
    assert_eq!(refusal.error, "no such proxy");
    let resp = |error: &str| NatHoleRespMsg {
        visitor_addr: "a".into(),
        client_addr: "b".into(),
        relay_addr: String::new(),
        error: error.into(),
    };
    assert_eq!(nat_hole_result(resp("")).unwrap().client_addr, "b");
    match nat_hole_result(resp("denied")) {
        Err(Error::Proxy(m)) => assert_eq!(m, "denied"),
        _ => panic!("expected a proxy error"),
    }
}

#[test]
fn server_listeners_and_setup() {
    let mut s = server_config();
    assert_eq!(listener_kind(&s), ListenerKind::TcpLike(7000));
    assert_eq!(stream_setup(&s), StreamSetup::Plain);
    assert_eq!(dashboard_listen_addr(&s), None);
    s.dashboard_port = 7500;
    assert_eq!(dashboard_listen_addr(&s), Some(("0.0.0.0".to_string(), 7500)));
    s.dashboard_addr = "127.0.0.1".to_string();
    assert_eq!(dashboard_listen_addr(&s), Some(("127.0.0.1".to_string(), 7500)));
    assert_eq!(bind_endpoint(&s, 7000), "0.0.0.0:7000");
    s.transport.protocol = "kcp".to_string();
    assert_eq!(listener_kind(&s), ListenerKind::Kcp(7000));
    s.kcp_bind_port = 7001;
    assert_eq!(listener_kind(&s), ListenerKind::Kcp(7001));
    s.transport.protocol = "quic".to_string();
    assert_eq!(listener_kind(&s), ListenerKind::Quic(7000));
    s.transport.protocol = "websocket".to_string();
    assert_eq!(stream_setup(&s), StreamSetup::Ws);
    s.transport.tls.enable = true;
    assert_eq!(stream_setup(&s), StreamSetup::Wss);
    s.transport.protocol = "tcp".to_string();
    assert_eq!(stream_setup(&s), StreamSetup::Tls);
    match check_tls_files(&s, false) {
        Err(Error::Config(m)) => assert_eq!(m, "tls.enable is true but cert_file/key_file is empty"),
        _ => panic!("expected a config error"),
    }
    match check_tls_files(&s, true) {
        Err(Error::Config(m)) => assert_eq!(m, "quic transport requires tls.cert_file and tls.key_file"),
        _ => panic!("expected a config error"),
    }
    s.transport.tls.cert_file = "c.pem".to_string();
    s.transport.tls.key_file = "k.pem".to_string();
    assert!(check_tls_files(&s, true).is_ok());
}

#[test]
fn first_messages_and_replies() {
    let login = LoginMsg {
        version: "1".into(),
        hostname: "h".into(),
        os: "linux".into(),
        arch: "x86_64".into(),
        user: "u".into(),
        client_id: "c".into(),
        timestamp: 0,
        privilege_key: "tok".into(),
        run_id: String::new(),
        pool_count: 1,
    };
    assert!(matches!(route_first_message(Message::Login(login)), Ok(FirstMessage::Login(_))));
    let work = NewWorkConnMsg { run_id: "r".into(), privilege_key: "tok".into() };
    assert!(matches!(route_first_message(Message::NewWorkConn(work)), Ok(FirstMessage::WorkConn(_))));
    assert_eq!(
        protocol_text(route_first_message(Message::Ping(PingMsg { timestamp: 0 }))),
        "Expected Login or NewWorkConn message, got 'h'"
    );

    let ok = login_reply("0.5.5", &Ok(()), "run-1");
    assert_eq!((ok.version.as_str(), ok.run_id.as_str(), ok.error.as_str()), ("0.5.5", "run-1", ""));
    let refused = login_reply("0.5.5", &Err(Error::Auth("invalid token".into())), "run-1");
    assert_eq!(refused.run_id, "");
    assert_eq!(refused.error, "Authentication failed: invalid token");

    assert_eq!(
        protocol_text(check_work_conn_run_id(&NewWorkConnMsg { run_id: " ".into(), privilege_key: String::new() })),
        "Empty run_id in NewWorkConn"
    );
    assert!(check_work_conn_run_id(&NewWorkConnMsg { run_id: "r".into(), privilege_key: String::new() }).is_ok());
    match unknown_run_id("r9") {
        Error::Protocol(m) => assert_eq!(m, "Unknown run_id: r9"),
        _ => panic!("expected a protocol error"),
    }
}

#[test]
fn error_messages() {
    assert_eq!(Error::Protocol("x".into()).message(), "Protocol error: x");
    assert_eq!(Error::Config("x".into()).message(), "Configuration error: x");
    assert_eq!(Error::Timeout("x".into()).message(), "Timeout: x");
    assert_eq!(Error::ConnectionClosed.message(), "Connection closed");
    assert_eq!(Error::ChannelRecv.message(), "Channel receive error");
    let io = Error::Io(std::io::Error::new(std::io::ErrorKind::Other, "boom"));
    assert_eq!(io.message(), "IO error: boom");
}

#[test]
fn client_message_steps() {
    match client_step(Message::ReqWorkConn(ReqWorkConnMsg { proxy_name: "ssh".into() }), true, "run", 5) {
        ClientAction::OpenWorkConn { proxy_name, run_id } => assert_eq!((proxy_name.as_str(), run_id.as_str()), ("ssh", "run")),
        _ => panic!("a work connection is opened"),
    }
    assert!(matches!(
        client_step(Message::ReqWorkConn(ReqWorkConnMsg { proxy_name: "ssh".into() }), false, "run", 5),
        ClientAction::SkipWorkConn { .. }
    ));
    match client_step(Message::Ping(PingMsg { timestamp: 1 }), true, "run", 5) {
        ClientAction::Reply(Message::Pong(PongMsg { timestamp })) => assert_eq!(timestamp, 5),
        _ => panic!("a ping is answered"),
    }
    assert!(matches!(client_step(Message::Pong(PongMsg { timestamp: 1 }), true, "run", 5), ClientAction::NoteHeartbeat));
    match client_step(Message::NatHoleClient(NatHoleClientMsg { proxy_name: "x".into(), visitor_addr: "a".into() }), true, "", 5) {
        ClientAction::ServeNatHole { proxy_name, visitor_addr } => assert_eq!((proxy_name.as_str(), visitor_addr.as_str()), ("x", "a")),
        _ => panic!("the provider is asked"),
    }
    match client_step(Message::NewWorkConn(NewWorkConnMsg { run_id: "r".into(), privilege_key: String::new() }), true, "run", 5) {
        ClientAction::Unexpected(b) => assert_eq!(b, b'w'),
        _ => panic!("unexpected message"),
    }
    match client_step(Message::ServerShutdown(arp::protocol::ServerShutdownMsg { reason: "bye".into() }), true, "run", 5) {
        ClientAction::Exit { reason } => assert_eq!(reason, "bye"),
        _ => panic!("the client exits"),
    }
    assert_eq!(Message::ServerShutdown(arp::protocol::ServerShutdownMsg { reason: String::new() }).type_byte(), b'x');
    assert_eq!(Message::from_type_byte(b'x'), Some("ServerShutdown"));
    let v = stcp_visitor_msg("db", "k", -7);
    assert_eq!(v.sk_signature, arp::crypto::AuthSigner::sign("k", "-7"));
    assert_eq!(v.timestamp, -7);
}

#[test]
fn tls_settings_in_configs() {
    let mut c = client_config();
    c.server_addr = "127.0.0.1".to_string();
    c.transport.tls.enable = true;
    c.transport.tls.trusted_ca_file = "ca.pem".to_string();
    match c.validate() {
        Err(Error::Config(m)) => assert_eq!(m, "tcp transport with IP server_addr requires transport.tls.server_name"),
        _ => panic!("expected a config error"),
    }
    c.transport.tls.server_name = "arp.example.com".to_string();
    assert!(c.validate().is_ok());
    let mut s = server_config();
    s.transport.tls.enable = true;
    match s.validate() {
        Err(Error::Config(m)) => assert_eq!(m, "tls.enable is true but cert_file/key_file is empty"),
        _ => panic!("expected a config error"),
    }
}

#[test]
fn reload_closes_dropped_proxies_and_adds_new_ones() {
    let running = vec!["ssh".to_string(), "web".to_string(), "db".to_string()];
    let next = vec![proxy("web", "tcp"), proxy("api", "tcp"), proxy("ssh", "tcp"), proxy("metrics", "udp")];
    let (closing, adding) = reload_plan(&running, &next);
    assert_eq!(closing, vec!["db".to_string()]);
    assert_eq!(adding, vec![1, 3]);
}

#[test]
fn reload_with_the_same_proxies_changes_nothing() {
    let running = vec!["ssh".to_string(), "web".to_string()];
    let next = vec![proxy("web", "tcp"), proxy("ssh", "tcp")];
    let (closing, adding) = reload_plan(&running, &next);
    assert!(closing.is_empty());
    assert!(adding.is_empty());
}
