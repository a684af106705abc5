use std::collections::HashMap;

use arp::backends::{BackendPool, GroupedBackend, BACKEND_EJECT_MS};
use arp::config::{AuthConfig, HealthCheckConfig, LoadBalancerConfig, PluginConfig, PortRange, ProxyConfig, ServerConfig, TransportConfig};
use arp::client_proxy::{client_proxy_kind, ClientProxyKind, TcpMode, TcpProxy, UdpPacketCodec};
use arp::protocol::message::ProxyExtra;
use arp::protocol::NewProxyMsg;
use arp::proxy_setup::{setup_tcp_proxy, setup_udp_proxy, start_work_conn_for_port, uses_tcp_mux};
use arp::resource::ResourceController;
use arp::transport::mux::MuxFrame;
use arp::transport::udp_mux::UdpMuxFrame;
use arp::tunnel::{udp_serve_action, MuxAction, MuxStreams, UdpAction, UdpPending, UdpServeAction};
use arp::vhost::{VhostKind, VhostManager};
use arp::Error;

fn http_msg(name: &str, domains: &[&str], subdomain: &str) -> NewProxyMsg {
    NewProxyMsg {
        proxy_name: name.to_string(),
        proxy_type: "http".to_string(),
        use_encryption: false,
        use_compression: false,
        local_ip: "127.0.0.1".to_string(),
        local_port: 8080,
        remote_port: 0,
        custom_domains: domains.iter().map(|d| d.to_string()).collect(),
        subdomain: subdomain.to_string(),
        locations: vec![],
        host_header_rewrite: String::new(),
        sk: String::new(),
        multiplexer: String::new(),
        fallback_to_relay: true,
        extra: ProxyExtra::default(),
    }
}

fn server_config(allow_ports: Vec<PortRange>) -> ServerConfig {
    ServerConfig {
        bind_addr: "0.0.0.0".to_string(),
        bind_port: 7000,
        kcp_bind_port: 0,
        quic_bind_port: 0,
        vhost_http_port: 0,
        vhost_https_port: 0,
        dashboard_addr: String::new(),
        dashboard_port: 0,
        dashboard_user: String::new(),
        dashboard_pwd: String::new(),
        log_level: String::new(),
        auth: AuthConfig::default(),
        transport: TransportConfig::default(),
        allow_ports,
        max_pool_count: 0,
        max_ports_per_client: 0,
        subdomain_host: String::new(),
        tcp_mux: false,
        custom: HashMap::new(),
    }
}

fn proxy_config(proxy_type: &str, multiplexer: &str) -> ProxyConfig {
    ProxyConfig {
        name: "p1".to_string(),
        proxy_type: proxy_type.to_string(),
        local_ip: "127.0.0.1".to_string(),
        local_port: 8080,
        remote_port: 0,
        use_encryption: false,
        use_compression: false,
        custom_domains: Vec::new(),
        subdomain: String::new(),
        locations: Vec::new(),
        host_header_rewrite: String::new(),
        http_user: String::new(),
        http_pwd: String::new(),
        sk: String::new(),
        fallback_to_relay: true,
        multiplexer: multiplexer.to_string(),
        bandwidth_limit: String::new(),
        bandwidth_limit_mode: String::new(),
        health_check: HealthCheckConfig::default(),
        load_balancer: LoadBalancerConfig::default(),
        plugin: PluginConfig::default(),
    }
}

#[test]
fn test_http_routes_allow_multi_backend() {
    let mut mgr = VhostManager::new("127.0.0.1".to_string(), "".to_string(), 18080, 18443);
    mgr.add_routes(VhostKind::Http, &["app.example.com".to_string()], "run1:p1", "p1").unwrap();
    mgr.add_routes(VhostKind::Http, &["app.example.com".to_string()], "run2:p2", "p2").unwrap();

    let routes = mgr.routes_of(VhostKind::Http, "app.example.com").unwrap();
    assert_eq!(routes.len(), 2);
}

#[test]
fn vhost_add_routes_is_idempotent_per_key() {
    let mut mgr = VhostManager::new("0.0.0.0".to_string(), "".to_string(), 80, 443);
    mgr.add_routes(VhostKind::Http, &["a.com".to_string()], "run1:p1", "p1").unwrap();
    mgr.add_routes(VhostKind::Http, &["a.com".to_string()], "run1:p1", "p1").unwrap();
    assert_eq!(mgr.routes_of(VhostKind::Http, "a.com").unwrap().len(), 1);
    assert!(mgr.routes_of(VhostKind::Https, "a.com").is_none());
}

#[test]
fn vhost_collect_domains_sorts_and_dedups() {
    let mgr = VhostManager::new("0.0.0.0".to_string(), " Example.COM. ".to_string(), 80, 443);
    let domains = mgr
        .collect_domains(&vec!["B.com".to_string(), "a.com:8080".to_string(), "".to_string(), "b.com".to_string()], " App ")
        .unwrap();
    assert_eq!(domains, vec!["a.com".to_string(), "app.example.com".to_string(), "b.com".to_string()]);
}

#[test]
fn vhost_collect_domains_errors() {
    let mgr = VhostManager::new("0.0.0.0".to_string(), "".to_string(), 80, 443);
    match mgr.collect_domains(&vec![], "app") {
        Err(Error::Proxy(m)) => assert_eq!(m, "subdomain is set but server subdomain_host is empty"),
        _ => panic!("expected a proxy error"),
    }
    match mgr.collect_domains(&vec!["  ".to_string()], " ") {
        Err(Error::Proxy(m)) => assert_eq!(m, "http/https proxy requires custom_domains or subdomain"),
        _ => panic!("expected a proxy error"),
    }
}

#[test]
fn vhost_register_and_route_round_robin() {
    let mut mgr = VhostManager::new("0.0.0.0".to_string(), "example.com".to_string(), 8080, 0);
    let url = mgr.register_http("run1", &http_msg("web", &["Z.example.org"], "app")).unwrap();
    assert_eq!(url, "http://app.example.com:8080");
    let url2 = mgr.register_http("run2", &http_msg("web2", &[], "app")).unwrap();
    assert_eq!(url2, "http://app.example.com:8080");

    let first = mgr.route_request(VhostKind::Http, "APP.example.com:8080").unwrap();
    let second = mgr.route_request(VhostKind::Http, "app.example.com").unwrap();
    let third = mgr.route_request(VhostKind::Http, "app.example.com").unwrap();
    assert_eq!(first.route_key, "run1:web");
    assert_eq!(second.route_key, "run2:web2");
    assert_eq!(third.route_key, "run1:web");
    assert_eq!(mgr.route_request(VhostKind::Http, "z.example.org").unwrap().proxy_name, "web");

    match mgr.route_request(VhostKind::Http, "Other.org") {
        Err(Error::Proxy(m)) => assert_eq!(m, "no http route for host other.org"),
        _ => panic!("expected no route"),
    }
    match mgr.register_https("run1", &http_msg("web", &["a.com"], "")) {
        Err(Error::Proxy(m)) => assert_eq!(m, "vhost_https_port is 0, HTTPS vhost proxy is disabled"),
        _ => panic!("expected https disabled"),
    }
    match mgr.route_request(VhostKind::Https, "a.com") {
        Err(Error::Proxy(m)) => assert_eq!(m, "no https route for sni a.com"),
        _ => panic!("expected no route"),
    }
}

#[test]
fn vhost_unregister_drops_empty_domains() {
    let mut mgr = VhostManager::new("0.0.0.0".to_string(), "".to_string(), 80, 443);
    mgr.register_http("run1", &http_msg("a", &["one.com", "two.com"], "")).unwrap();
    mgr.register_http("run2", &http_msg("b", &["two.com"], "")).unwrap();
    mgr.unregister_route("run1:a", "tcp");
    assert_eq!(mgr.routes_of(VhostKind::Http, "one.com").unwrap().len(), 1);
    mgr.unregister_route("run1:a", "http");
    assert!(mgr.routes_of(VhostKind::Http, "one.com").is_none());
    let left = mgr.routes_of(VhostKind::Http, "two.com").unwrap();
    assert_eq!(left.len(), 1);
    assert_eq!(left[0].route_key, "run2:b");
}

fn backend(id: &str) -> GroupedBackend {
    GroupedBackend { backend_id: id.to_string(), proxy_name: format!("proxy-{}", id), stcp: false, secret: String::new() }
}

#[test]
fn backend_pool_round_robin_and_ejection() {
    let mut pool = BackendPool::new();
    assert!(pool.pick_backend(0).is_none());
    pool.add_backend(backend("a"));
    pool.add_backend(backend("b"));
    pool.add_backend(backend("a"));
    assert_eq!(pool.len(), 2);
    assert_eq!(pool.pick_backend(0).unwrap().backend_id, "a");
    assert_eq!(pool.pick_backend(0).unwrap().backend_id, "b");
    assert_eq!(pool.pick_backend(0).unwrap().backend_id, "a");

    pool.mark_backend_failure("b", 1000);
    assert_eq!(pool.pick_backend(1000).unwrap().backend_id, "a");
    assert_eq!(pool.pick_backend(1000 + BACKEND_EJECT_MS - 1).unwrap().backend_id, "a");
    // the ejection ends at the deadline
    assert_eq!(pool.pick_backend(1000 + BACKEND_EJECT_MS).unwrap().backend_id, "b");

    pool.mark_backend_failure("a", 2000);
    pool.mark_backend_failure("b", 2000);
    assert!(pool.pick_backend(2001).is_none());
    pool.mark_backend_success("a");
    assert_eq!(pool.pick_backend(2001).unwrap().backend_id, "a");

    assert!(!pool.remove_backend("a"));
    assert!(!pool.remove_backend("missing"));
    assert!(pool.remove_backend("b"));
}

#[test]
fn mux_streams_dispatch() {
    let mut streams: MuxStreams<u8> = MuxStreams::new();
    assert_eq!(streams.open_stream(7), 1);
    assert_eq!(streams.open_stream(8), 2);
    match streams.dispatch(MuxFrame::Data { stream_id: 1, payload: vec![1, 2] }, false) {
        MuxAction::Deliver { stream_id, payload } => {
            assert_eq!(stream_id, 1);
            assert_eq!(payload, vec![1, 2]);
        }
        _ => panic!("expected delivery"),
    }
    match streams.dispatch(MuxFrame::Data { stream_id: 9, payload: vec![] }, false) {
        MuxAction::Reply(MuxFrame::Close { stream_id }) => assert_eq!(stream_id, 9),
        _ => panic!("expected close"),
    }
    assert!(matches!(streams.dispatch(MuxFrame::Ping, false), MuxAction::Reply(MuxFrame::Pong)));
    assert!(matches!(streams.dispatch(MuxFrame::Open { stream_id: 5 }, false), MuxAction::Ignore));
    assert!(matches!(streams.dispatch(MuxFrame::Open { stream_id: 5 }, true), MuxAction::Accept { stream_id: 5 }));
    assert!(matches!(streams.dispatch(MuxFrame::Close { stream_id: 1 }, false), MuxAction::Ignore));
    assert!(streams.sink(1).is_none());
    assert_eq!(streams.sink(2), Some(&8));
    streams.accept_stream(5, 3);
    streams.close_stream(2);
    assert!(streams.sink(2).is_none());
    streams.clear();
    assert!(streams.sink(5).is_none());
}

#[test]
fn udp_pending_completes_once() {
    let mut pending: UdpPending<&str> = UdpPending::new();
    let id = pending.begin("waiter");
    assert_eq!(id, 1);
    assert_eq!(pending.begin("other"), 2);
    match pending.dispatch(UdpMuxFrame::Resp { request_id: 1, payload: vec![9] }) {
        UdpAction::Complete { waiter, payload } => {
            assert_eq!(waiter, "waiter");
            assert_eq!(payload, vec![9]);
        }
        _ => panic!("expected completion"),
    }
    assert!(matches!(pending.dispatch(UdpMuxFrame::Resp { request_id: 1, payload: vec![] }), UdpAction::Ignore));
    assert!(matches!(pending.dispatch(UdpMuxFrame::Ping), UdpAction::Reply(UdpMuxFrame::Pong)));
    pending.cancel(2);
    assert!(matches!(pending.dispatch(UdpMuxFrame::Resp { request_id: 2, payload: vec![] }), UdpAction::Ignore));
    match udp_serve_action(UdpMuxFrame::Req { request_id: 4, src_addr: "1.2.3.4:5".to_string(), payload: vec![1] }) {
        UdpServeAction::Forward { request_id, payload } => {
            assert_eq!(request_id, 4);
            assert_eq!(payload, vec![1]);
        }
        _ => panic!("expected forward"),
    }
    assert!(matches!(udp_serve_action(UdpMuxFrame::Pong), UdpServeAction::Ignore));
}

fn tcp_msg(proxy_type: &str, remote_port: u16, multiplexer: &str) -> NewProxyMsg {
    let mut m = http_msg("p1", &[], "");
    m.proxy_type = proxy_type.to_string();
    m.remote_port = remote_port;
    m.multiplexer = multiplexer.to_string();
    m.sk = "s".to_string();
    m
}

#[test]
fn tcp_and_udp_proxy_setup() {
    let mut rc = ResourceController::new(&server_config(vec![PortRange { start: 6000, end: 6001, single: 0 }]));
    let s = setup_tcp_proxy(&tcp_msg("tcp", 6000, "yamux"), &mut rc).unwrap();
    assert_eq!(s.remote_port, 6000);
    assert!(s.tcp_mux && !s.stcp);
    match setup_tcp_proxy(&tcp_msg("tcp", 6000, ""), &mut rc) {
        Err(Error::Proxy(m)) => assert_eq!(m, "Port 6000 is already allocated"),
        _ => panic!("expected taken port"),
    }
    let st = setup_tcp_proxy(&tcp_msg("stcp", 6001, "tcp_mux"), &mut rc).unwrap();
    assert!(st.stcp && !st.tcp_mux);
    assert_eq!(st.secret, "s");
    // an stcp proxy takes no public port: 6001 is still free
    assert_eq!(st.remote_port, 0);
    assert_eq!(setup_tcp_proxy(&tcp_msg("tcp", 6001, ""), &mut rc).unwrap().remote_port, 6001);
    // port 0 asks for the next free port of the dynamic scan
    let mut rc3 = ResourceController::new(&server_config(vec![]));
    let first = setup_tcp_proxy(&tcp_msg("tcp", 0, ""), &mut rc3).unwrap().remote_port;
    let second = setup_tcp_proxy(&tcp_msg("tcp", 0, ""), &mut rc3).unwrap().remote_port;
    assert!(first >= 10000 && second == first + 1);

    let mut rc2 = ResourceController::new(&server_config(vec![]));
    let u = setup_udp_proxy(&tcp_msg("sudp", 0, ""), &mut rc2).unwrap();
    assert!(u.use_encryption && !u.use_compression);
    assert!(u.remote_port >= 10000);

    assert!(uses_tcp_mux("smux", false));
    assert!(!uses_tcp_mux("smux", true));
    assert!(!uses_tcp_mux("tcp", false));
    let m = start_work_conn_for_port("p1", 6000);
    assert_eq!(m.dst_addr, "0.0.0.0:6000");
    assert_eq!(m.src_addr, "");
}

#[test]
fn client_proxy_kinds_and_modes() {
    assert_eq!(client_proxy_kind("https"), Some(ClientProxyKind::Tcp));
    assert_eq!(client_proxy_kind("sudp"), Some(ClientProxyKind::Udp));
    assert_eq!(client_proxy_kind("xtcp"), Some(ClientProxyKind::Xtcp));
    assert_eq!(client_proxy_kind("ftp"), None);
    assert_eq!(TcpProxy::new(&proxy_config("stcp", "mux"), 0).mode(), TcpMode::Plain);
    assert_eq!(TcpProxy::new(&proxy_config("tcp", "mux"), 0).mode(), TcpMode::Mux);
    assert_eq!(TcpProxy::new(&proxy_config("tcp", ""), 0).mode(), TcpMode::Plain);
    assert_eq!(TcpProxy::new(&proxy_config("tcp", ""), 0).local_addr(), "127.0.0.1:8080");
}

#[test]
fn client_health_check_state_machine() {
    let mut cfg = proxy_config("tcp", "");
    cfg.health_check = HealthCheckConfig {
        enable: true,
        check_type: "tcp".to_string(),
        timeout_seconds: 0,
        max_failed: 2,
        interval_seconds: 10,
        path: String::new(),
    };
    let mut p = TcpProxy::new(&cfg, 0);
    assert_eq!(p.health_timeout_secs(), 2);
    // the first check always probes
    assert_eq!(p.begin_health_check(0).unwrap(), true);
    assert!(p.finish_health_check(false).is_ok());
    assert!(p.is_available());
    // within the interval no probe is made
    assert_eq!(p.begin_health_check(9_999).unwrap(), false);
    assert_eq!(p.begin_health_check(10_000).unwrap(), true);
    match p.finish_health_check(false) {
        Err(Error::Proxy(m)) => assert_eq!(m, "proxy p1 local endpoint 127.0.0.1:8080 is unhealthy (failed=2)"),
        _ => panic!("expected unhealthy"),
    }
    assert!(!p.is_available());
    match p.begin_health_check(15_000) {
        Err(Error::Proxy(m)) => assert_eq!(m, "proxy p1 local endpoint 127.0.0.1:8080 is unhealthy"),
        _ => panic!("expected unhealthy"),
    }
    assert_eq!(p.begin_health_check(20_000).unwrap(), true);
    assert!(p.finish_health_check(true).is_ok());
    assert!(p.is_available());

    let mut off = TcpProxy::new(&proxy_config("tcp", ""), 0);
    assert_eq!(off.begin_health_check(0).unwrap(), false);
}

#[test]
fn udp_codec_roundtrip() {
    let mut cfg = proxy_config("sudp", "");
    cfg.sk = "secret".to_string();
    cfg.use_compression = true;
    let codec = UdpPacketCodec::for_proxy(&cfg);
    assert!(codec.use_encryption);
    let packet = b"hello udp world".to_vec();
    let sealed = codec.seal(&packet).unwrap();
    assert_ne!(sealed, packet);
    assert_eq!(codec.open(&sealed).unwrap(), packet);

    let plain = UdpPacketCodec { use_compression: false, use_encryption: false, secret: String::new() };
    assert_eq!(plain.seal(&packet).unwrap(), packet);
    assert_eq!(plain.open(&packet).unwrap(), packet);

    let no_secret = UdpPacketCodec { use_compression: false, use_encryption: true, secret: String::new() };
    match no_secret.seal(&packet) {
        Err(Error::Transport(m)) => assert_eq!(m, "encryption secret cannot be empty"),
        _ => panic!("expected an empty-secret error"),
    }
}
