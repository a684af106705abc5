use std::collections::HashMap;

use arp::config::{AuthConfig, PortRange, ServerConfig, TransportConfig};
use arp::control::{
    decide_takeover, find_proxy_owner, new_proxy_resp, sort_controls, ControlRecord, PoolOutcome,
    ProxyOwner, TakeoverDecision, WorkConnPool,
};
use arp::metrics::{
    add_tcp_bytes_in, get_or_create_proxy_metrics, inc_auth_failures, inc_incoming_connections,
    list_proxy_metrics, record_proxy_connection, remove_proxy_metrics, sort_proxy_metrics, Metrics, ProxyMetrics, ProxyMetricsRegistry,
};
use arp::nathole::{parse_signed_msg, NatHoleController, VisitorStep, XtcpEvent};
use arp::protocol::message::ProxyExtra;
use arp::protocol::{NatHoleRespMsg, NewProxyMsg};
use arp::proxy_registry::{
    check_stcp_visitor, parse_lb_group, plan_registration, proxy_key, relay_proxy_msg, remote_addr_for_port,
    stcp_remote_addr, xtcp_remote_addr, ProxyKind, ProxyRecord, XtcpProxyInfo,
};
use arp::proxy_table::{owner_run_id, ProxyDirectory};
use arp::resource::ResourceController;
use arp::web::{active_ready, render_metrics, render_type_counts, render_xtcp_events, StatusCounts, TypeCount};
use arp::Error;

fn server_config(allow_ports: Vec<PortRange>) -> ServerConfig {
    ServerConfig {
        bind_addr: "0.0.0.0".to_string(),
        bind_port: 7000,
        kcp_bind_port: 0,
        quic_bind_port: 0,
        vhost_http_port: 0,
        vhost_https_port: 0,
        dashboard_addr: String::new(),
        dashboard_port: 0,
        dashboard_user: String::new(),
        dashboard_pwd: String::new(),
        log_level: String::new(),
        auth: AuthConfig::default(),
        transport: TransportConfig::default(),
        allow_ports,
        max_pool_count: 0,
        max_ports_per_client: 0,
        subdomain_host: String::new(),
        tcp_mux: false,
        custom: HashMap::new(),
    }
}

fn new_proxy(name: &str, proxy_type: &str, remote_port: u16) -> NewProxyMsg {
    NewProxyMsg {
        proxy_name: name.to_string(),
        proxy_type: proxy_type.to_string(),
        use_encryption: false,
        use_compression: false,
        local_ip: "127.0.0.1".to_string(),
        local_port: 8080,
        remote_port,
        custom_domains: vec![],
        subdomain: String::new(),
        locations: vec![],
        host_header_rewrite: String::new(),
        sk: String::new(),
        multiplexer: String::new(),
        fallback_to_relay: true,
        extra: ProxyExtra::default(),
    }
}

fn record(run: &str, name: &str, t: &str) -> ProxyRecord {
    ProxyRecord {
        run_id: run.to_string(),
        proxy_name: name.to_string(),
        proxy_type: t.to_string(),
        remote_addr: String::new(),
    }
}

#[test]
fn port_allocation() {
    let mut rc = ResourceController::new(&server_config(vec![PortRange { start: 6000, end: 6001, single: 0 }]));
    assert_eq!(rc.allocate_tcp_port(6000).unwrap(), 6000);
    match rc.allocate_tcp_port(6000) {
        Err(Error::Proxy(m)) => assert_eq!(m, "Port 6000 is already allocated"),
        other => panic!("unexpected: {:?}", other),
    }
    match rc.allocate_tcp_port(7000) {
        Err(Error::Proxy(m)) => assert_eq!(m, "Port 7000 is not in allowed range"),
        other => panic!("unexpected: {:?}", other),
    }
    assert!(rc.release_tcp_port(6000).is_ok());
    assert_eq!(rc.allocate_tcp_port(6000).unwrap(), 6000);
}

#[test]
fn random_ports_come_in_order_from_the_dynamic_range() {
    let mut rc = ResourceController::new(&server_config(vec![]));
    assert_eq!(rc.allocate_random_tcp_port().unwrap(), 10000);
    assert_eq!(rc.allocate_random_tcp_port().unwrap(), 10001);
    let mut narrow = ResourceController::new(&server_config(vec![PortRange { start: 0, end: 0, single: 20000 }]));
    match narrow.allocate_random_tcp_port() {
        Err(Error::Proxy(m)) => assert_eq!(m, "Failed to allocate random port after 1000 attempts"),
        other => panic!("unexpected: {:?}", other),
    }
}

#[test]
fn counters_wrap_and_count() {
    let mut m = Metrics::default();
    inc_incoming_connections(&mut m);
    inc_incoming_connections(&mut m);
    inc_auth_failures(&mut m);
    assert_eq!(m.incoming_connections_total, 2);
    assert_eq!(m.auth_failures_total, 1);
    m.tcp_bytes_in_total = u64::MAX;
    add_tcp_bytes_in(&mut m, 2);
    assert_eq!(m.tcp_bytes_in_total, 1);
}

#[test]
fn per_proxy_metrics_registry() {
    let mut reg = ProxyMetricsRegistry::new();
    let pm = get_or_create_proxy_metrics(&mut reg, "web");
    assert_eq!(pm.bytes_in, 0);
    assert_eq!(pm.connections_active, ProxyMetrics::new().connections_active);
    get_or_create_proxy_metrics(&mut reg, "web");
    get_or_create_proxy_metrics(&mut reg, "db");
    let mut names: Vec<String> = list_proxy_metrics(&reg).into_iter().map(|e| e.0).collect();
    names.sort();
    assert_eq!(names, vec!["db".to_string(), "web".to_string()]);
    remove_proxy_metrics(&mut reg, "web");
    assert_eq!(list_proxy_metrics(&reg).len(), 1);
    record_proxy_connection(&mut reg, "db", 100, 7, false);
    record_proxy_connection(&mut reg, "db", 1, 1, true);
    let db = list_proxy_metrics(&reg)[0].1;
    assert_eq!((db.bytes_in, db.bytes_out, db.connections_total, db.errors), (101, 8, 2, 1));
}

#[test]
fn stcp_registration_and_visitors() {
    assert_eq!(stcp_remote_addr(), "stcp");
    let ts = 1_700_000_000;
    let sig = arp::crypto::AuthSigner::sign("k", &arp::auth::timestamp_string(ts));
    let msg = arp::protocol::StcpVisitorConnMsg { proxy_name: "db".into(), sk_signature: sig, timestamp: ts };
    assert!(check_stcp_visitor(&msg, Some("k"), ts + 10).is_ok());
    match check_stcp_visitor(&msg, Some("other"), ts) {
        Err(Error::Proxy(m)) => assert_eq!(m, "stcp visitor sk mismatch"),
        other => panic!("unexpected: {:?}", other.is_ok()),
    }
    match check_stcp_visitor(&msg, Some("k"), ts + 301) {
        Err(Error::Proxy(m)) => assert_eq!(m, "stcp visitor sk mismatch"),
        other => panic!("unexpected: {:?}", other.is_ok()),
    }
    match check_stcp_visitor(&msg, None, ts) {
        Err(Error::Proxy(m)) => assert_eq!(m, "stcp proxy db not found"),
        other => panic!("unexpected: {:?}", other.is_ok()),
    }
}

#[test]
fn registration_decisions() {
    match plan_registration("r1", &new_proxy("p", "tcp", 0), true, false) {
        Err(Error::Proxy(m)) => assert_eq!(m, "Proxy p already exists"),
        other => panic!("unexpected: {:?}", other.is_ok()),
    }
    assert_eq!(plan_registration("r1", &new_proxy("p", "stcp", 0), false, false).unwrap().kind, ProxyKind::Stcp);
    let mut secret = new_proxy("p", "stcp", 6000);
    secret.sk = "k".to_string();
    let plan = plan_registration("r1", &secret, false, false).unwrap();
    assert_eq!(plan.kind, ProxyKind::Stcp);
    assert_eq!(plan.proxy_key, "r1:p");
    assert_eq!(plan.group_id, "");
    assert_eq!(plan_registration("r1", &new_proxy("t", "tcp", 0), false, false).unwrap().kind, ProxyKind::Tcp);
    let mut grouped = new_proxy("p", "tcp", 0);
    grouped.extra = ProxyExtra { group: Some(" g1 ".to_string()), group_key: None, load_balancer: None };
    match plan_registration("r1", &grouped, false, false) {
        Err(Error::Proxy(m)) => assert_eq!(m, "tcp/stcp load_balancer.group requires fixed remote_port"),
        other => panic!("unexpected: {:?}", other.is_ok()),
    }
    grouped.remote_port = 6000;
    let plan = plan_registration("r1", &grouped, false, false).unwrap();
    assert_eq!(plan.kind, ProxyKind::TcpGroup);
    assert_eq!(plan.group_id, "tcp:6000:g1:");
    match plan_registration("r1", &new_proxy("x", "xtcp", 0), false, false) {
        Err(Error::Proxy(m)) => assert_eq!(m, "xtcp proxy requires sk"),
        other => panic!("unexpected: {:?}", other.is_ok()),
    }
    let mut x = new_proxy("x", "xtcp", 0);
    x.sk = "s".to_string();
    match plan_registration("r1", &x, false, true) {
        Err(Error::Proxy(m)) => assert_eq!(m, "xtcp proxy x already exists"),
        other => panic!("unexpected: {:?}", other.is_ok()),
    }
    match plan_registration("r1", &new_proxy("q", "ftp", 0), false, false) {
        Err(Error::Proxy(m)) => assert_eq!(m, "Unsupported proxy type: ftp"),
        other => panic!("unexpected: {:?}", other.is_ok()),
    }
    assert_eq!(plan_registration("r1", &new_proxy("h", "https", 0), false, false).unwrap().kind, ProxyKind::Https);
    assert_eq!(plan_registration("r1", &new_proxy("u", "sudp", 0), false, false).unwrap().kind, ProxyKind::Udp);
}

#[test]
fn load_balancer_group_falls_back_to_nested_fields() {
    let mut msg = new_proxy("p", "tcp", 1);
    msg.extra = ProxyExtra {
        group: None,
        group_key: Some(" k ".to_string()),
        load_balancer: Some(arp::protocol::message::LoadBalancerExtra {
            group: Some("lb".to_string()),
            group_key: Some("ignored".to_string()),
        }),
    };
    assert_eq!(parse_lb_group(&msg), ("lb".to_string(), "k".to_string()));
}

#[test]
fn reported_addresses_and_relay_message() {
    assert_eq!(remote_addr_for_port(6000), "0.0.0.0:6000");
    assert_eq!(xtcp_remote_addr(""), "xtcp");
    assert_eq!(xtcp_remote_addr("0.0.0.0:7001"), "xtcp(relay=0.0.0.0:7001)");
    assert_eq!(proxy_key("run", "web"), "run:web");
    let mut x = new_proxy("x", "xtcp", 0);
    x.sk = "s".to_string();
    x.multiplexer = "tcp_mux".to_string();
    let relay = relay_proxy_msg(&x);
    assert_eq!(relay.proxy_name, "x__relay");
    assert_eq!(relay.proxy_type, "tcp");
    assert!(relay.sk.is_empty());
    assert!(relay.multiplexer.is_empty());
    assert_eq!(relay.local_port, 8080);
}

#[test]
fn proxy_directory_listings() {
    let mut dir = ProxyDirectory::new();
    dir.add_record("b:web".to_string(), record("b", "web", "http"));
    dir.add_record("a:web".to_string(), record("a", "web", "http"));
    dir.add_record("a:db".to_string(), record("a", "db", "tcp"));
    assert_eq!(dir.count(), 3);
    assert!(dir.contains_key("a:db"));
    let listed: Vec<(String, String)> = dir
        .list_records()
        .into_iter()
        .map(|r| (r.proxy_name, r.run_id))
        .collect();
    assert_eq!(
        listed,
        vec![
            ("db".to_string(), "a".to_string()),
            ("web".to_string(), "a".to_string()),
            ("web".to_string(), "b".to_string()),
        ]
    );
    assert_eq!(dir.count_by_type(), vec![("http".to_string(), 2), ("tcp".to_string(), 1)]);
    let mut keys = dir.keys_of_run("a");
    keys.sort();
    assert_eq!(keys, vec!["a:db".to_string(), "a:web".to_string()]);
    assert_eq!(dir.find_key_by_name("db"), Some("a:db".to_string()));
    assert_eq!(dir.find_key_by_name("nope"), None);
    assert_eq!(dir.get_record("db").unwrap().run_id, "a");
    assert!(dir.get_record("nope").is_none());
    assert_eq!(dir.remove_record("a:db").unwrap().proxy_type, "tcp");
    assert!(dir.remove_record("a:db").is_none());
    assert_eq!(owner_run_id("run-1:web"), "run-1");
    assert_eq!(owner_run_id("plain"), "plain");
    dir.add_xtcp("x".to_string(), XtcpProxyInfo { run_id: "a".to_string(), sk: "s".to_string(), relay_addr: String::new() });
    assert!(dir.xtcp_contains("x"));
    assert_eq!(dir.get_xtcp_owner("x").unwrap().sk, "s");
    dir.remove_xtcp("x");
    assert!(dir.get_xtcp_owner("x").is_none());
}

fn control(run: &str, client: &str) -> ControlRecord {
    ControlRecord {
        run_id: run.to_string(),
        client_id: client.to_string(),
        peer_addr: String::new(),
        hostname: String::new(),
        os: String::new(),
        arch: String::new(),
        user: String::new(),
        pool_count: 1,
    }
}

#[test]
fn owners_and_takeover() {
    let mut dir = ProxyDirectory::new();
    dir.add_record("r2:web".to_string(), record("r2", "web", "http"));
    let controls = vec![control("r1", "c1"), control("r2", "c2")];
    let owner = find_proxy_owner(&controls, &dir, "web").unwrap();
    assert_eq!(owner.run_id, "r2");
    assert!(find_proxy_owner(&controls, &dir, "db").is_none());
    let same_client = Some(ProxyOwner { run_id: "r2".to_string(), client_id: "c2".to_string() });
    match decide_takeover(&same_client, "r3", "c2", "web") {
        TakeoverDecision::TakeOver { stale_run_id } => assert_eq!(stale_run_id, "r2"),
        _ => panic!("expected takeover"),
    }
    match decide_takeover(&same_client, "r3", "c9", "web") {
        TakeoverDecision::Reject { error } => {
            assert_eq!(error, "proxy name web is already in use by another client")
        }
        _ => panic!("expected rejection"),
    }
    let anonymous = Some(ProxyOwner { run_id: "r2".to_string(), client_id: String::new() });
    assert!(matches!(decide_takeover(&anonymous, "r3", "", "web"), TakeoverDecision::Reject { .. }));
    assert!(matches!(decide_takeover(&same_client, "r2", "c2", "web"), TakeoverDecision::Proceed));
    assert!(matches!(decide_takeover(&None, "r2", "c2", "web"), TakeoverDecision::Proceed));
    let resp = new_proxy_resp("web", &Err("nope".to_string()));
    assert_eq!(resp.error, "nope");
    assert!(resp.remote_addr.is_empty());
    let sorted: Vec<String> = sort_controls(vec![control("r2", ""), control("r10", ""), control("r1", "")])
        .into_iter()
        .map(|c| c.run_id)
        .collect();
    assert_eq!(sorted, vec!["r1".to_string(), "r10".to_string(), "r2".to_string()]);
}

#[test]
fn work_connection_pool() {
    let mut pool: WorkConnPool<&str, u32> = WorkConnPool::new();
    assert!(matches!(pool.deliver(1), PoolOutcome::ConnStored));
    assert!(matches!(pool.deliver(2), PoolOutcome::ConnStored));
    match pool.request("a") {
        PoolOutcome::Matched(r, c) => assert_eq!((r, c), ("a", 2)),
        _ => panic!("expected a match"),
    }
    assert!(matches!(pool.request("b"), PoolOutcome::Matched("b", 1)));
    assert!(matches!(pool.request("c"), PoolOutcome::RequestQueued));
    assert!(matches!(pool.request("d"), PoolOutcome::RequestQueued));
    assert_eq!(pool.cancel_last_request(), Some("d"));
    assert_eq!(pool.pending_count(), 1);
    assert!(matches!(pool.deliver(3), PoolOutcome::Matched("c", 3)));
    assert_eq!(pool.idle_count(), 0);
}

#[test]
fn signed_visitor_messages() {
    assert_eq!(parse_signed_msg(" sk | 1.2.3.4:5 ").unwrap(), ("sk".to_string(), "1.2.3.4:5".to_string()));
    match parse_signed_msg("nope") {
        Err(Error::Protocol(m)) => {
            assert_eq!(m, "invalid NatHoleVisitor.signed_msg, expected '<sk>|<visitor_addr>'")
        }
        other => panic!("unexpected: {:?}", other),
    }
    match parse_signed_msg(" |addr") {
        Err(Error::Protocol(m)) => assert_eq!(m, "xtcp visitor sk is empty"),
        other => panic!("unexpected: {:?}", other),
    }
    match parse_signed_msg("sk| ") {
        Err(Error::Protocol(m)) => assert_eq!(m, "xtcp visitor_addr is empty"),
        other => panic!("unexpected: {:?}", other),
    }
}

#[test]
fn nat_hole_brokering() {
    let mut nh = NatHoleController::new();
    let mut m = Metrics::default();
    match nh.begin_visitor(&mut m, "v1", "x", "sk", "1.1.1.1:1", None) {
        VisitorStep::Reply(r) => assert_eq!(r.error, "xtcp proxy x not found"),
        _ => panic!("expected a reply"),
    }
    assert_eq!(m.xtcp_owner_not_found_total, 1);
    let owner = XtcpProxyInfo { run_id: "o1".to_string(), sk: "sk".to_string(), relay_addr: "0.0.0.0:7001".to_string() };
    match nh.begin_visitor(&mut m, "v1", "x", "bad", "1.1.1.1:1", Some(owner.clone())) {
        VisitorStep::Reply(r) => assert_eq!(r.error, "xtcp sk mismatch"),
        _ => panic!("expected a reply"),
    }
    match nh.begin_visitor(&mut m, "v1", "x", "sk", "1.1.1.1:1", Some(owner.clone())) {
        VisitorStep::Forward { owner_run_id, request } => {
            assert_eq!(owner_run_id, "o1");
            assert_eq!(request.visitor_addr, "1.1.1.1:1");
        }
        _ => panic!("expected a forward"),
    }
    assert!(nh.finish_forward(&mut m, "v1", "x", "1.1.1.1:1", &owner, None).is_none());
    let resp = NatHoleRespMsg {
        visitor_addr: "1.1.1.1:1".to_string(),
        client_addr: "2.2.2.2:2".to_string(),
        relay_addr: String::new(),
        error: String::new(),
    };
    let (run, fwd) = nh.handle_client_resp(&mut m, "o1", resp.clone()).unwrap();
    assert_eq!(run, "v1");
    assert_eq!(fwd.relay_addr, "0.0.0.0:7001");
    assert!(nh.handle_client_resp(&mut m, "o1", resp).is_none());
    let stages: Vec<String> = nh.recent_events().into_iter().map(|e| e.stage).collect();
    assert_eq!(stages, vec!["owner_not_found", "sk_mismatch", "visitor_forwarded", "response_forwarded"]);
    let offline = nh.finish_forward(&mut m, "v1", "x", "1.1.1.1:1", &owner, Some("gone".to_string())).unwrap();
    assert_eq!(offline.error, "owner client offline");
}

fn event(stage: &str) -> XtcpEvent {
    XtcpEvent {
        stage: stage.to_string(),
        proxy_name: "p".to_string(),
        visitor_run_id: String::new(),
        owner_run_id: String::new(),
        visitor_addr: "v".to_string(),
        client_addr: String::new(),
        relay_addr: "r".to_string(),
        error: "e".to_string(),
    }
}

#[test]
fn event_log_keeps_the_newest_32() {
    let mut nh = NatHoleController::new();
    for i in 0..40 {
        nh.push_event(event(&format!("s{}", i)));
    }
    let events = nh.recent_events();
    assert_eq!(events.len(), 32);
    assert_eq!(events[0].stage, "s8");
    assert_eq!(events[31].stage, "s39");
}

#[test]
fn admin_pages() {
    assert_eq!(render_type_counts(&[]), "<li>none</li>");
    let items = vec![
        TypeCount { proxy_type: "http".to_string(), total: 2 },
        TypeCount { proxy_type: "tcp".to_string(), total: 1 },
    ];
    assert_eq!(
        render_type_counts(&items),
        "<li><code>http</code>: 2</li><li><code>tcp</code>: 1</li>"
    );
    assert_eq!(render_xtcp_events(&[]), "<li>none</li>");
    let events: Vec<XtcpEvent> = (0..10).map(|i| event(&format!("s{}", i))).collect();
    let html = render_xtcp_events(&events);
    assert!(html.starts_with("<li><code>s9</code> proxy=<code>p</code> visitor=<code>v</code> relay=<code>r</code> err=<code>e</code></li>"));
    assert_eq!(html.matches("<li>").count(), 8);
    assert!(!html.contains("s1<"));
    let status = StatusCounts { active_controls: 1, active_proxies: 2, pending_work_connections: 0, idle_work_connections: 3 };
    let mut m = Metrics::default();
    inc_auth_failures(&mut m);
    let text = render_metrics(&status, &m, &[]);
    assert!(text.starts_with("arp_active_controls 1\narp_active_proxies 2\n"));
    assert!(text.contains("arp_auth_failures_total 1\n"));
    assert!(text.ends_with("arp_xtcp_responses_forwarded_total 0\n"));
    assert_eq!(text.lines().count(), 22);
    let per_proxy = ProxyMetrics { bytes_in: 10, bytes_out: 20, connections_total: 1, connections_active: 0, errors: 0 };
    let text = render_metrics(&status, &m, &[("web".to_string(), per_proxy)]);
    assert!(text.contains("arp_xtcp_responses_forwarded_total 0\narp_proxy_bytes_in{proxy=\"web\"} 10\n"));
    assert!(text.ends_with("arp_proxy_bytes_out{proxy=\"web\"} 20\narp_proxy_connections_total{proxy=\"web\"} 1\narp_proxy_errors_total{proxy=\"web\"} 0\n"));
    assert_eq!(text.lines().count(), 26);
    assert!(active_ready(&status));
    assert!(!active_ready(&StatusCounts { active_controls: 0, ..status }));
    assert!(active_ready(&StatusCounts { active_controls: 0, active_proxies: 0, ..status }));
}

#[test]
fn registry_lists_names_created_and_not_removed_since() {
    let mut reg = ProxyMetricsRegistry::new();
    get_or_create_proxy_metrics(&mut reg, "a");
    get_or_create_proxy_metrics(&mut reg, "b");
    get_or_create_proxy_metrics(&mut reg, "a");
    remove_proxy_metrics(&mut reg, "b");
    get_or_create_proxy_metrics(&mut reg, "c");
    remove_proxy_metrics(&mut reg, "missing");
    let names: Vec<String> = sort_proxy_metrics(list_proxy_metrics(&reg)).into_iter().map(|e| e.0).collect();
    assert_eq!(names, vec!["a".to_string(), "c".to_string()]);
}

#[test]
fn proxy_metrics_sort_by_name() {
    let mut hot = ProxyMetrics::new();
    hot.bytes_in = 7;
    let v = vec![
        ("web".to_string(), hot),
        ("api".to_string(), ProxyMetrics::new()),
        ("db".to_string(), ProxyMetrics::new()),
    ];
    let sorted = sort_proxy_metrics(v);
    let names: Vec<&str> = sorted.iter().map(|e| e.0.as_str()).collect();
    assert_eq!(names, vec!["api", "db", "web"]);
    assert_eq!(sorted[2].1.bytes_in, 7);
}
