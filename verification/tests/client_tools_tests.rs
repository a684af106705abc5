use arp::audit::AuditEvent;
use arp::client_admin::{admin_get_request, parse_admin_response, split_admin_url};
use arp::client_proxy::XtcpProxy;
use arp::config::{HealthCheckConfig, LoadBalancerConfig, PluginConfig, ProxyConfig};
use arp::logging::{is_expired_log_file, log_date_suffix, LogConfig, LogDestination};
use arp::web::{render_dashboard, StatusCounts, TypeCount};
use arp::Error;

#[test]
fn admin_url_split() {
    let (host, path) = split_admin_url("http://127.0.0.1:7400/api/v1/status").unwrap();
    assert_eq!(host, "127.0.0.1:7400");
    assert_eq!(path, "/api/v1/status");
    let (host, path) = split_admin_url("http://localhost:1").unwrap();
    assert_eq!(host, "localhost:1");
    assert_eq!(path, "/");
    assert_eq!(split_admin_url("https://x/y").unwrap_err(), "invalid URL");
}

#[test]
fn admin_request_text() {
    assert_eq!(
        admin_get_request("h:1", "/a", "", "pw"),
        "GET /a HTTP/1.1\r\nHost: h:1\r\nConnection: close\r\n\r\n"
    );
    assert_eq!(
        admin_get_request("h:1", "/a", "admin", "secret"),
        "GET /a HTTP/1.1\r\nHost: h:1\r\nConnection: close\r\nAuthorization: Basic YWRtaW46c2VjcmV0\r\n\r\n"
    );
}

#[test]
fn admin_response_parsing() {
    assert_eq!(parse_admin_response("HTTP/1.1 200 OK\r\nA: b\r\n\r\n{\"x\":1}").unwrap(), "{\"x\":1}");
    assert_eq!(
        parse_admin_response("HTTP/1.1 401 Unauthorized\r\n\r\nno").unwrap_err(),
        "unauthorized (check admin_user/admin_pwd)"
    );
    assert_eq!(parse_admin_response("HTTP/1.1 200 OK\r\n").unwrap_err(), "invalid HTTP response");
}

#[test]
fn log_config_destination() {
    let c = LogConfig { log_level: "", log_file: "", log_max_days: 1 };
    assert_eq!(c.effective_level(), "info");
    assert!(matches!(c.destination(), LogDestination::Stdout));
    assert!(!c.purges_old_files());
    let f = LogConfig { log_level: "debug", log_file: "/var/log/arp/arps.log", log_max_days: 3 };
    assert_eq!(f.effective_level(), "debug");
    match f.destination() {
        LogDestination::DailyFiles { dir, prefix } => {
            assert_eq!(dir, "/var/log/arp");
            assert_eq!(prefix, "arps");
        }
        _ => panic!("expected files"),
    }
    assert!(f.purges_old_files());
    let keep = LogConfig { log_level: "", log_file: "a.log", log_max_days: 0 };
    assert!(!keep.purges_old_files());
}

#[test]
fn log_file_expiry() {
    assert_eq!(log_date_suffix("arps.2024-01-02", "arps").unwrap(), "2024-01-02");
    assert!(log_date_suffix("other.2024-01-02", "arps").is_none());
    assert!(log_date_suffix("arps", "arps").is_none());
    // 2024-01-02T00:00:00Z is 1704153600
    let now = 1704153600 + 3 * 86400;
    assert!(is_expired_log_file("arps.2024-01-02", "arps", now, 1, 3));
    assert!(!is_expired_log_file("arps.2024-01-02", "arps", now, 0, 3));
    assert!(!is_expired_log_file("arps.2024-01-03", "arps", now, 500, 3));
    assert!(!is_expired_log_file("arps.garbage", "arps", now, 0, 3));
}

#[test]
fn audit_event_names() {
    let e = AuditEvent::ClientLogin { client_id: "c".into(), peer_addr: "p".into(), run_id: "r".into() };
    assert_eq!(e.event_name(), "client_login");
    let e = AuditEvent::WorkConnAuthFailed { run_id: "r".into(), reason: "x".into() };
    assert_eq!(e.event_name(), "work_conn_auth_failed");
}

#[test]
fn dashboard_page() {
    let status = StatusCounts { active_controls: 1, active_proxies: 2, pending_work_connections: 3, idle_work_connections: 4 };
    let html = render_dashboard(
        "tcp",
        "0.0.0.0",
        7000,
        &status,
        &[TypeCount { proxy_type: "tcp".into(), total: 2 }],
        &[],
    );
    assert!(html.starts_with("<!doctype html>"));
    assert!(html.contains("<p>Protocol: <code>tcp</code></p>"));
    assert!(html.contains("<p>Server Bind: <code>0.0.0.0:7000</code></p>"));
    assert!(html.contains("Idle Work Connections: <span class=\"num\">4</span>"));
    assert!(html.contains("<ul><li><code>tcp</code>: 2</li></ul>"));
    assert!(html.contains("<h2>Recent XTCP Events</h2>\n      <ul><li>none</li></ul>"));
    assert!(html.contains("body { font-family: Menlo, monospace;"));
    assert!(html.ends_with("</html>"));
}

#[test]
fn xtcp_client_proxy() {
    let cfg = ProxyConfig {
        name: "x".to_string(),
        proxy_type: "xtcp".to_string(),
        local_ip: "10.0.0.1".to_string(),
        local_port: 22,
        remote_port: 0,
        use_encryption: false,
        use_compression: false,
        custom_domains: Vec::new(),
        subdomain: String::new(),
        locations: Vec::new(),
        host_header_rewrite: String::new(),
        http_user: String::new(),
        http_pwd: String::new(),
        sk: "k".to_string(),
        fallback_to_relay: true,
        multiplexer: String::new(),
        bandwidth_limit: String::new(),
        bandwidth_limit_mode: String::new(),
        health_check: HealthCheckConfig::default(),
        load_balancer: LoadBalancerConfig::default(),
        plugin: PluginConfig::default(),
    };
    let p = XtcpProxy::new(&cfg);
    assert_eq!(p.local_target(), "10.0.0.1:22");
    assert_eq!(p.name(), "x");
    match p.refuse_work_conn() {
        Error::Proxy(m) => assert_eq!(m, "xtcp does not handle server work connection directly"),
        _ => panic!("expected a proxy error"),
    }
}
