use std::collections::HashMap;

use arp::config::{
    AuthConfig, ClientConfig, HealthCheckConfig, LoadBalancerConfig, PluginConfig, ProxyConfig,
    ServerConfig, TlsConfig, TransportConfig, VisitorConfig,
};
use arp::Error;

fn base_proxy(proxy_type: &str) -> ProxyConfig {
    ProxyConfig {
        name: "p1".to_string(),
        proxy_type: proxy_type.to_string(),
        local_ip: "127.0.0.1".to_string(),
        local_port: 8080,
        remote_port: 0,
        use_encryption: false,
        use_compression: false,
        custom_domains: Vec::new(),
        subdomain: String::new(),
        locations: Vec::new(),
        host_header_rewrite: String::new(),
        http_user: String::new(),
        http_pwd: String::new(),
        sk: String::new(),
        fallback_to_relay: true,
        multiplexer: String::new(),
        bandwidth_limit: String::new(),
        bandwidth_limit_mode: String::new(),
        health_check: HealthCheckConfig::default(),
        load_balancer: LoadBalancerConfig::default(),
        plugin: PluginConfig::default(),
    }
}

fn websocket_tls_client(server_addr: &str, trusted_ca_file: &str) -> ClientConfig {
    ClientConfig {
        server_addr: server_addr.to_string(),
        server_port: 7000,
        client_id: String::new(),
        log_level: String::new(),
        auth: AuthConfig::default(),
        transport: TransportConfig {
            protocol: "websocket".to_string(),
            tls: TlsConfig {
                enable: true,
                trusted_ca_file: trusted_ca_file.to_string(),
                ..TlsConfig::default()
            },
            ..TransportConfig::default()
        },
        admin_addr: String::new(),
        admin_port: 0,
        admin_user: String::new(),
        admin_pwd: String::new(),
        proxies: Vec::new(),
        visitors: Vec::new(),
    }
}

fn websocket_tls_server() -> ServerConfig {
    ServerConfig {
        bind_addr: "0.0.0.0".to_string(),
        bind_port: 7000,
        kcp_bind_port: 0,
        quic_bind_port: 0,
        vhost_http_port: 0,
        vhost_https_port: 0,
        dashboard_addr: String::new(),
        dashboard_port: 0,
        dashboard_user: String::new(),
        dashboard_pwd: String::new(),
        log_level: String::new(),
        auth: AuthConfig::default(),
        transport: TransportConfig {
            protocol: "websocket".to_string(),
            tls: TlsConfig {
                enable: true,
                ..TlsConfig::default()
            },
            ..TransportConfig::default()
        },
        allow_ports: Vec::new(),
        max_pool_count: 0,
        max_ports_per_client: 0,
        subdomain_host: String::new(),
        tcp_mux: false,
        custom: HashMap::new(),
    }
}

#[test]
fn test_http_proxy_requires_domain_or_subdomain() {
    let proxy = base_proxy("http");
    assert!(proxy.validate().is_err());

    let mut with_domain = base_proxy("http");
    with_domain.custom_domains = vec!["app.example.com".to_string()];
    assert!(with_domain.validate().is_ok());
}

#[test]
fn test_https_proxy_requires_local_port() {
    let mut proxy = base_proxy("https");
    proxy.local_port = 0;
    proxy.custom_domains = vec!["secure.example.com".to_string()];
    assert!(proxy.validate().is_err());
}

#[test]
fn test_encryption_requires_sk() {
    let mut proxy = base_proxy("udp");
    proxy.use_encryption = true;
    proxy.sk = String::new();
    assert!(proxy.validate().is_err());

    proxy.sk = "secret".to_string();
    assert!(proxy.validate().is_ok());
}

#[test]
fn test_stcp_sudp_require_sk() {
    let stcp = base_proxy("stcp");
    assert!(stcp.validate().is_err());

    let mut stcp_ok = base_proxy("stcp");
    stcp_ok.sk = "secret".to_string();
    assert!(stcp_ok.validate().is_ok());

    let sudp = base_proxy("sudp");
    assert!(sudp.validate().is_err());

    let mut sudp_ok = base_proxy("sudp");
    sudp_ok.sk = "secret".to_string();
    assert!(sudp_ok.validate().is_ok());

    let xtcp = base_proxy("xtcp");
    assert!(xtcp.validate().is_err());

    let mut xtcp_ok = base_proxy("xtcp");
    xtcp_ok.sk = "secret".to_string();
    assert!(xtcp_ok.validate().is_ok());
}

#[test]
fn test_client_websocket_tls_requires_ca() {
    let cfg = websocket_tls_client("example.com", "");
    assert!(cfg.validate().is_err());
}

#[test]
fn test_client_websocket_tls_requires_server_name_for_ip() {
    let cfg = websocket_tls_client("127.0.0.1", "ca.pem");
    assert!(cfg.validate().is_err());
}

#[test]
fn test_server_websocket_tls_requires_cert_and_key() {
    let cfg = websocket_tls_server();
    assert!(cfg.validate().is_err());
}

#[test]
fn proxy_error_texts_are_exact() {
    match base_proxy("http").validate() {
        Err(Error::Config(m)) => {
            assert_eq!(m, "proxy p1 of type http requires custom_domains or subdomain")
        }
        other => panic!("unexpected: {:?}", other),
    }
    let mut tcp = base_proxy("tcp");
    tcp.local_port = 0;
    match tcp.validate() {
        Err(Error::Config(m)) => assert_eq!(m, "proxy p1 local_port cannot be 0"),
        other => panic!("unexpected: {:?}", other),
    }
    let mut enc = base_proxy("tcp");
    enc.use_encryption = true;
    match enc.validate() {
        Err(Error::Config(m)) => assert_eq!(m, "proxy p1 enables encryption but sk is empty"),
        other => panic!("unexpected: {:?}", other),
    }
    match base_proxy("stcp").validate() {
        Err(Error::Config(m)) => assert_eq!(m, "proxy p1 of type stcp requires sk"),
        other => panic!("unexpected: {:?}", other),
    }
    assert!(base_proxy("tcp").validate().is_ok());
    assert!(base_proxy("bogus").validate().is_ok());
}

#[test]
fn client_with_good_proxies_and_visitor_validates() {
    let mut cfg = websocket_tls_client("example.com", "ca.pem");
    cfg.proxies.push(base_proxy("tcp"));
    cfg.visitors.push(VisitorConfig {
        name: "v1".to_string(),
        visitor_type: "xtcp".to_string(),
        server_name: "p1".to_string(),
        sk: "secret".to_string(),
        bind_addr: "127.0.0.1".to_string(),
        bind_port: 9000,
        fallback_to_relay: true,
        xtcp_punch_timeout_secs: 12,
    });
    assert!(cfg.validate().is_ok());
    let mut bad = cfg.clone();
    bad.proxies.push(base_proxy("stcp"));
    assert!(bad.validate().is_err());
}

#[test]
fn server_with_cert_and_key_validates() {
    let mut cfg = websocket_tls_server();
    cfg.transport.tls.cert_file = "cert.pem".to_string();
    cfg.transport.tls.key_file = "key.pem".to_string();
    assert!(cfg.validate().is_ok());
    cfg.transport.protocol = "carrier-pigeon".to_string();
    assert!(cfg.validate().is_err());
}
