use arp::auth::{create_authenticator, normalize_host, port_in_ranges, timestamp_string, Authenticator, TokenAuth};
use arp::crypto::AuthSigner;
use arp::protocol::NewWorkConnMsg;

/// The server's clock in these tests: the login timestamp.
const NOW: i64 = 123456;
use arp::config::{AuthConfig, AuthRule, OidcConfig, PortRange};
use arp::protocol::message::ProxyExtra;
use arp::protocol::{LoginMsg, NewProxyMsg, PingMsg};
use arp::Error;

fn token_config() -> AuthConfig {
    AuthConfig {
        method: "token".to_string(),
        token: "root-token".to_string(),
        additional_tokens: vec!["extra-token".to_string()],
        rules: vec![AuthRule {
            token: "scoped-token".to_string(),
            allow_proxy_types: vec!["tcp".to_string(), "http".to_string()],
            allow_ports: vec![PortRange {
                start: 6000,
                end: 6010,
                single: 0,
            }],
            allow_domain_suffixes: vec!["example.com".to_string()],
            allow_subdomain_prefixes: vec!["team-".to_string()],
            max_pool_count: 2,
            max_connections: 0,
            bandwidth_limit_bytes: 0,
        }],
        oidc: OidcConfig::default(),
    }
}

fn login(token: &str, pool_count: u32) -> LoginMsg {
    LoginMsg {
        version: "0.1.0".to_string(),
        hostname: "test".to_string(),
        os: "linux".to_string(),
        arch: "x86_64".to_string(),
        user: "test".to_string(),
        client_id: "client-a".to_string(),
        timestamp: 123456,
        privilege_key: token.to_string(),
        run_id: "".to_string(),
        pool_count,
    }
}

fn proxy_msg(proxy_type: &str, remote_port: u16) -> NewProxyMsg {
    NewProxyMsg {
        proxy_name: "p1".to_string(),
        proxy_type: proxy_type.to_string(),
        use_encryption: false,
        use_compression: false,
        local_ip: "127.0.0.1".to_string(),
        local_port: 8080,
        remote_port,
        custom_domains: vec![],
        subdomain: String::new(),
        locations: vec![],
        host_header_rewrite: String::new(),
        sk: String::new(),
        multiplexer: String::new(),
        fallback_to_relay: true,
        extra: ProxyExtra::default(),
    }
}

#[test]
fn test_token_auth_valid() {
    let auth = TokenAuth::new(&token_config());
    assert!(auth.verify_login(&login("root-token", 1), NOW).is_ok());
    assert!(auth.verify_login(&login("extra-token", 1), NOW).is_ok());
}

#[test]
fn test_token_auth_invalid() {
    let auth = TokenAuth::new(&token_config());
    assert!(auth.verify_login(&login("wrong-token", 1), NOW).is_err());
}

#[test]
fn test_rule_enforces_pool_count() {
    let auth = TokenAuth::new(&token_config());
    assert!(auth.verify_login(&login("scoped-token", 3), NOW).is_err());
    assert!(auth.verify_login(&login("scoped-token", 2), NOW).is_ok());
}

#[test]
fn test_rule_enforces_proxy_type_and_port() {
    let auth = TokenAuth::new(&token_config());
    assert!(auth
        .authorize_proxy("scoped-token", 1, &proxy_msg("udp", 6001))
        .is_err());
    assert!(auth
        .authorize_proxy("scoped-token", 1, &proxy_msg("tcp", 7001))
        .is_err());
    assert!(auth
        .authorize_proxy("scoped-token", 1, &proxy_msg("tcp", 6001))
        .is_ok());
}

#[test]
fn test_rule_enforces_domain_and_subdomain() {
    let auth = TokenAuth::new(&token_config());
    let mut msg = proxy_msg("http", 6001);
    msg.custom_domains = vec!["bad.other.net".to_string()];
    assert!(auth.authorize_proxy("scoped-token", 1, &msg).is_err());

    msg.custom_domains = vec!["app.example.com".to_string()];
    assert!(auth.authorize_proxy("scoped-token", 1, &msg).is_ok());

    msg.custom_domains.clear();
    msg.subdomain = "team-api".to_string();
    assert!(auth.authorize_proxy("scoped-token", 1, &msg).is_ok());

    msg.subdomain = "other-api".to_string();
    assert!(auth.authorize_proxy("scoped-token", 1, &msg).is_err());
}

#[test]
fn login_failure_is_an_auth_error() {
    let auth = TokenAuth::new(&token_config());
    match auth.verify_login(&login("wrong-token", 1), NOW) {
        Err(Error::Auth(_)) => {}
        other => panic!("unexpected: {:?}", other),
    }
    assert!(auth.verify_ping(&PingMsg { timestamp: 1 }).is_ok());
}

#[test]
fn unscoped_tokens_may_register_anything() {
    let auth = TokenAuth::new(&token_config());
    assert!(auth
        .authorize_proxy("root-token", 50, &proxy_msg("udp", 40000))
        .is_ok());
}

#[test]
fn authenticator_is_created_for_token_method() {
    assert!(create_authenticator(&token_config()).is_ok());
}

#[test]
fn host_normalisation_and_port_ranges() {
    assert_eq!(normalize_host("  App.Example.COM. "), "app.example.com");
    let ranges = vec![
        PortRange { start: 6000, end: 6010, single: 0 },
        PortRange { start: 0, end: 0, single: 7000 },
    ];
    assert!(port_in_ranges(6000, &ranges));
    assert!(port_in_ranges(6010, &ranges));
    assert!(port_in_ranges(7000, &ranges));
    assert!(!port_in_ranges(6011, &ranges));
    assert!(!port_in_ranges(0, &[]));
}

fn signed_login(token: &str, timestamp: i64, pool_count: u32) -> LoginMsg {
    let mut m = login("", pool_count);
    m.timestamp = timestamp;
    m.privilege_key = AuthSigner::sign(token, &timestamp_string(timestamp));
    m
}

#[test]
fn signed_logins_within_the_window() {
    let auth = TokenAuth::new(&token_config());
    assert!(auth.verify_login(&signed_login("root-token", 1_700_000_000, 1), 1_700_000_000).is_ok());
    assert!(auth.verify_login(&signed_login("extra-token", 1_700_000_000, 1), 1_700_000_300).is_ok());
    assert!(auth.verify_login(&signed_login("extra-token", 1_700_000_000, 1), 1_699_999_700).is_ok());
    match auth.verify_login(&signed_login("root-token", 1_700_000_000, 1), 1_700_000_301) {
        Err(Error::Auth(m)) => assert_eq!(m, "Login timestamp outside the allowed window"),
        other => panic!("unexpected: {:?}", other),
    }
    match auth.verify_login(&signed_login("wrong-token", 1_700_000_000, 1), 1_700_000_000) {
        Err(Error::Auth(m)) => assert_eq!(m, "Invalid token"),
        other => panic!("unexpected: {:?}", other),
    }
    // a signed key still meets its token's rule
    assert!(auth.verify_login(&signed_login("scoped-token", -5, 3), 0).is_err());
    assert!(auth.verify_login(&signed_login("scoped-token", -5, 2), 0).is_ok());
    assert_eq!(timestamp_string(-5), "-5");
    assert_eq!(auth.resolve_key(&AuthSigner::sign("scoped-token", "42"), "42").as_deref(), Some("scoped-token"));
    assert_eq!(auth.resolve_key("extra-token", "42").as_deref(), Some("extra-token"));
    assert_eq!(auth.resolve_key("nope", "42"), None);
}

#[test]
fn signed_work_connections() {
    let auth = TokenAuth::new(&token_config());
    let key = AuthSigner::sign("root-token", "run-1");
    assert!(auth.verify_new_work_conn(&NewWorkConnMsg { run_id: "run-1".into(), privilege_key: key.clone() }).is_ok());
    assert!(auth.verify_new_work_conn(&NewWorkConnMsg { run_id: "run-2".into(), privilege_key: key }).is_err());
    assert!(auth.verify_new_work_conn(&NewWorkConnMsg { run_id: "run-2".into(), privilege_key: "root-token".into() }).is_ok());
}

#[test]
fn per_token_runtime_limits() {
    let mut config = token_config();
    config.rules[0].max_connections = 2;
    config.rules[0].bandwidth_limit_bytes = 10_485_760;
    let auth = TokenAuth::new(&config);
    assert!(auth.authorize_connection("scoped-token", 1).is_ok());
    match auth.authorize_connection("scoped-token", 2) {
        Err(Error::Auth(m)) => assert_eq!(m, "connection limit 2 reached for this token"),
        other => panic!("unexpected: {:?}", other),
    }
    assert!(auth.authorize_connection("root-token", 1000).is_ok());
    assert_eq!(auth.bandwidth_limit("scoped-token"), 10_485_760);
    assert_eq!(auth.bandwidth_limit("root-token"), 0);
}
