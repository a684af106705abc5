//! Server, client, proxy and visitor configuration, with the checks that run
//! after a configuration is loaded.
use std::collections::HashMap;
use vstd::prelude::*;

use crate::error::{Error, Result};
use crate::netaddr::{ip_literal, is_ip_literal};
use crate::text::{cat2, cat3, cat5, is_blank, str_eq, string_from, trim};

verus! {

/// Server configuration.
#[derive(Debug, Clone)]
pub struct ServerConfig {
    pub bind_addr: String,
    pub bind_port: u16,
    pub kcp_bind_port: u16,
    pub quic_bind_port: u16,
    pub vhost_http_port: u16,
    pub vhost_https_port: u16,
    pub dashboard_addr: String,
    pub dashboard_port: u16,
    pub dashboard_user: String,
    pub dashboard_pwd: String,
    pub log_level: String,
    pub auth: AuthConfig,
    pub transport: TransportConfig,
    pub allow_ports: Vec<PortRange>,
    pub max_pool_count: u32,
    pub max_ports_per_client: u32,
    pub subdomain_host: String,
    pub tcp_mux: bool,
    pub custom: HashMap<String, serde_json::Value>,
}

/// Client configuration.
#[derive(Debug, Clone)]
pub struct ClientConfig {
    pub server_addr: String,
    pub server_port: u16,
    pub client_id: String,
    pub log_level: String,
    pub auth: AuthConfig,
    pub transport: TransportConfig,
    pub admin_addr: String,
    pub admin_port: u16,
    pub admin_user: String,
    pub admin_pwd: String,
    pub proxies: Vec<ProxyConfig>,
    pub visitors: Vec<VisitorConfig>,
}

/// Authentication settings: the shared token, further accepted tokens and
/// per-token rules.
#[derive(Debug, Clone, Default)]
pub struct AuthConfig {
    pub method: String,
    pub token: String,
    pub additional_tokens: Vec<String>,
    pub rules: Vec<AuthRule>,
    pub oidc: OidcConfig,
}

/// Limits that apply to clients that log in with `token`.
#[derive(Debug, Clone, Default)]
pub struct AuthRule {
    pub token: String,
    pub allow_proxy_types: Vec<String>,
    pub allow_ports: Vec<PortRange>,
    pub allow_domain_suffixes: Vec<String>,
    pub allow_subdomain_prefixes: Vec<String>,
    pub max_pool_count: u32,
    /// The most connections a client of the token may have open at once
    /// through its proxies (0: no limit).
    pub max_connections: u32,
    /// The most bytes a second a client of the token may receive through
    /// its proxies (0: no limit).
    pub bandwidth_limit_bytes: u64,
}

/// OIDC settings.
#[derive(Debug, Clone, Default)]
pub struct OidcConfig {
    pub client_id: String,
    pub client_secret: String,
    pub audience: String,
    pub issuer: String,
    pub token_endpoint_url: String,
}

/// Transport settings of the control and work connections.
#[derive(Debug, Clone)]
pub struct TransportConfig {
    pub protocol: String,
    pub tcp_mux: bool,
    pub tcp_mux_keepalive_interval: u64,
    pub pool_count: u32,
    pub heartbeat_interval: u64,
    pub heartbeat_timeout: u64,
    pub tls: TlsConfig,
}

/// TLS settings.
#[derive(Debug, Clone, Default)]
pub struct TlsConfig {
    pub enable: bool,
    pub cert_file: String,
    pub key_file: String,
    pub trusted_ca_file: String,
    pub server_name: String,
}

/// One proxy that a client exposes.
#[derive(Debug, Clone)]
pub struct ProxyConfig {
    pub name: String,
    pub proxy_type: String,
    pub local_ip: String,
    pub local_port: u16,
    pub remote_port: u16,
    pub use_encryption: bool,
    pub use_compression: bool,
    pub custom_domains: Vec<String>,
    pub subdomain: String,
    pub locations: Vec<String>,
    pub host_header_rewrite: String,
    pub http_user: String,
    pub http_pwd: String,
    pub sk: String,
    pub fallback_to_relay: bool,
    pub multiplexer: String,
    pub bandwidth_limit: String,
    pub bandwidth_limit_mode: String,
    pub health_check: HealthCheckConfig,
    pub load_balancer: LoadBalancerConfig,
    pub plugin: PluginConfig,
}

/// One visitor (the connecting side of an xtcp proxy).
#[derive(Debug, Clone)]
pub struct VisitorConfig {
    pub name: String,
    pub visitor_type: String,
    pub server_name: String,
    pub sk: String,
    pub bind_addr: String,
    pub bind_port: u16,
    pub fallback_to_relay: bool,
    pub xtcp_punch_timeout_secs: u64,
}

/// Health check settings of a proxy's local service.
#[derive(Debug, Clone, Default)]
pub struct HealthCheckConfig {
    pub enable: bool,
    pub check_type: String,
    pub timeout_seconds: u64,
    pub max_failed: u32,
    pub interval_seconds: u64,
    pub path: String,
}

/// Load-balancing group membership of a proxy.
#[derive(Debug, Clone, Default)]
pub struct LoadBalancerConfig {
    pub group: String,
    pub group_key: String,
}

/// Plugin settings of a proxy.
#[derive(Debug, Clone, Default)]
pub struct PluginConfig {
    pub plugin_type: String,
    pub plugin_params: HashMap<String, String>,
}

/// A range of ports, or a single port when `single` is not zero.
#[derive(Debug, Clone, Copy, Default)]
pub struct PortRange {
    pub start: u16,
    pub end: u16,
    pub single: u16,
}

/// The transport protocol is one of those the server and client implement.
pub open spec fn supported_protocol(p: Seq<char>) -> bool {
    p == "tcp"@ || p == "kcp"@ || p == "quic"@ || p == "websocket"@
}

fn is_supported_protocol(p: &str) -> (b: bool)
    ensures
        b == supported_protocol(p@),
{
    str_eq(p, "tcp") || str_eq(p, "kcp") || str_eq(p, "quic") || str_eq(p, "websocket")
}

/// The first problem that `ServerConfig::validate` reports, if any.
pub open spec fn server_config_problem(c: ServerConfig) -> Option<Seq<char>> {
    let p = c.transport.protocol@;
    let tls = c.transport.tls;
    if c.bind_port == 0 {
        Some("bind_port cannot be 0"@)
    } else if !supported_protocol(p) {
        Some("unsupported transport.protocol: "@ + p)
    } else if p == "quic"@ && (tls.cert_file@.len() == 0 || tls.key_file@.len() == 0) {
        Some("quic transport requires transport.tls.cert_file and transport.tls.key_file"@)
    } else if p == "websocket"@ && tls.enable && (tls.cert_file@.len() == 0
        || tls.key_file@.len() == 0) {
        Some("websocket + tls requires transport.tls.cert_file and transport.tls.key_file"@)
    } else if tls.enable && (tls.cert_file@.len() == 0 || tls.key_file@.len() == 0) {
        Some("tls.enable is true but cert_file/key_file is empty"@)
    } else {
        None
    }
}

/// The name a client-side transport error gives its protocol.
pub open spec fn transport_label(p: Seq<char>) -> Seq<char> {
    if p == "websocket"@ {
        "websocket + tls"@
    } else {
        p
    }
}

/// The first problem of the client's own settings (not of its proxies), if any.
pub open spec fn client_settings_problem(c: ClientConfig) -> Option<Seq<char>> {
    let p = c.transport.protocol@;
    let tls = c.transport.tls;
    if c.server_addr@.len() == 0 {
        Some("server_addr cannot be empty"@)
    } else if c.server_port == 0 {
        Some("server_port cannot be 0"@)
    } else if !supported_protocol(p) {
        Some("unsupported transport.protocol: "@ + p)
    } else if (p == "quic"@ || (p == "websocket"@ && tls.enable) || (p == "tcp"@ && tls.enable))
        && trim(tls.trusted_ca_file@).len() == 0 {
        Some(transport_label(p) + " transport requires transport.tls.trusted_ca_file"@)
    } else if (p == "quic"@ || (p == "websocket"@ && tls.enable) || (p == "tcp"@ && tls.enable))
        && ip_literal(c.server_addr@)
        && trim(tls.server_name@).len() == 0 {
        Some(transport_label(p) + " transport with IP server_addr requires transport.tls.server_name"@)
    } else {
        None
    }
}

/// The first problem among `proxies[from..]`, if any.
pub open spec fn proxies_problem(proxies: Seq<ProxyConfig>, from: int) -> Option<Seq<char>>
    decreases proxies.len() - from,
{
    if from < 0 || from >= proxies.len() {
        None
    } else {
        match proxy_config_problem(proxies[from]) {
            Some(m) => Some(m),
            None => proxies_problem(proxies, from + 1),
        }
    }
}

/// The first problem that `ClientConfig::validate` reports, if any.
pub open spec fn client_config_problem(c: ClientConfig) -> Option<Seq<char>> {
    match client_settings_problem(c) {
        Some(m) => Some(m),
        None => proxies_problem(c.proxies@, 0),
    }
}

/// The proxy type needs a shared secret.
pub open spec fn type_needs_sk(t: Seq<char>) -> bool {
    t == "stcp"@ || t == "sudp"@ || t == "xtcp"@
}

/// The first problem that `ProxyConfig::validate` reports, if any.
pub open spec fn proxy_config_problem(p: ProxyConfig) -> Option<Seq<char>> {
    let name = p.name@;
    let t = p.proxy_type@;
    if name.len() == 0 {
        Some("proxy name cannot be empty"@)
    } else if t.len() == 0 {
        Some("proxy type cannot be empty"@)
    } else if p.local_port == 0 {
        Some("proxy "@ + name + " local_port cannot be 0"@)
    } else if (t == "http"@ || t == "https"@) && p.custom_domains.len() == 0 && trim(
        p.subdomain@,
    ).len() == 0 {
        Some("proxy "@ + name + " of type "@ + t + " requires custom_domains or subdomain"@)
    } else if p.use_encryption && trim(p.sk@).len() == 0 {
        Some("proxy "@ + name + " enables encryption but sk is empty"@)
    } else if type_needs_sk(t) && trim(p.sk@).len() == 0 {
        Some("proxy "@ + name + " of type "@ + t + " requires sk"@)
    } else {
        None
    }
}

/// How a check's outcome maps to `validate`'s result.
pub open spec fn config_outcome(problem: Option<Seq<char>>, r: Result<()>) -> bool {
    match problem {
        None => r is Ok,
        Some(m) => r matches Err(Error::Config(x)) && x@ == m,
    }
}

impl ServerConfig {
    /// Checks the port, the transport protocol, and that the certificate
    /// and key files are named whenever TLS is on (and always for quic).
    pub fn validate(&self) -> (r: Result<()>)
        ensures
            config_outcome(server_config_problem(*self), r),
    {
        if self.bind_port == 0 {
            return Err(Error::Config(string_from("bind_port cannot be 0")));
        }
        let p = self.transport.protocol.as_str();
        if !is_supported_protocol(p) {
            return Err(Error::Config(cat2("unsupported transport.protocol: ", p)));
        }
        let tls = &self.transport.tls;
        if str_eq(p, "quic") && (tls.cert_file.as_str().is_empty()
            || tls.key_file.as_str().is_empty()) {
            return Err(
                Error::Config(
                    string_from(
                        "quic transport requires transport.tls.cert_file and transport.tls.key_file",
                    ),
                ),
            );
        }
        if str_eq(p, "websocket") && tls.enable && (tls.cert_file.as_str().is_empty()
            || tls.key_file.as_str().is_empty()) {
            return Err(
                Error::Config(
                    string_from(
                        "websocket + tls requires transport.tls.cert_file and transport.tls.key_file",
                    ),
                ),
            );
        }
        if tls.enable && (tls.cert_file.as_str().is_empty() || tls.key_file.as_str().is_empty()) {
            return Err(Error::Config(string_from("tls.enable is true but cert_file/key_file is empty")));
        }
        Ok(())
    }
}

fn label_of(p: &str) -> (out: String)
    ensures
        out@ == transport_label(p@),
{
    if str_eq(p, "websocket") {
        string_from("websocket + tls")
    } else {
        string_from(p)
    }
}

impl ClientConfig {
    /// Checks the server address and port, the transport and its TLS
    /// settings, then every proxy in order.
    pub fn validate(&self) -> (r: Result<()>)
        ensures
            config_outcome(client_config_problem(*self), r),
    {
        if self.server_addr.as_str().is_empty() {
            return Err(Error::Config(string_from("server_addr cannot be empty")));
        }
        if self.server_port == 0 {
            return Err(Error::Config(string_from("server_port cannot be 0")));
        }
        let p = self.transport.protocol.as_str();
        if !is_supported_protocol(p) {
            return Err(Error::Config(cat2("unsupported transport.protocol: ", p)));
        }
        let tls = &self.transport.tls;
        let quic = str_eq(p, "quic");
        let ws_tls = str_eq(p, "websocket") && tls.enable;
        let tcp_tls = str_eq(p, "tcp") && tls.enable;
        if (quic || ws_tls || tcp_tls) && is_blank(tls.trusted_ca_file.as_str()) {
            let label = label_of(p);
            return Err(
                Error::Config(
                    cat2(label.as_str(), " transport requires transport.tls.trusted_ca_file"),
                ),
            );
        }
        if (quic || ws_tls || tcp_tls) && is_ip_literal(self.server_addr.as_str()) && is_blank(
            tls.server_name.as_str(),
        ) {
            let label = label_of(p);
            return Err(
                Error::Config(
                    cat2(
                        label.as_str(),
                        " transport with IP server_addr requires transport.tls.server_name",
                    ),
                ),
            );
        }
        let mut i: usize = 0;
        while i < self.proxies.len()
            invariant
                i <= self.proxies.len(),
                client_settings_problem(*self) is None,
                proxies_problem(self.proxies@, 0) == proxies_problem(self.proxies@, i as int),
            decreases self.proxies.len() - i,
        {
            let r = self.proxies[i].validate();
            if r.is_err() {
                return r;
            }
            i = i + 1;
        }
        Ok(())
    }
}

impl ProxyConfig {
    /// Checks the name, type and local port, that `http`/`https` proxies name
    /// a domain, and that encrypted and secret-keyed proxy types carry `sk`.
    pub fn validate(&self) -> (r: Result<()>)
        ensures
            config_outcome(proxy_config_problem(*self), r),
    {
        let name = self.name.as_str();
        let t = self.proxy_type.as_str();
        if name.is_empty() {
            return Err(Error::Config(string_from("proxy name cannot be empty")));
        }
        if t.is_empty() {
            return Err(Error::Config(string_from("proxy type cannot be empty")));
        }
        if self.local_port == 0 {
            return Err(Error::Config(cat3("proxy ", name, " local_port cannot be 0")));
        }
        if (str_eq(t, "http") || str_eq(t, "https")) && self.custom_domains.len() == 0
            && is_blank(self.subdomain.as_str()) {
            return Err(
                Error::Config(
                    cat5("proxy ", name, " of type ", t, " requires custom_domains or subdomain"),
                ),
            );
        }
        let sk_blank = is_blank(self.sk.as_str());
        if self.use_encryption && sk_blank {
            return Err(
                Error::Config(cat3("proxy ", name, " enables encryption but sk is empty")),
            );
        }
        if (str_eq(t, "stcp") || str_eq(t, "sudp") || str_eq(t, "xtcp")) && sk_blank {
            return Err(Error::Config(cat5("proxy ", name, " of type ", t, " requires sk")));
        }
        Ok(())
    }
}

impl Default for TransportConfig {
    fn default() -> (c: Self)
        ensures
            c.protocol@ == "tcp"@,
            c.tcp_mux,
            c.tcp_mux_keepalive_interval == 60,
            c.pool_count == 1,
            c.heartbeat_interval == 30,
            c.heartbeat_timeout == 90,
            !c.tls.enable,
    {
        TransportConfig {
            protocol: default_protocol(),
            tcp_mux: default_tcp_mux(),
            tcp_mux_keepalive_interval: 60,
            pool_count: 1,
            heartbeat_interval: 30,
            heartbeat_timeout: 90,
            tls: TlsConfig {
                enable: false,
                cert_file: String::new(),
                key_file: String::new(),
                trusted_ca_file: String::new(),
                server_name: String::new(),
            },
        }
    }
}

/// Default server bind address.
pub fn default_bind_addr() -> (s: String)
    ensures
        s@ == "0.0.0.0"@,
{
    string_from("0.0.0.0")
}

/// Default server bind port.
pub fn default_bind_port() -> (p: u16)
    ensures
        p == 7000,
{
    7000
}

/// Default server address a client connects to.
pub fn default_server_addr() -> (s: String)
    ensures
        s@ == "127.0.0.1"@,
{
    string_from("127.0.0.1")
}

/// Default server port a client connects to.
pub fn default_server_port() -> (p: u16)
    ensures
        p == 7000,
{
    7000
}

/// Default local address of a proxied service.
pub fn default_local_ip() -> (s: String)
    ensures
        s@ == "127.0.0.1"@,
{
    string_from("127.0.0.1")
}

/// Default transport protocol.
pub fn default_protocol() -> (s: String)
    ensures
        s@ == "tcp"@,
{
    string_from("tcp")
}

/// Multiplexing is on unless configured off.
pub fn default_tcp_mux() -> (b: bool)
    ensures
        b,
{
    true
}

/// Default authentication method.
pub fn default_auth_method() -> (s: String)
    ensures
        s@ == "token"@,
{
    string_from("token")
}

/// Default health check type.
pub fn default_health_check_type() -> (s: String)
    ensures
        s@ == "tcp"@,
{
    string_from("tcp")
}

/// Default of the flags that are on unless configured off.
pub fn default_true() -> (b: bool)
    ensures
        b,
{
    true
}

/// Default time a visitor waits for a direct xtcp connection, in seconds.
pub fn default_xtcp_punch_timeout_secs() -> (t: u64)
    ensures
        t == 12,
{
    12
}

/// Law: a client configuration is refused whenever any one of its proxies,
/// at any position, is refused; when the client's own settings and every
/// proxy before it are sound, the refusal is that proxy's own; and when the
/// settings and all proxies are sound, the configuration is accepted.
pub proof fn law_every_proxy_validated(c: ClientConfig, i: int)
    requires
        0 <= i < c.proxies@.len(),
    ensures
        proxy_config_problem(c.proxies@[i]) is Some ==> client_config_problem(c) is Some,
        (client_settings_problem(c) is None && (forall|j: int|
            0 <= j < i ==> proxy_config_problem(#[trigger] c.proxies@[j]) is None))
            ==> client_config_problem(c) == match proxy_config_problem(c.proxies@[i]) {
            Some(m) => Some(m),
            None => proxies_problem(c.proxies@, i + 1),
        },
{
    lemma_proxies_problem_from(c.proxies@, 0, i);
}

/// Every proxy from `from` on is checked: a refused proxy at `i` makes the
/// scan from `from` refuse, and with none refused before `i` the scan from
/// `from` is the scan from `i`.
proof fn lemma_proxies_problem_from(ps: Seq<ProxyConfig>, from: int, i: int)
    requires
        0 <= from <= i < ps.len(),
    ensures
        proxy_config_problem(ps[i]) is Some ==> proxies_problem(ps, from) is Some,
        (forall|j: int| from <= j < i ==> proxy_config_problem(#[trigger] ps[j]) is None)
            ==> proxies_problem(ps, from) == proxies_problem(ps, i),
    decreases i - from,
{
    if from < i {
        lemma_proxies_problem_from(ps, from + 1, i);
    }
}

/// Law: with sound client settings and every proxy sound, a client
/// configuration is accepted.
pub proof fn law_sound_client_config_accepted(c: ClientConfig)
    requires
        client_settings_problem(c) is None,
        forall|j: int| 0 <= j < c.proxies@.len() ==> proxy_config_problem(#[trigger] c.proxies@[j]) is None,
    ensures
        client_config_problem(c) is None,
{
    lemma_proxies_all_sound(c.proxies@, 0);
}

proof fn lemma_proxies_all_sound(ps: Seq<ProxyConfig>, from: int)
    requires
        0 <= from,
        forall|j: int| from <= j < ps.len() ==> proxy_config_problem(#[trigger] ps[j]) is None,
    ensures
        proxies_problem(ps, from) is None,
    decreases ps.len() - from,
{
    if from < ps.len() {
        lemma_proxies_all_sound(ps, from + 1);
    }
}

} // verus!
