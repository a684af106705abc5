//! Control-protocol messages.
use vstd::prelude::*;

verus! {

/// A control-protocol message.
#[derive(Debug, Clone)]
pub enum Message {
    Login(LoginMsg),
    LoginResp(LoginRespMsg),
    NewProxy(NewProxyMsg),
    NewProxyResp(NewProxyRespMsg),
    CloseProxy(CloseProxyMsg),
    ReqWorkConn(ReqWorkConnMsg),
    NewWorkConn(NewWorkConnMsg),
    StartWorkConn(StartWorkConnMsg),
    Ping(PingMsg),
    Pong(PongMsg),
    UdpPacket(UdpPacketMsg),
    NatHoleVisitor(NatHoleVisitorMsg),
    NatHoleClient(NatHoleClientMsg),
    NatHoleResp(NatHoleRespMsg),
    StcpVisitorConn(StcpVisitorConnMsg),
    ServerShutdown(ServerShutdownMsg),
}

/// The frame type byte of each kind of message.
pub open spec fn type_byte_of(m: Message) -> u8 {
    match m {
        Message::Login(_) => 0x6f,  // 'o'
        Message::LoginResp(_) => 0x31,  // '1'
        Message::NewProxy(_) => 0x70,  // 'p'
        Message::NewProxyResp(_) => 0x32,  // '2'
        Message::CloseProxy(_) => 0x63,  // 'c'
        Message::ReqWorkConn(_) => 0x72,  // 'r'
        Message::NewWorkConn(_) => 0x77,  // 'w'
        Message::StartWorkConn(_) => 0x73,  // 's'
        Message::Ping(_) => 0x68,  // 'h'
        Message::Pong(_) => 0x34,  // '4'
        Message::UdpPacket(_) => 0x75,  // 'u'
        Message::NatHoleVisitor(_) => 0x69,  // 'i'
        Message::NatHoleClient(_) => 0x6e,  // 'n'
        Message::NatHoleResp(_) => 0x6d,  // 'm'
        Message::StcpVisitorConn(_) => 0x76,  // 'v'
        Message::ServerShutdown(_) => 0x78,  // 'x'
    }
}

/// The variant name of each kind of message, as its JSON `type` tag writes it.
pub open spec fn type_name_of(m: Message) -> Seq<char> {
    match m {
        Message::Login(_) => "Login"@,
        Message::LoginResp(_) => "LoginResp"@,
        Message::NewProxy(_) => "NewProxy"@,
        Message::NewProxyResp(_) => "NewProxyResp"@,
        Message::CloseProxy(_) => "CloseProxy"@,
        Message::ReqWorkConn(_) => "ReqWorkConn"@,
        Message::NewWorkConn(_) => "NewWorkConn"@,
        Message::StartWorkConn(_) => "StartWorkConn"@,
        Message::Ping(_) => "Ping"@,
        Message::Pong(_) => "Pong"@,
        Message::UdpPacket(_) => "UdpPacket"@,
        Message::NatHoleVisitor(_) => "NatHoleVisitor"@,
        Message::NatHoleClient(_) => "NatHoleClient"@,
        Message::NatHoleResp(_) => "NatHoleResp"@,
        Message::StcpVisitorConn(_) => "StcpVisitorConn"@,
        Message::ServerShutdown(_) => "ServerShutdown"@,
    }
}

/// The variant name that a type byte stands for, if any.
pub open spec fn name_of_type_byte(b: u8) -> Option<Seq<char>> {
    if b == 0x6f {
        Some("Login"@)
    } else if b == 0x31 {
        Some("LoginResp"@)
    } else if b == 0x70 {
        Some("NewProxy"@)
    } else if b == 0x32 {
        Some("NewProxyResp"@)
    } else if b == 0x63 {
        Some("CloseProxy"@)
    } else if b == 0x72 {
        Some("ReqWorkConn"@)
    } else if b == 0x77 {
        Some("NewWorkConn"@)
    } else if b == 0x73 {
        Some("StartWorkConn"@)
    } else if b == 0x68 {
        Some("Ping"@)
    } else if b == 0x34 {
        Some("Pong"@)
    } else if b == 0x75 {
        Some("UdpPacket"@)
    } else if b == 0x69 {
        Some("NatHoleVisitor"@)
    } else if b == 0x6e {
        Some("NatHoleClient"@)
    } else if b == 0x6d {
        Some("NatHoleResp"@)
    } else if b == 0x76 {
        Some("StcpVisitorConn"@)
    } else if b == 0x78 {
        Some("ServerShutdown"@)
    } else {
        None
    }
}

impl Message {
    /// The frame type byte that precedes this message on the wire.
    pub fn type_byte(&self) -> (b: u8)
        ensures
            b == type_byte_of(*self),
    {
        match self {
            Message::Login(_) => 0x6f,
            Message::LoginResp(_) => 0x31,
            Message::NewProxy(_) => 0x70,
            Message::NewProxyResp(_) => 0x32,
            Message::CloseProxy(_) => 0x63,
            Message::ReqWorkConn(_) => 0x72,
            Message::NewWorkConn(_) => 0x77,
            Message::StartWorkConn(_) => 0x73,
            Message::Ping(_) => 0x68,
            Message::Pong(_) => 0x34,
            Message::UdpPacket(_) => 0x75,
            Message::NatHoleVisitor(_) => 0x69,
            Message::NatHoleClient(_) => 0x6e,
            Message::NatHoleResp(_) => 0x6d,
            Message::StcpVisitorConn(_) => 0x76,
            Message::ServerShutdown(_) => 0x78,
        }
    }

    /// The name of the message kind that a type byte stands for, if any.
    pub fn from_type_byte(byte: u8) -> (r: Option<&'static str>)
        ensures
            match name_of_type_byte(byte) {
                Some(n) => r matches Some(s) && s@ == n,
                None => r is None,
            },
    {
        match byte {
            0x6f => Some("Login"),
            0x31 => Some("LoginResp"),
            0x70 => Some("NewProxy"),
            0x32 => Some("NewProxyResp"),
            0x63 => Some("CloseProxy"),
            0x72 => Some("ReqWorkConn"),
            0x77 => Some("NewWorkConn"),
            0x73 => Some("StartWorkConn"),
            0x68 => Some("Ping"),
            0x34 => Some("Pong"),
            0x75 => Some("UdpPacket"),
            0x69 => Some("NatHoleVisitor"),
            0x6e => Some("NatHoleClient"),
            0x6d => Some("NatHoleResp"),
            0x76 => Some("StcpVisitorConn"),
            0x78 => Some("ServerShutdown"),
            _ => None,
        }
    }
}

/// Each message's type byte names its own kind: decoding the byte that
/// `type_byte` writes gives back the message's variant name.
pub proof fn law_type_byte_names_variant(m: Message)
    ensures
        name_of_type_byte(type_byte_of(m)) == Some(type_name_of(m)),
{
}

/// Distinct kinds of message get distinct type bytes.
pub proof fn law_type_bytes_distinct(a: Message, b: Message)
    requires
        type_name_of(a) != type_name_of(b),
    ensures
        type_byte_of(a) != type_byte_of(b),
{
    law_type_byte_names_variant(a);
    law_type_byte_names_variant(b);
}

/// The server asks a client to exit without reconnecting, with a reason
/// for its log.
#[derive(Debug, Clone)]
pub struct ServerShutdownMsg {
    pub reason: String,
}

/// Client login request.
#[derive(Debug, Clone)]
pub struct LoginMsg {
    pub version: String,
    pub hostname: String,
    pub os: String,
    pub arch: String,
    pub user: String,
    pub client_id: String,
    pub timestamp: i64,
    pub privilege_key: String,
    pub run_id: String,
    pub pool_count: u32,
}

/// Server reply to a login.
#[derive(Debug, Clone)]
pub struct LoginRespMsg {
    pub version: String,
    pub run_id: String,
    pub error: String,
}

/// The load-balancing fields that a `NewProxy` message carries besides its
/// named fields: each present only when the sender wrote it as a string.
#[derive(Debug, Clone, Default)]
pub struct ProxyExtra {
    pub group: Option<String>,
    pub group_key: Option<String>,
    pub load_balancer: Option<LoadBalancerExtra>,
}

/// The `load_balancer` object inside `ProxyExtra`.
#[derive(Debug, Clone, Default)]
pub struct LoadBalancerExtra {
    pub group: Option<String>,
    pub group_key: Option<String>,
}

/// Proxy registration request.
#[derive(Debug, Clone)]
pub struct NewProxyMsg {
    pub proxy_name: String,
    pub proxy_type: String,
    pub use_encryption: bool,
    pub use_compression: bool,
    pub local_ip: String,
    pub local_port: u16,
    pub remote_port: u16,
    pub custom_domains: Vec<String>,
    pub subdomain: String,
    pub locations: Vec<String>,
    pub host_header_rewrite: String,
    pub sk: String,
    pub multiplexer: String,
    pub fallback_to_relay: bool,
    pub extra: ProxyExtra,
}

/// Reply to a proxy registration.
#[derive(Debug, Clone)]
pub struct NewProxyRespMsg {
    pub proxy_name: String,
    pub remote_addr: String,
    pub error: String,
}

/// Request to close a proxy.
#[derive(Debug, Clone)]
pub struct CloseProxyMsg {
    pub proxy_name: String,
}

/// Server request for a new work connection.
#[derive(Debug, Clone)]
pub struct ReqWorkConnMsg {
    pub proxy_name: String,
}

/// First message on a new work connection.
#[derive(Debug, Clone)]
pub struct NewWorkConnMsg {
    pub run_id: String,
    pub privilege_key: String,
}

/// Server message that binds a work connection to a proxy.
#[derive(Debug, Clone)]
pub struct StartWorkConnMsg {
    pub proxy_name: String,
    pub src_addr: String,
    pub dst_addr: String,
    pub error: String,
}

/// Heartbeat.
#[derive(Debug, Clone, Default)]
pub struct PingMsg {
    pub timestamp: i64,
}

/// Heartbeat reply.
#[derive(Debug, Clone, Default)]
pub struct PongMsg {
    pub timestamp: i64,
}

/// A UDP datagram carried over the control channel.
#[derive(Debug, Clone)]
pub struct UdpPacketMsg {
    pub content: Vec<u8>,
    pub local_addr: String,
    pub remote_addr: String,
}

/// A visitor's request to reach an xtcp proxy; `signed_msg` is `<sk>|<addr>`.
#[derive(Debug, Clone)]
pub struct NatHoleVisitorMsg {
    pub proxy_name: String,
    pub signed_msg: String,
}

/// Server request to an xtcp provider to prepare for a visitor.
#[derive(Debug, Clone)]
pub struct NatHoleClientMsg {
    pub proxy_name: String,
    pub visitor_addr: String,
}

/// The provider's answer, forwarded to the visitor.
#[derive(Debug, Clone)]
pub struct NatHoleRespMsg {
    pub visitor_addr: String,
    pub client_addr: String,
    pub relay_addr: String,
    pub error: String,
}

/// Visitor connection to an stcp proxy.
#[derive(Debug, Clone)]
pub struct StcpVisitorConnMsg {
    pub proxy_name: String,
    pub sk_signature: String,
    pub timestamp: i64,
}

/// The default of `NewProxyMsg::fallback_to_relay`.
pub fn default_true() -> (b: bool)
    ensures
        b,
{
    true
}

} // verus!
