//! The server's decisions when it starts and when a connection arrives:
//! where it listens and serves its dashboard, how an accepted stream is set
//! up, what the first message of a connection leads to, and what a login
//! and a work connection are answered.
use vstd::prelude::*;
use crate::config::ServerConfig;
use crate::error::{Error, Result, error_text};
use crate::protocol::message::{LoginMsg, LoginRespMsg, Message, NewWorkConnMsg, StcpVisitorConnMsg, type_byte_of};
use crate::text::{trim, string_from, str_eq, cat2, cat3, decimal, decimal_string, is_blank};

verus! {

/// How long, in seconds, a server that is asked to stop waits for its
/// client connections to close before it exits.
pub const SHUTDOWN_DRAIN_SECS: u64 = 30;

/// Where the dashboard listens: the dashboard address (the bind address
/// when blank) and port; none when the port is 0.
pub fn dashboard_listen_addr(config: &ServerConfig) -> (r: Option<(String, u16)>)
    ensures
        config.dashboard_port == 0 ==> r is None,
        config.dashboard_port > 0 ==> (r matches Some((a, p)) && p == config.dashboard_port && a@
            == if config.dashboard_addr@.len() == 0 {
            config.bind_addr@
        } else {
            config.dashboard_addr@
        }),
{
    if config.dashboard_port == 0 {
        return None;
    }
    let addr = if config.dashboard_addr.as_str().is_empty() {
        string_from(config.bind_addr.as_str())
    } else {
        string_from(config.dashboard_addr.as_str())
    };
    Some((addr, config.dashboard_port))
}

/// The listener the server runs for its control and work connections.
#[derive(Debug, Clone, Copy, PartialEq, Eq, Structural)]
pub enum ListenerKind {
    /// KCP on this port.
    Kcp(u16),
    /// QUIC on this port.
    Quic(u16),
    /// TCP on the bind port (plain, TLS or WebSocket).
    TcpLike(u16),
}

/// The listener for `config`: KCP and QUIC on their own port when set,
/// else on the bind port; anything else is TCP on the bind port.
pub open spec fn listener_of(config: ServerConfig) -> ListenerKind {
    let p = config.transport.protocol@;
    if p == "kcp"@ {
        ListenerKind::Kcp(
            if config.kcp_bind_port > 0 {
                config.kcp_bind_port
            } else {
                config.bind_port
            },
        )
    } else if p == "quic"@ {
        ListenerKind::Quic(
            if config.quic_bind_port > 0 {
                config.quic_bind_port
            } else {
                config.bind_port
            },
        )
    } else {
        ListenerKind::TcpLike(config.bind_port)
    }
}

/// The listener the server runs.
pub fn listener_kind(config: &ServerConfig) -> (k: ListenerKind)
    ensures
        k == listener_of(*config),
{
    let p = config.transport.protocol.as_str();
    proof {
        reveal_strlit("kcp");
        reveal_strlit("quic");
    }
    if str_eq(p, "kcp") {
        ListenerKind::Kcp(
            if config.kcp_bind_port > 0 {
                config.kcp_bind_port
            } else {
                config.bind_port
            },
        )
    } else if str_eq(p, "quic") {
        ListenerKind::Quic(
            if config.quic_bind_port > 0 {
                config.quic_bind_port
            } else {
                config.bind_port
            },
        )
    } else {
        ListenerKind::TcpLike(config.bind_port)
    }
}

/// How long the server waits for a message on a control connection before
/// it drops the client, in seconds: the configured heartbeat timeout, 90
/// when unset (the client's own default).
pub fn server_heartbeat_timeout(config: &ServerConfig) -> (s: u64)
    ensures
        s == if config.transport.heartbeat_timeout > 0 {
            config.transport.heartbeat_timeout
        } else {
            90
        },
{
    if config.transport.heartbeat_timeout > 0 {
        config.transport.heartbeat_timeout
    } else {
        90
    }
}

/// `bind_addr:port`.
pub fn bind_endpoint(config: &ServerConfig, port: u16) -> (s: String)
    ensures
        s@ == config.bind_addr@ + ":"@ + decimal(port as nat),
{
    let p = decimal_string(port as u64);
    cat3(config.bind_addr.as_str(), ":", p.as_str())
}

/// How an accepted TCP stream is set up before messages flow.
#[derive(Debug, Clone, Copy, PartialEq, Eq, Structural)]
pub enum StreamSetup {
    /// TLS, then a WebSocket handshake.
    Wss,
    /// A WebSocket handshake.
    Ws,
    /// TLS.
    Tls,
    /// Nothing: messages flow at once.
    Plain,
}

/// How an accepted stream is set up: WebSocket or not by the protocol, TLS
/// or not by the configuration.
pub fn stream_setup(config: &ServerConfig) -> (s: StreamSetup)
    ensures
        s == if config.transport.protocol@ == "websocket"@ {
            if config.transport.tls.enable {
                StreamSetup::Wss
            } else {
                StreamSetup::Ws
            }
        } else if config.transport.tls.enable {
            StreamSetup::Tls
        } else {
            StreamSetup::Plain
        },
{
    proof {
        reveal_strlit("websocket");
    }
    if str_eq(config.transport.protocol.as_str(), "websocket") {
        if config.transport.tls.enable {
            StreamSetup::Wss
        } else {
            StreamSetup::Ws
        }
    } else if config.transport.tls.enable {
        StreamSetup::Tls
    } else {
        StreamSetup::Plain
    }
}

/// What the first message of a connection opens.
pub enum FirstMessage {
    /// A control connection: the client logs in.
    Login(LoginMsg),
    /// A work connection of a logged-in client.
    WorkConn(NewWorkConnMsg),
    /// A visitor's connection to an stcp proxy.
    StcpVisitor(StcpVisitorConnMsg),
}

/// The first message of a connection: a login, a new work connection, or
/// an stcp visitor's connection; anything else is a protocol error.
pub fn route_first_message(msg: Message) -> (r: Result<FirstMessage>)
    ensures
        match msg {
            Message::Login(m) => r matches Ok(FirstMessage::Login(x)) && x == m,
            Message::NewWorkConn(m) => r matches Ok(FirstMessage::WorkConn(x)) && x == m,
            Message::StcpVisitorConn(m) => r matches Ok(FirstMessage::StcpVisitor(x)) && x == m,
            other => (r matches Err(Error::Protocol(t)) && t@
                == "Expected Login or NewWorkConn message, got '"@ + seq![
                type_byte_of(other) as char,
            ] + "'"@),
        },
{
    match msg {
        Message::Login(m) => Ok(FirstMessage::Login(m)),
        Message::NewWorkConn(m) => Ok(FirstMessage::WorkConn(m)),
        Message::StcpVisitorConn(m) => Ok(FirstMessage::StcpVisitor(m)),
        other => {
            let mut s = string_from("Expected Login or NewWorkConn message, got '");
            crate::text::push_char(&mut s, other.type_byte() as char);
            crate::text::push_char(&mut s, '\'');
            proof {
                reveal_strlit("'");
                reveal_strlit("Expected Login or NewWorkConn message, got '");
            }
            assert(s@ =~= "Expected Login or NewWorkConn message, got '"@ + seq![
                type_byte_of(other) as char,
            ] + "'"@);
            Err(Error::Protocol(s))
        },
    }
}

/// The answer to a login: the server's version and, on success, the run
/// id given to the client; on failure no run id and the error's text.
pub fn login_reply(version: &str, verdict: &Result<()>, run_id: &str) -> (m: LoginRespMsg)
    ensures
        m.version@ == version@,
        verdict is Ok ==> m.run_id@ == run_id@ && m.error@.len() == 0,
        verdict matches Err(e) ==> m.run_id@.len() == 0 && (!(e is Io) ==> m.error@ == error_text(
            *e,
        )),
{
    match verdict {
        Ok(()) => LoginRespMsg {
            version: string_from(version),
            run_id: string_from(run_id),
            error: String::new(),
        },
        Err(e) => LoginRespMsg { version: string_from(version), run_id: String::new(), error: e.message() },
    }
}

/// Checks a new work connection's run id before it is authenticated: it
/// must not be blank.
pub fn check_work_conn_run_id(msg: &NewWorkConnMsg) -> (r: Result<()>)
    ensures
        trim(msg.run_id@).len() == 0 ==> (r matches Err(Error::Protocol(m)) && m@
            == "Empty run_id in NewWorkConn"@),
        trim(msg.run_id@).len() > 0 ==> r is Ok,
{
    if is_blank(msg.run_id.as_str()) {
        return Err(Error::Protocol(string_from("Empty run_id in NewWorkConn")));
    }
    Ok(())
}

/// The error for a work connection whose run id no control connection has.
pub fn unknown_run_id(run_id: &str) -> (e: Error)
    ensures
        e matches Error::Protocol(m) && m@ == "Unknown run_id: "@ + run_id@,
{
    Error::Protocol(cat2("Unknown run_id: ", run_id))
}

/// Checks that TLS has its certificate and key files named, before they are
/// read.
pub fn check_tls_files(config: &ServerConfig, for_quic: bool) -> (r: Result<()>)
    ensures
        (config.transport.tls.cert_file@.len() == 0 || config.transport.tls.key_file@.len() == 0)
            ==> (r matches Err(Error::Config(m)) && m@ == if for_quic {
            "quic transport requires tls.cert_file and tls.key_file"@
        } else {
            "tls.enable is true but cert_file/key_file is empty"@
        }),
        (config.transport.tls.cert_file@.len() > 0 && config.transport.tls.key_file@.len() > 0)
            ==> r is Ok,
{
    if config.transport.tls.cert_file.as_str().is_empty()
        || config.transport.tls.key_file.as_str().is_empty() {
        if for_quic {
            return Err(
                Error::Config(string_from("quic transport requires tls.cert_file and tls.key_file")),
            );
        } else {
            return Err(
                Error::Config(string_from("tls.enable is true but cert_file/key_file is empty")),
            );
        }
    }
    Ok(())
}

} // verus!
