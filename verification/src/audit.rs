//! The audit trail of the server: the events it records about logins,
//! proxies and work connections.
use vstd::prelude::*;

verus! {

/// Something the server records for auditing.
#[derive(Debug, Clone)]
pub enum AuditEvent {
    ClientLogin { client_id: String, peer_addr: String, run_id: String },
    ClientLoginFailed { peer_addr: String, reason: String },
    ClientDisconnect { client_id: String, run_id: String },
    ProxyRegistered {
        client_id: String,
        run_id: String,
        proxy_name: String,
        proxy_type: String,
        remote_addr: String,
    },
    ProxyRejected { client_id: String, run_id: String, proxy_name: String, reason: String },
    ProxyClosed { run_id: String, proxy_name: String },
    WorkConnAuthFailed { run_id: String, reason: String },
}

/// The name under which an event of each kind is recorded.
pub open spec fn event_name_of(e: AuditEvent) -> Seq<char> {
    match e {
        AuditEvent::ClientLogin { .. } => "client_login"@,
        AuditEvent::ClientLoginFailed { .. } => "client_login_failed"@,
        AuditEvent::ClientDisconnect { .. } => "client_disconnect"@,
        AuditEvent::ProxyRegistered { .. } => "proxy_registered"@,
        AuditEvent::ProxyRejected { .. } => "proxy_rejected"@,
        AuditEvent::ProxyClosed { .. } => "proxy_closed"@,
        AuditEvent::WorkConnAuthFailed { .. } => "work_conn_auth_failed"@,
    }
}

impl AuditEvent {
    /// The name under which the event is recorded (the `event` field of
    /// its JSON record).
    pub fn event_name(&self) -> (s: &'static str)
        ensures
            s@ == event_name_of(*self),
    {
        match self {
            AuditEvent::ClientLogin { .. } => "client_login",
            AuditEvent::ClientLoginFailed { .. } => "client_login_failed",
            AuditEvent::ClientDisconnect { .. } => "client_disconnect",
            AuditEvent::ProxyRegistered { .. } => "proxy_registered",
            AuditEvent::ProxyRejected { .. } => "proxy_rejected",
            AuditEvent::ProxyClosed { .. } => "proxy_closed",
            AuditEvent::WorkConnAuthFailed { .. } => "work_conn_auth_failed",
        }
    }
}

} // verus!
