//! What the server decides when it sets up a TCP or UDP proxy: the mode
//! of its work connections, the public port it gets, and the message that
//! starts each work connection.
use vstd::prelude::*;
use crate::text::{str_eq, string_from};
use crate::error::{Error, Result};
use crate::protocol::{NewProxyMsg, StartWorkConnMsg};
use crate::proxy_registry::{listen_addr_of, remote_addr_for_port};
use crate::resource::{ResourceController, scan_ports, port_allowed, RANDOM_PORT_ATTEMPTS};

verus! {

/// The multiplexers under which a TCP proxy carries all its clients over
/// one work connection.
pub open spec fn is_mux_multiplexer(m: Seq<char>) -> bool {
    m == "tcp_mux"@ || m == "mux"@ || m == "smux"@ || m == "yamux"@
}

/// A TCP proxy multiplexes its clients when its multiplexer asks for it,
/// except in secure (stcp) mode.
pub fn uses_tcp_mux(multiplexer: &str, stcp: bool) -> (b: bool)
    ensures
        b == (is_mux_multiplexer(multiplexer@) && !stcp),
{
    let named = str_eq(multiplexer, "tcp_mux") || str_eq(multiplexer, "mux") || str_eq(multiplexer, "smux")
        || str_eq(multiplexer, "yamux");
    named && !stcp
}

/// Allocates the public port of a proxy: the requested one when it names
/// one, else the next free one of the dynamic scan.
pub fn allocate_remote_port(rc: &mut ResourceController, requested: u16) -> (r: Result<u16>)
    requires
        old(rc).wf(),
    ensures
        final(rc).wf(),
        final(rc).ranges() == old(rc).ranges(),
        requested > 0 ==> final(rc).next_port() == old(rc).next_port() && (r is Ok <==> port_allowed(
            old(rc).ranges(),
            requested,
        ) && !old(rc).ports().contains_key(requested)),
        requested > 0 && r is Ok ==> r == Ok::<u16, Error>(requested) && final(rc).ports() == old(
            rc,
        ).ports().insert(requested, Seq::empty()),
        requested > 0 && r is Err ==> final(rc).ports() == old(rc).ports(),
        requested == 0 ==> ({
            let (chosen, next) = scan_ports(
                old(rc).next_port(),
                RANDOM_PORT_ATTEMPTS as nat,
                old(rc).ranges(),
                old(rc).ports().dom(),
            );
            &&& final(rc).next_port() == next
            &&& match chosen {
                Some(p) => r == Ok::<u16, Error>(p) && final(rc).ports() == old(rc).ports().insert(
                    p,
                    Seq::empty(),
                ),
                None => r is Err && final(rc).ports() == old(rc).ports(),
            }
        }),
{
    if requested > 0 {
        rc.allocate_tcp_port(requested)
    } else {
        rc.allocate_random_tcp_port()
    }
}

/// How the server runs a TCP proxy: its name, public port, whether its
/// clients share one multiplexed work connection, whether its work
/// connections are encrypted (stcp) and under which secret.
pub struct TcpProxySetup {
    pub name: String,
    pub remote_port: u16,
    pub tcp_mux: bool,
    pub stcp: bool,
    pub secret: String,
}

/// The outcome of allocating the public port for a request of
/// `requested`: the requested port when free and allowed; for 0, the next
/// free port of the dynamic scan, which moves the scan's position.
pub open spec fn port_outcome(
    old_rc: ResourceController,
    new_rc: ResourceController,
    requested: u16,
    r: Result<u16>,
) -> bool {
    &&& requested > 0 ==> new_rc.next_port() == old_rc.next_port() && (r is Ok <==> port_allowed(
        old_rc.ranges(),
        requested,
    ) && !old_rc.ports().contains_key(requested)) && (r is Ok ==> r == Ok::<u16, Error>(requested))
    &&& requested == 0 ==> ({
        let (chosen, next) = scan_ports(
            old_rc.next_port(),
            RANDOM_PORT_ATTEMPTS as nat,
            old_rc.ranges(),
            old_rc.ports().dom(),
        );
        &&& new_rc.next_port() == next
        &&& match chosen {
            Some(p) => r == Ok::<u16, Error>(p),
            None => r is Err,
        }
    })
    &&& r matches Ok(p) ==> new_rc.ports() == old_rc.ports().insert(p, Seq::empty())
    &&& r is Err ==> new_rc.ports() == old_rc.ports()
}

/// Sets up a TCP or stcp proxy. A TCP proxy gets its public port (see
/// `port_outcome`); an stcp proxy gets none (port 0, nothing allocated).
pub fn setup_tcp_proxy(msg: &NewProxyMsg, rc: &mut ResourceController) -> (r: Result<TcpProxySetup>)
    requires
        old(rc).wf(),
    ensures
        final(rc).wf(),
        final(rc).ranges() == old(rc).ranges(),
        r matches Ok(s) ==> ({
            &&& s.name@ == msg.proxy_name@
            &&& s.stcp == (msg.proxy_type@ == "stcp"@)
            &&& s.tcp_mux == (is_mux_multiplexer(msg.multiplexer@) && !s.stcp)
            &&& s.secret@ == msg.sk@
        }),
        msg.proxy_type@ == "stcp"@ ==> (r matches Ok(s) && s.remote_port == 0 && final(rc).ports()
            == old(rc).ports() && final(rc).next_port() == old(rc).next_port()),
        msg.proxy_type@ != "stcp"@ ==> port_outcome(
            *old(rc),
            *final(rc),
            msg.remote_port,
            match r {
                Ok(s) => Ok::<u16, Error>(s.remote_port),
                Err(e) => Err(e),
            },
        ),
{
    let stcp = str_eq(msg.proxy_type.as_str(), "stcp");
    let tcp_mux = uses_tcp_mux(msg.multiplexer.as_str(), stcp);
    if stcp {
        return Ok(TcpProxySetup {
            name: string_from(msg.proxy_name.as_str()),
            remote_port: 0,
            tcp_mux,
            stcp,
            secret: string_from(msg.sk.as_str()),
        });
    }
    let remote_port = match allocate_remote_port(rc, msg.remote_port) {
        Ok(p) => p,
        Err(e) => return Err(e),
    };
    Ok(TcpProxySetup {
        name: string_from(msg.proxy_name.as_str()),
        remote_port,
        tcp_mux,
        stcp,
        secret: string_from(msg.sk.as_str()),
    })
}

/// How the server runs a UDP proxy: its name, public port, and how its
/// datagrams are packed (compressed, encrypted, under which secret).
pub struct UdpProxySetup {
    pub name: String,
    pub remote_port: u16,
    pub use_compression: bool,
    pub use_encryption: bool,
    pub secret: String,
}

/// Sets up a UDP (or sudp) proxy: allocates its public port (see
/// `port_outcome`); sudp always encrypts.
pub fn setup_udp_proxy(msg: &NewProxyMsg, rc: &mut ResourceController) -> (r: Result<UdpProxySetup>)
    requires
        old(rc).wf(),
    ensures
        final(rc).wf(),
        final(rc).ranges() == old(rc).ranges(),
        r matches Ok(s) ==> ({
            &&& s.name@ == msg.proxy_name@
            &&& s.use_compression == msg.use_compression
            &&& s.use_encryption == (msg.use_encryption || msg.proxy_type@ == "sudp"@)
            &&& s.secret@ == msg.sk@
        }),
        port_outcome(
            *old(rc),
            *final(rc),
            msg.remote_port,
            match r {
                Ok(s) => Ok::<u16, Error>(s.remote_port),
                Err(e) => Err(e),
            },
        ),
{
    let force_secure = str_eq(msg.proxy_type.as_str(), "sudp");
    let remote_port = match allocate_remote_port(rc, msg.remote_port) {
        Ok(p) => p,
        Err(e) => return Err(e),
    };
    Ok(UdpProxySetup {
        name: string_from(msg.proxy_name.as_str()),
        remote_port,
        use_compression: msg.use_compression,
        use_encryption: msg.use_encryption || force_secure,
        secret: string_from(msg.sk.as_str()),
    })
}

/// The message that starts a work connection for a client of the proxy
/// listening on `remote_port`: no source address, the listen address as
/// destination, no error.
pub fn start_work_conn_for_port(proxy_name: &str, remote_port: u16) -> (m: StartWorkConnMsg)
    ensures
        m.proxy_name@ == proxy_name@,
        m.src_addr@.len() == 0,
        m.dst_addr@ == listen_addr_of(remote_port),
        m.error@.len() == 0,
{
    StartWorkConnMsg {
        proxy_name: string_from(proxy_name),
        src_addr: String::new(),
        dst_addr: remote_addr_for_port(remote_port),
        error: String::new(),
    }
}

/// The message that starts a work connection for a virtual-host request,
/// with the client's address and the address it reached.
pub fn start_work_conn_for_request(proxy_name: &str, src_addr: &str, dst_addr: &str) -> (m: StartWorkConnMsg)
    ensures
        m.proxy_name@ == proxy_name@,
        m.src_addr@ == src_addr@,
        m.dst_addr@ == dst_addr@,
        m.error@.len() == 0,
{
    StartWorkConnMsg {
        proxy_name: string_from(proxy_name),
        src_addr: string_from(src_addr),
        dst_addr: string_from(dst_addr),
        error: String::new(),
    }
}

} // verus!
