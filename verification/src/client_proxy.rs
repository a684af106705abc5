//! The client's side of its proxies: which handler serves a proxy type,
//! how a TCP proxy serves its work connections and watches the health of
//! its local service, and how UDP datagrams are packed for the tunnel.
use vstd::prelude::*;
use crate::text::{str_eq, string_from, cat3, decimal_string, decimal};
use crate::error::{Error, Result};
use crate::config::{ProxyConfig, HealthCheckConfig};
use crate::crypto::{Compressor, PacketCipher, gzip, sealed_under, empty_secret_message, AES_GCM_MAX_PLAINTEXT};
use crate::proxy_setup::{is_mux_multiplexer, uses_tcp_mux, UdpProxySetup};

verus! {

/// The handler that serves a proxy on the client.
#[derive(Clone, Copy, PartialEq, Eq, Structural, Debug)]
pub enum ClientProxyKind {
    Tcp,
    Udp,
    Xtcp,
}

/// tcp, stcp, http and https proxies are served as TCP; udp and sudp as
/// UDP; xtcp by hole punching.
pub open spec fn client_proxy_kind_of(t: Seq<char>) -> Option<ClientProxyKind> {
    if t == "tcp"@ || t == "stcp"@ || t == "http"@ || t == "https"@ {
        Some(ClientProxyKind::Tcp)
    } else if t == "udp"@ || t == "sudp"@ {
        Some(ClientProxyKind::Udp)
    } else if t == "xtcp"@ {
        Some(ClientProxyKind::Xtcp)
    } else {
        None
    }
}

pub fn client_proxy_kind(proxy_type: &str) -> (k: Option<ClientProxyKind>)
    ensures
        k == client_proxy_kind_of(proxy_type@),
{
    if str_eq(proxy_type, "tcp") || str_eq(proxy_type, "stcp") || str_eq(proxy_type, "http") || str_eq(
        proxy_type,
        "https",
    ) {
        Some(ClientProxyKind::Tcp)
    } else if str_eq(proxy_type, "udp") || str_eq(proxy_type, "sudp") {
        Some(ClientProxyKind::Udp)
    } else if str_eq(proxy_type, "xtcp") {
        Some(ClientProxyKind::Xtcp)
    } else {
        None
    }
}

/// How a TCP proxy serves a work connection: as a multiplexed tunnel of
/// streams, as an encrypted (stcp) relay, or as a plain byte copy.
#[derive(Clone, Copy, PartialEq, Eq, Structural, Debug)]
pub enum TcpMode {
    Mux,
    Plain,
}

/// The mode of a TCP proxy: stcp providers serve each work connection
/// plainly (the server checks their visitors' keys); others multiplex when
/// their multiplexer asks for it.
pub open spec fn tcp_mode_of(proxy_type: Seq<char>, multiplexer: Seq<char>) -> TcpMode {
    if proxy_type == "stcp"@ {
        TcpMode::Plain
    } else if is_mux_multiplexer(multiplexer) {
        TcpMode::Mux
    } else {
        TcpMode::Plain
    }
}

/// How long ago a health check last probed, in ms: before the first probe
/// the last one counts as an hour before the proxy was set up.
pub open spec fn since_last_probe(created_ms: u64, last_ms: Option<u64>, now_ms: u64) -> int {
    match last_ms {
        Some(l) => if now_ms >= l {
            now_ms - l
        } else {
            0
        },
        None => if now_ms >= created_ms {
            now_ms - created_ms + 3_600_000
        } else {
            3_600_000
        },
    }
}

/// The failure count after one more failed probe (wrapping as `u32`).
pub open spec fn bumped(f: u32) -> u32 {
    if f == u32::MAX {
        0
    } else {
        (f + 1) as u32
    }
}

/// The health of a TCP proxy's local service: whether it is checked, how
/// often and how patiently, and what the probes have found so far.
pub struct HealthCheck {
    enable: bool,
    timeout_secs: u64,
    interval_secs: u64,
    max_failed: u32,
    created_ms: u64,
    last_probe_ms: Option<u64>,
    failed: u32,
    healthy: bool,
}

impl HealthCheck {
    pub closed spec fn enabled(&self) -> bool {
        self.enable
    }

    pub closed spec fn timeout(&self) -> u64 {
        self.timeout_secs
    }

    pub closed spec fn interval(&self) -> u64 {
        self.interval_secs
    }

    pub closed spec fn threshold(&self) -> u32 {
        self.max_failed
    }

    pub closed spec fn created(&self) -> u64 {
        self.created_ms
    }

    pub closed spec fn last_probe(&self) -> Option<u64> {
        self.last_probe_ms
    }

    pub closed spec fn failures(&self) -> u32 {
        self.failed
    }

    pub closed spec fn is_healthy(&self) -> bool {
        self.healthy
    }

    /// A check set up at `now_ms`: at least a 2 s probe timeout, a 5 s
    /// interval and a threshold of one failure; healthy, never probed.
    pub fn new(cfg: &HealthCheckConfig, now_ms: u64) -> (h: Self)
        ensures
            h.enabled() == cfg.enable,
            h.timeout() == if cfg.timeout_seconds < 2 { 2 } else { cfg.timeout_seconds },
            h.interval() == if cfg.interval_seconds < 5 { 5 } else { cfg.interval_seconds },
            h.threshold() == if cfg.max_failed < 1 { 1 } else { cfg.max_failed },
            h.created() == now_ms,
            h.last_probe() is None,
            h.failures() == 0,
            h.is_healthy(),
    {
        HealthCheck {
            enable: cfg.enable,
            timeout_secs: if cfg.timeout_seconds < 2 { 2 } else { cfg.timeout_seconds },
            interval_secs: if cfg.interval_seconds < 5 { 5 } else { cfg.interval_seconds },
            max_failed: if cfg.max_failed < 1 { 1 } else { cfg.max_failed },
            created_ms: now_ms,
            last_probe_ms: None,
            failed: 0,
            healthy: true,
        }
    }

    /// The probe timeout, in seconds.
    pub fn timeout_secs(&self) -> (t: u64)
        ensures
            t == self.timeout(),
    {
        self.timeout_secs
    }

    /// The service may take work: checks are off, or it is healthy.
    pub fn is_available(&self) -> (b: bool)
        ensures
            b == (!self.enabled() || self.is_healthy()),
    {
        !self.enable || self.healthy
    }

    /// Whether a probe is due at `now_ms`; when it is, the probe time is
    /// recorded.
    pub fn probe_due(&mut self, now_ms: u64) -> (due: bool)
        ensures
            due == (old(self).enabled() && since_last_probe(old(self).created(), old(self).last_probe(), now_ms)
                >= old(self).interval() * 1000),
            final(self).last_probe() == if due {
                Some(now_ms)
            } else {
                old(self).last_probe()
            },
            final(self).enabled() == old(self).enabled(),
            final(self).timeout() == old(self).timeout(),
            final(self).interval() == old(self).interval(),
            final(self).threshold() == old(self).threshold(),
            final(self).created() == old(self).created(),
            final(self).failures() == old(self).failures(),
            final(self).is_healthy() == old(self).is_healthy(),
    {
        if !self.enable {
            return false;
        }
        let elapsed_secs: u64 = match self.last_probe_ms {
            Some(l) => if now_ms >= l {
                (now_ms - l) / 1000
            } else {
                0
            },
            None => if now_ms >= self.created_ms {
                (now_ms - self.created_ms) / 1000 + 3600
            } else {
                3600
            },
        };
        proof {
            let e = since_last_probe(self.created_ms, self.last_probe_ms, now_ms);
            assert(elapsed_secs == e / 1000);
            assert((e / 1000 >= self.interval_secs) == (e >= self.interval_secs * 1000)) by (nonlinear_arith)
                requires
                    e >= 0,
            ;
        }
        if elapsed_secs < self.interval_secs {
            return false;
        }
        self.last_probe_ms = Some(now_ms);
        true
    }

    /// Records a probe's result: a reachable service is healthy with no
    /// failures; an unreachable one counts a failure and turns unhealthy
    /// once the count reaches the threshold. Gives back the count.
    pub fn record_probe(&mut self, reachable: bool) -> (failed: u32)
        ensures
            final(self).enabled() == old(self).enabled(),
            final(self).timeout() == old(self).timeout(),
            final(self).interval() == old(self).interval(),
            final(self).threshold() == old(self).threshold(),
            final(self).created() == old(self).created(),
            final(self).last_probe() == old(self).last_probe(),
            reachable ==> failed == 0 && final(self).failures() == 0 && final(self).is_healthy(),
            !reachable ==> failed == bumped(old(self).failures()) && final(self).failures() == failed
                && final(self).is_healthy() == (old(self).is_healthy() && failed < old(self).threshold()),
    {
        if reachable {
            self.failed = 0;
            self.healthy = true;
            return 0;
        }
        let f = if self.failed == u32::MAX { 0 } else { self.failed + 1 };
        self.failed = f;
        if f >= self.max_failed {
            self.healthy = false;
        }
        f
    }
}

/// The client's handler of a TCP proxy: where its local service is, how it
/// serves work connections, and the health of that service.
pub struct TcpProxy {
    name: String,
    local_ip: String,
    local_port: u16,
    mode: TcpMode,
    secret: String,
    health: HealthCheck,
}

/// The address of a local service.
pub open spec fn local_addr_of(ip: Seq<char>, port: u16) -> Seq<char> {
    ip + ":"@ + decimal(port as nat)
}

/// Why a proxy refuses work while its local service is unhealthy.
pub open spec fn unhealthy_message(name: Seq<char>, addr: Seq<char>) -> Seq<char> {
    "proxy "@ + name + " local endpoint "@ + addr + " is unhealthy"@
}

/// Why a proxy refuses work after a failed probe turned it unhealthy.
pub open spec fn unhealthy_after_message(name: Seq<char>, addr: Seq<char>, failed: u32) -> Seq<char> {
    unhealthy_message(name, addr) + " (failed="@ + decimal(failed as nat) + ")"@
}

impl TcpProxy {
    pub closed spec fn name_text(&self) -> Seq<char> {
        self.name@
    }

    pub closed spec fn local_addr_text(&self) -> Seq<char> {
        local_addr_of(self.local_ip@, self.local_port)
    }

    pub closed spec fn mode_of(&self) -> TcpMode {
        self.mode
    }

    pub closed spec fn secret_text(&self) -> Seq<char> {
        self.secret@
    }

    pub closed spec fn health(&self) -> HealthCheck {
        self.health
    }

    /// The handler of the proxy `config`, set up at `now_ms`.
    pub fn new(config: &ProxyConfig, now_ms: u64) -> (p: Self)
        ensures
            p.name_text() == config.name@,
            p.local_addr_text() == local_addr_of(config.local_ip@, config.local_port),
            p.mode_of() == tcp_mode_of(config.proxy_type@, config.multiplexer@),
            p.secret_text() == config.sk@,
            p.health().enabled() == config.health_check.enable,
            p.health().timeout() == if config.health_check.timeout_seconds < 2 {
                2
            } else {
                config.health_check.timeout_seconds
            },
            p.health().interval() == if config.health_check.interval_seconds < 5 {
                5
            } else {
                config.health_check.interval_seconds
            },
            p.health().threshold() == if config.health_check.max_failed < 1 {
                1
            } else {
                config.health_check.max_failed
            },
            p.health().created() == now_ms,
            p.health().last_probe() is None,
            p.health().failures() == 0,
            p.health().is_healthy(),
    {
        let stcp = str_eq(config.proxy_type.as_str(), "stcp");
        let mode = if stcp {
            TcpMode::Plain
        } else if uses_tcp_mux(config.multiplexer.as_str(), stcp) {
            TcpMode::Mux
        } else {
            TcpMode::Plain
        };
        TcpProxy {
            name: string_from(config.name.as_str()),
            local_ip: string_from(config.local_ip.as_str()),
            local_port: config.local_port,
            mode,
            secret: string_from(config.sk.as_str()),
            health: HealthCheck::new(&config.health_check, now_ms),
        }
    }

    pub fn name(&self) -> (s: &str)
        ensures
            s@ == self.name_text(),
    {
        self.name.as_str()
    }

    pub fn mode(&self) -> (m: TcpMode)
        ensures
            m == self.mode_of(),
    {
        self.mode
    }

    pub fn secret(&self) -> (s: &str)
        ensures
            s@ == self.secret_text(),
    {
        self.secret.as_str()
    }

    /// The `ip:port` of the local service.
    pub fn local_addr(&self) -> (s: String)
        ensures
            s@ == self.local_addr_text(),
    {
        let p = decimal_string(self.local_port as u64);
        cat3(self.local_ip.as_str(), ":", p.as_str())
    }

    /// The probe timeout of the health check, in seconds.
    pub fn health_timeout_secs(&self) -> (t: u64)
        ensures
            t == self.health().timeout(),
    {
        self.health.timeout_secs()
    }

    /// The proxy may take work (see `HealthCheck::is_available`).
    pub fn is_available(&self) -> (b: bool)
        ensures
            b == (!self.health().enabled() || self.health().is_healthy()),
    {
        self.health.is_available()
    }

    /// The first half of the health check before a work connection is
    /// served at `now_ms`: `Ok(true)` when a probe of the local service is
    /// due (its time is recorded), `Ok(false)` when work may go ahead
    /// without one, and an error when the service is known unhealthy and
    /// no probe is due.
    pub fn begin_health_check(&mut self, now_ms: u64) -> (r: Result<bool>)
        ensures
            final(self).name_text() == old(self).name_text(),
            final(self).local_addr_text() == old(self).local_addr_text(),
            final(self).mode_of() == old(self).mode_of(),
            final(self).secret_text() == old(self).secret_text(),
            ({
                let h = old(self).health();
                let due = h.enabled() && since_last_probe(h.created(), h.last_probe(), now_ms) >= h.interval() * 1000;
                &&& final(self).health().last_probe() == (if due {
                    Some(now_ms)
                } else {
                    h.last_probe()
                })
                &&& final(self).health().enabled() == h.enabled()
                &&& final(self).health().timeout() == h.timeout()
                &&& final(self).health().interval() == h.interval()
                &&& final(self).health().threshold() == h.threshold()
                &&& final(self).health().created() == h.created()
                &&& final(self).health().failures() == h.failures()
                &&& final(self).health().is_healthy() == h.is_healthy()
                &&& due ==> r == Ok::<bool, Error>(true)
                &&& !due && (!h.enabled() || h.is_healthy()) ==> r == Ok::<bool, Error>(false)
                &&& !due && h.enabled() && !h.is_healthy() ==> (r matches Err(e) && e matches Error::Proxy(m)
                    && m@ == unhealthy_message(old(self).name_text(), old(self).local_addr_text()))
            }),
    {
        if self.health.probe_due(now_ms) {
            return Ok(true);
        }
        if self.health.is_available() {
            return Ok(false);
        }
        let addr = self.local_addr();
        let m = cat3("proxy ", self.name.as_str(), " local endpoint ");
        let m = cat3(m.as_str(), addr.as_str(), " is unhealthy");
        Err(Error::Proxy(m))
    }

    /// The second half of the health check: the probe's result. An
    /// unreachable service that is (now) unhealthy refuses the work.
    pub fn finish_health_check(&mut self, reachable: bool) -> (r: Result<()>)
        ensures
            final(self).name_text() == old(self).name_text(),
            final(self).local_addr_text() == old(self).local_addr_text(),
            final(self).mode_of() == old(self).mode_of(),
            final(self).secret_text() == old(self).secret_text(),
            final(self).health().enabled() == old(self).health().enabled(),
            final(self).health().last_probe() == old(self).health().last_probe(),
            final(self).health().timeout() == old(self).health().timeout(),
            final(self).health().interval() == old(self).health().interval(),
            final(self).health().threshold() == old(self).health().threshold(),
            final(self).health().created() == old(self).health().created(),
            reachable ==> r is Ok && final(self).health().is_healthy() && final(self).health().failures() == 0,
            !reachable ==> ({
                let f = bumped(old(self).health().failures());
                &&& final(self).health().failures() == f
                &&& final(self).health().is_healthy() == (old(self).health().is_healthy() && f < old(
                    self,
                ).health().threshold())
                &&& final(self).health().is_healthy() ==> r is Ok
                &&& !final(self).health().is_healthy() ==> (r matches Err(e) && e matches Error::Proxy(m)
                    && m@ == unhealthy_after_message(old(self).name_text(), old(self).local_addr_text(), f))
            }),
    {
        let failed = self.health.record_probe(reachable);
        if reachable || self.health.healthy {
            return Ok(());
        }
        let addr = self.local_addr();
        let m = cat3("proxy ", self.name.as_str(), " local endpoint ");
        let m = cat3(m.as_str(), addr.as_str(), " is unhealthy (failed=");
        let m = cat3(m.as_str(), decimal_string(failed as u64).as_str(), ")");
        proof {
            reveal_strlit(" is unhealthy (failed=");
            reveal_strlit(" is unhealthy");
            reveal_strlit(" (failed=");
            assert(" is unhealthy (failed="@ =~= " is unhealthy"@ + " (failed="@);
        }
        Err(Error::Proxy(m))
    }
}


/// The data a datagram carries before encryption: compressed when the
/// proxy compresses.
pub open spec fn packed_form(compress: bool, p: Seq<u8>) -> Seq<u8> {
    if compress {
        gzip(p)
    } else {
        p
    }
}

/// `s` is what the tunnel carries for the datagram `p` under these
/// settings: its packed form, sealed under the secret when the proxy
/// encrypts (which needs a secret and a form of at most the cipher's
/// limit).
pub open spec fn packs(compress: bool, encrypt: bool, secret: Seq<char>, p: Seq<u8>, s: Seq<u8>) -> bool {
    let c = packed_form(compress, p);
    if encrypt {
        secret.len() > 0 && c.len() <= AES_GCM_MAX_PLAINTEXT && sealed_under(secret, c, s)
    } else {
        s == c
    }
}

/// How the datagrams of a UDP proxy travel through its tunnel: compressed
/// first if it compresses, then encrypted if it encrypts. Both ends of the
/// tunnel pack with the same settings.
pub struct UdpPacketCodec {
    pub use_compression: bool,
    pub use_encryption: bool,
    pub secret: String,
}

impl UdpPacketCodec {
    /// The codec of the client's UDP proxy `config`; sudp always encrypts.
    pub fn for_proxy(config: &ProxyConfig) -> (c: Self)
        ensures
            c.use_compression == config.use_compression,
            c.use_encryption == (config.use_encryption || config.proxy_type@ == "sudp"@),
            c.secret@ == config.sk@,
    {
        let force_secure = str_eq(config.proxy_type.as_str(), "sudp");
        UdpPacketCodec {
            use_compression: config.use_compression,
            use_encryption: config.use_encryption || force_secure,
            secret: string_from(config.sk.as_str()),
        }
    }

    /// The codec of a UDP proxy the server set up.
    pub fn for_server(setup: &UdpProxySetup) -> (c: Self)
        ensures
            c.use_compression == setup.use_compression,
            c.use_encryption == setup.use_encryption,
            c.secret@ == setup.secret@,
    {
        UdpPacketCodec {
            use_compression: setup.use_compression,
            use_encryption: setup.use_encryption,
            secret: string_from(setup.secret.as_str()),
        }
    }

    /// Packs a datagram for the tunnel.
    pub fn seal(&self, packet: &[u8]) -> (r: Result<Vec<u8>>)
        ensures
            r matches Ok(s) ==> packs(self.use_compression, self.use_encryption, self.secret@, packet@, s@),
            self.use_encryption && self.secret@.len() == 0 ==> (r matches Err(e) && e matches Error::Transport(m)
                && m@ == empty_secret_message()),
            r is Ok <==> (!self.use_encryption || (self.secret@.len() > 0 && packed_form(
                self.use_compression,
                packet@,
            ).len() <= AES_GCM_MAX_PLAINTEXT)),
    {
        let mut data: Vec<u8> = Vec::new();
        let mut i: usize = 0;
        while i < packet.len()
            invariant
                i <= packet@.len(),
                data@ =~= packet@.take(i as int),
            decreases packet@.len() - i,
        {
            data.push(packet[i]);
            i = i + 1;
        }
        assert(data@ =~= packet@);
        if self.use_compression {
            data = match Compressor::compress(data.as_slice()) {
                Ok(v) => v,
                Err(e) => return Err(e),
            };
        }
        if self.use_encryption {
            data = match PacketCipher::encrypt(data.as_slice(), self.secret.as_str()) {
                Ok(v) => v,
                Err(e) => return Err(e),
            };
        }
        Ok(data)
    }

    /// Unpacks a datagram from the tunnel: decrypted if the proxy
    /// encrypts, then decompressed if it compresses. What `seal` packed
    /// under the same settings comes back as it was.
    pub fn open(&self, data: &[u8]) -> (r: Result<Vec<u8>>)
        ensures
            forall|p: Seq<u8>|
                #[trigger] packs(self.use_compression, self.use_encryption, self.secret@, p, data@) ==> (r matches Ok(
                    v,
                ) && v@ == p),
            self.use_encryption && self.secret@.len() == 0 ==> (r matches Err(e) && e matches Error::Transport(m)
                && m@ == empty_secret_message()),
            !self.use_compression && !self.use_encryption ==> (r matches Ok(v) && v@ == data@),
    {
        let mut out: Vec<u8> = Vec::new();
        let mut i: usize = 0;
        while i < data.len()
            invariant
                i <= data@.len(),
                out@ =~= data@.take(i as int),
            decreases data@.len() - i,
        {
            out.push(data[i]);
            i = i + 1;
        }
        assert(out@ =~= data@);
        if self.use_encryption {
            out = match PacketCipher::decrypt(out.as_slice(), self.secret.as_str()) {
                Ok(v) => v,
                Err(e) => return Err(e),
            };
        }
        if self.use_compression {
            out = match Compressor::decompress(out.as_slice()) {
                Ok(v) => v,
                Err(e) => return Err(e),
            };
        }
        Ok(out)
    }
}


/// How many punch datagrams an xtcp proxy sends towards a visitor.
pub const XTCP_PUNCH_COUNT: u32 = 5;

/// How long an xtcp proxy waits for its peer, in seconds.
pub const XTCP_ACCEPT_TIMEOUT_SECS: u64 = 20;

/// The client's handler of an xtcp proxy: the local service that peers
/// reached by hole punching are connected to.
pub struct XtcpProxy {
    name: String,
    local_ip: String,
    local_port: u16,
}

impl XtcpProxy {
    pub closed spec fn name_text(&self) -> Seq<char> {
        self.name@
    }

    pub closed spec fn local_addr_text(&self) -> Seq<char> {
        local_addr_of(self.local_ip@, self.local_port)
    }

    pub fn new(config: &ProxyConfig) -> (p: Self)
        ensures
            p.name_text() == config.name@,
            p.local_addr_text() == local_addr_of(config.local_ip@, config.local_port),
    {
        XtcpProxy {
            name: string_from(config.name.as_str()),
            local_ip: string_from(config.local_ip.as_str()),
            local_port: config.local_port,
        }
    }

    pub fn name(&self) -> (s: &str)
        ensures
            s@ == self.name_text(),
    {
        self.name.as_str()
    }

    /// The `ip:port` of the local service.
    pub fn local_target(&self) -> (s: String)
        ensures
            s@ == self.local_addr_text(),
    {
        let p = decimal_string(self.local_port as u64);
        cat3(self.local_ip.as_str(), ":", p.as_str())
    }

    /// An xtcp proxy takes no work connection from the server: its peers
    /// come by hole punching.
    pub fn refuse_work_conn(&self) -> (e: Error)
        ensures
            e matches Error::Proxy(m) && m@ == "xtcp does not handle server work connection directly"@,
    {
        Error::Proxy(String::from_str("xtcp does not handle server work connection directly"))
    }
}

} // verus!
