//! Allocation of the server's public TCP ports.
use vstd::prelude::*;
use dashmap::DashMap;
use crate::config::{PortRange, ServerConfig};
use crate::error::{Error, Result};
use crate::text::{decimal, decimal_string, cat3};

verus! {

/// A table of allocated ports, each with its owner's name.
pub type PortTable = DashMap<u16, String>;

/// The ports that a port table holds, each with its owner's name.
pub uninterp spec fn port_table(m: PortTable) -> Map<u16, Seq<char>>;

/// `DashMap::new`: an empty table.
#[verifier::external_body]
fn port_table_new() -> (m: PortTable)
    ensures
        port_table(m).dom() == Set::<u16>::empty(),
{
    DashMap::new()
}

/// `DashMap::contains_key`: the table holds `port`.
#[verifier::external_body]
fn port_table_contains(m: &PortTable, port: u16) -> (b: bool)
    ensures
        b == port_table(*m).contains_key(port),
{
    m.contains_key(&port)
}

/// `DashMap::insert`: `port` now maps to `owner`, whatever it held before.
#[verifier::external_body]
fn port_table_insert(m: &mut PortTable, port: u16, owner: String)
    ensures
        port_table(*final(m)) == port_table(*old(m)).insert(port, owner@),
{
    m.insert(port, owner);
}

/// `DashMap::remove`: `port` is no longer in the table.
#[verifier::external_body]
fn port_table_remove(m: &mut PortTable, port: u16)
    ensures
        port_table(*final(m)) == port_table(*old(m)).remove(port),
{
    m.remove(&port);
}

/// The first dynamic port tried, and the one the scan restarts from.
pub const FIRST_DYNAMIC_PORT: u16 = 10000;

/// How many candidates a random allocation tries before it gives up.
pub const RANDOM_PORT_ATTEMPTS: u32 = 1000;

/// The inclusive ranges that one configured `PortRange` stands for: a
/// single port when `single` is set, else `start..=end`.
pub open spec fn range_of(r: PortRange) -> (u16, u16) {
    if r.single > 0 {
        (r.single, r.single)
    } else {
        (r.start, r.end)
    }
}

/// The allowed ranges for a server's configuration: the configured ones, or
/// `10000..=65535` when none is configured.
pub open spec fn allowed_ranges(cfg: Seq<PortRange>) -> Seq<(u16, u16)> {
    if cfg.len() == 0 {
        seq![(10000u16, 65535u16)]
    } else {
        cfg.map_values(|r: PortRange| range_of(r))
    }
}

/// `port` lies in the inclusive range `r`.
pub open spec fn in_range(r: (u16, u16), port: u16) -> bool {
    r.0 <= port <= r.1
}

/// `port` lies in one of `ranges`.
pub open spec fn port_allowed(ranges: Seq<(u16, u16)>, port: u16) -> bool {
    exists|i: int| 0 <= i < ranges.len() && #[trigger] in_range(ranges[i], port)
}

/// The scan of a random allocation: from `next`, up to `k` candidates, each
/// taken in turn (65535 restarts the scan at 10000); the first that is
/// allowed and free is chosen. Gives the chosen port and the next candidate.
pub open spec fn scan_ports(next: u16, k: nat, ranges: Seq<(u16, u16)>, taken: Set<u16>) -> (
    Option<u16>,
    u16,
)
    decreases k,
{
    if k == 0 {
        (None, next)
    } else if next >= 65535 {
        scan_ports(FIRST_DYNAMIC_PORT, (k - 1) as nat, ranges, taken)
    } else if port_allowed(ranges, next) && !taken.contains(next) {
        (Some(next), (next + 1) as u16)
    } else {
        scan_ports((next + 1) as u16, (k - 1) as nat, ranges, taken)
    }
}

/// The error text for a port outside the allowed ranges.
pub open spec fn not_allowed_message(port: u16) -> Seq<char> {
    "Port "@ + decimal(port as nat) + " is not in allowed range"@
}

/// The error text for a port that is already allocated.
pub open spec fn taken_message(port: u16) -> Seq<char> {
    "Port "@ + decimal(port as nat) + " is already allocated"@
}

/// Hands out the public TCP ports of proxies, within the allowed ranges.
#[derive(Debug)]
pub struct ResourceController {
    tcp_ports: PortTable,
    next_dynamic_port: u16,
    allow_ports: Vec<(u16, u16)>,
}

impl ResourceController {
    /// The allocated ports, each with its owner.
    pub closed spec fn ports(&self) -> Map<u16, Seq<char>> {
        port_table(self.tcp_ports)
    }

    /// The next candidate of a random allocation.
    pub closed spec fn next_port(&self) -> u16 {
        self.next_dynamic_port
    }

    /// The allowed ranges.
    pub closed spec fn ranges(&self) -> Seq<(u16, u16)> {
        self.allow_ports@
    }

    /// Every allocated port is allowed.
    pub open spec fn wf(&self) -> bool {
        forall|p: u16| #[trigger] self.ports().contains_key(p) ==> port_allowed(self.ranges(), p)
    }

    /// A controller with no port allocated, whose allowed ranges come from
    /// the configuration.
    pub fn new(config: &ServerConfig) -> (rc: Self)
        ensures
            rc.wf(),
            rc.ports().dom() == Set::<u16>::empty(),
            rc.next_port() == FIRST_DYNAMIC_PORT,
            rc.ranges() == allowed_ranges(config.allow_ports@),
    {
        let mut allow_ports: Vec<(u16, u16)> = Vec::new();
        if config.allow_ports.len() == 0 {
            allow_ports.push((10000, 65535));
        } else {
            let mut i: usize = 0;
            while i < config.allow_ports.len()
                invariant
                    i <= config.allow_ports.len(),
                    allow_ports@ == config.allow_ports@.take(i as int).map_values(
                        |r: PortRange| range_of(r),
                    ),
                decreases config.allow_ports.len() - i,
            {
                let r = config.allow_ports[i];
                let pair = if r.single > 0 {
                    (r.single, r.single)
                } else {
                    (r.start, r.end)
                };
                allow_ports.push(pair);
                assert(config.allow_ports@.take(i + 1) =~= config.allow_ports@.take(i as int).push(
                    r,
                ));
                i = i + 1;
                assert(allow_ports@ =~= config.allow_ports@.take(i as int).map_values(
                    |r: PortRange| range_of(r),
                ));
            }
            assert(config.allow_ports@.take(i as int) =~= config.allow_ports@);
        }
        assert(allow_ports@ =~= allowed_ranges(config.allow_ports@));
        ResourceController {
            tcp_ports: port_table_new(),
            next_dynamic_port: FIRST_DYNAMIC_PORT,
            allow_ports,
        }
    }

    fn is_port_allowed(&self, port: u16) -> (b: bool)
        ensures
            b == port_allowed(self.ranges(), port),
    {
        let mut i: usize = 0;
        while i < self.allow_ports.len()
            invariant
                i <= self.allow_ports.len(),
                forall|k: int| 0 <= k < i ==> !#[trigger] in_range(self.allow_ports@[k], port),
            decreases self.allow_ports.len() - i,
        {
            let (start, end) = self.allow_ports[i];
            if port >= start && port <= end {
                assert(in_range(self.allow_ports@[i as int], port));
                return true;
            }
            i = i + 1;
        }
        false
    }

    /// Allocates `port` with no owner. Fails when it is outside the allowed
    /// ranges or already allocated.
    pub fn allocate_tcp_port(&mut self, port: u16) -> (r: Result<u16>)
        requires
            old(self).wf(),
        ensures
            final(self).wf(),
            final(self).ranges() == old(self).ranges(),
            final(self).next_port() == old(self).next_port(),
            r is Ok <==> port_allowed(old(self).ranges(), port) && !old(self).ports().contains_key(
                port,
            ),
            r is Ok ==> r == Ok::<u16, Error>(port) && final(self).ports() == old(self).ports().insert(
                port,
                Seq::empty(),
            ),
            r is Err ==> final(self).ports() == old(self).ports(),
            r matches Err(e) ==> (e matches Error::Proxy(m) && m@ == if !port_allowed(
                old(self).ranges(),
                port,
            ) {
                not_allowed_message(port)
            } else {
                taken_message(port)
            }),
    {
        if !self.is_port_allowed(port) {
            let m = cat3("Port ", decimal_string(port as u64).as_str(), " is not in allowed range");
            return Err(Error::Proxy(m));
        }
        if port_table_contains(&self.tcp_ports, port) {
            let m = cat3("Port ", decimal_string(port as u64).as_str(), " is already allocated");
            return Err(Error::Proxy(m));
        }
        port_table_insert(&mut self.tcp_ports, port, String::new());
        proof {
            assert forall|p: u16| #[trigger] self.ports().contains_key(p) implies port_allowed(
                self.ranges(),
                p,
            ) by {
                if p != port {
                    assert(old(self).ports().contains_key(p));
                }
            }
        }
        Ok(port)
    }

    /// Allocates the next free allowed port of the dynamic scan (see
    /// `scan_ports`), trying at most 1000 candidates.
    pub fn allocate_random_tcp_port(&mut self) -> (r: Result<u16>)
        requires
            old(self).wf(),
        ensures
            final(self).wf(),
            final(self).ranges() == old(self).ranges(),
            ({
                let (chosen, next) = scan_ports(
                    old(self).next_port(),
                    RANDOM_PORT_ATTEMPTS as nat,
                    old(self).ranges(),
                    old(self).ports().dom(),
                );
                &&& final(self).next_port() == next
                &&& match chosen {
                    Some(p) => r == Ok::<u16, Error>(p) && final(self).ports() == old(
                        self,
                    ).ports().insert(p, Seq::empty()),
                    None => final(self).ports() == old(self).ports() && (r matches Err(e) && e matches Error::Proxy(m) && m@ == "Failed to allocate random port after 1000 attempts"@),
                }
            }),
            r matches Ok(p) ==> port_allowed(old(self).ranges(), p) && !old(self).ports().contains_key(p),
    {
        let ghost taken = self.ports().dom();
        proof {
            law_scan_picks_allowed_free_port(
                self.next_port(),
                RANDOM_PORT_ATTEMPTS as nat,
                self.ranges(),
                taken,
            );
        }
        let mut attempt: u32 = 0;
        while attempt < RANDOM_PORT_ATTEMPTS
            invariant
                attempt <= RANDOM_PORT_ATTEMPTS,
                self.wf(),
                self.ports() == old(self).ports(),
                self.ranges() == old(self).ranges(),
                taken == old(self).ports().dom(),
                scan_ports(old(self).next_port(), RANDOM_PORT_ATTEMPTS as nat, self.ranges(), taken)
                    == scan_ports(
                    self.next_port(),
                    (RANDOM_PORT_ATTEMPTS - attempt) as nat,
                    self.ranges(),
                    taken,
                ),
            decreases RANDOM_PORT_ATTEMPTS - attempt,
        {
            let port = self.next_dynamic_port;
            attempt = attempt + 1;
            if port >= 65535 {
                self.next_dynamic_port = FIRST_DYNAMIC_PORT;
                continue;
            }
            self.next_dynamic_port = port + 1;
            if self.is_port_allowed(port) && !port_table_contains(&self.tcp_ports, port) {
                port_table_insert(&mut self.tcp_ports, port, String::new());
                proof {
                    assert forall|p: u16| #[trigger] self.ports().contains_key(p) implies port_allowed(
                        self.ranges(),
                        p,
                    ) by {
                        if p != port {
                            assert(old(self).ports().contains_key(p));
                        }
                    }
                }
                assert(scan_ports(port, (RANDOM_PORT_ATTEMPTS - attempt + 1) as nat, self.ranges(), taken)
                    == (Some(port), (port + 1) as u16));
                return Ok(port);
            }
        }
        let m = String::from_str("Failed to allocate random port after 1000 attempts");
        Err(Error::Proxy(m))
    }

    /// Releases `port`; releasing a port that is not allocated is no error.
    pub fn release_tcp_port(&mut self, port: u16) -> (r: Result<()>)
        requires
            old(self).wf(),
        ensures
            final(self).wf(),
            r is Ok,
            final(self).ports() == old(self).ports().remove(port),
            final(self).ranges() == old(self).ranges(),
            final(self).next_port() == old(self).next_port(),
    {
        port_table_remove(&mut self.tcp_ports, port);
        proof {
            assert forall|p: u16| #[trigger] self.ports().contains_key(p) implies port_allowed(
                self.ranges(),
                p,
            ) by {
                assert(old(self).ports().contains_key(p));
            }
        }
        Ok(())
    }
}

/// Law: releasing a port that was free before it was allocated gives back
/// the table as it was.
pub proof fn law_allocate_release(before: Map<u16, Seq<char>>, port: u16)
    requires
        !before.contains_key(port),
    ensures
        before.insert(port, Seq::empty()).remove(port) == before,
{
    assert(before.insert(port, Seq::empty()).remove(port) =~= before);
}

/// Law: a port that the random scan chooses lies in an allowed range and
/// was not allocated before, whatever the starting candidate, the number of
/// attempts, the ranges and the allocated ports.
pub proof fn law_scan_picks_allowed_free_port(next: u16, k: nat, ranges: Seq<(u16, u16)>, taken: Set<u16>)
    ensures
        scan_ports(next, k, ranges, taken).0 matches Some(p) ==> port_allowed(ranges, p)
            && !taken.contains(p),
    decreases k,
{
    if k > 0 {
        if next >= 65535 {
            law_scan_picks_allowed_free_port(FIRST_DYNAMIC_PORT, (k - 1) as nat, ranges, taken);
        } else if !(port_allowed(ranges, next) && !taken.contains(next)) {
            law_scan_picks_allowed_free_port((next + 1) as u16, (k - 1) as nat, ranges, taken);
        }
    }
}

/// Law: when the scan's current candidate is below 65535, allowed and free,
/// the scan chooses it.
pub proof fn law_scan_takes_free_candidate(next: u16, k: nat, ranges: Seq<(u16, u16)>, taken: Set<u16>)
    requires
        k > 0,
        next < 65535,
        port_allowed(ranges, next),
        !taken.contains(next),
    ensures
        scan_ports(next, k, ranges, taken).0 == Some(next),
{
}

} // verus!
