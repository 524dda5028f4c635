//! Socket addresses as plain values, and the normalisation that turns an
//! IPv4-mapped IPv6 peer address into its canonical IPv4 form.
use vstd::prelude::*;

verus! {

/// Number of distinct values of the low 32 bits of an IPv6 address.
pub const LOW_WORD: u128 = 0x1_0000_0000;

/// The 16-bit marker that an IPv4-mapped IPv6 address holds above its IPv4 part.
pub const MAPPED_MARKER: u128 = 0xffff;

/// An IP address. An IPv4 address is its 32 bits read big-endian, an IPv6
/// address its 128 bits read big-endian.
#[derive(Clone, Copy, Debug, PartialEq, Eq, Structural)]
pub enum IpAddress {
    V4(u32),
    V6(u128),
}

/// The IPv4 address that an IPv6 address maps, if it has the form
/// `::ffff:a.b.c.d`.
pub open spec fn spec_mapped_v4(x: u128) -> Option<u32> {
    if x as int / LOW_WORD as int == MAPPED_MARKER as int {
        Some((x as int % LOW_WORD as int) as u32)
    } else {
        None
    }
}

/// The canonical form of an address: an IPv4-mapped IPv6 address becomes the
/// IPv4 address it maps; every other address stays as it is.
pub open spec fn spec_canonical_ip(ip: IpAddress) -> IpAddress {
    match ip {
        IpAddress::V4(a) => IpAddress::V4(a),
        IpAddress::V6(x) => match spec_mapped_v4(x) {
            Some(a) => IpAddress::V4(a),
            None => IpAddress::V6(x),
        },
    }
}

/// The IPv4 address that an IPv6 address maps, if it has the form `::ffff:a.b.c.d`.
pub fn ipv6_to_ipv4_mapped(x: u128) -> (r: Option<u32>)
    ensures
        r == spec_mapped_v4(x),
{
    let high: u128 = x >> 32u128;
    let low: u32 = x as u32;
    proof {
        assert(high == x / 0x1_0000_0000u128) by (bit_vector)
            requires high == x >> 32u128;
        assert(low as u128 == x % 0x1_0000_0000u128) by (bit_vector)
            requires low == x as u32;
    }
    if high == MAPPED_MARKER {
        Some(low)
    } else {
        None
    }
}

impl IpAddress {
    /// Whether this is an IPv4 address.
    pub fn is_ipv4(&self) -> (r: bool)
        ensures
            r == (*self is V4),
    {
        match self {
            IpAddress::V4(_) => true,
            IpAddress::V6(_) => false,
        }
    }

    /// Whether this is an IPv6 address.
    pub fn is_ipv6(&self) -> (r: bool)
        ensures
            r == (*self is V6),
    {
        match self {
            IpAddress::V4(_) => false,
            IpAddress::V6(_) => true,
        }
    }

    /// The canonical form of this address: an IPv4-mapped IPv6 address becomes
    /// the IPv4 address it maps, any other address is returned unchanged.
    pub fn to_canonical(&self) -> (r: IpAddress)
        ensures
            r == spec_canonical_ip(*self),
    {
        match self {
            IpAddress::V4(a) => IpAddress::V4(*a),
            IpAddress::V6(x) => match ipv6_to_ipv4_mapped(*x) {
                Some(a) => IpAddress::V4(a),
                None => IpAddress::V6(*x),
            },
        }
    }
}

/// A socket address: an IP address and a port, and for IPv6 the flow label
/// and scope identifier as well.
#[derive(Clone, Copy, Debug, PartialEq, Eq, Structural)]
pub enum SocketAddress {
    V4 { ip: u32, port: u16 },
    V6 { ip: u128, port: u16, flowinfo: u32, scope_id: u32 },
}

impl SocketAddress {
    pub open spec fn spec_ip(self) -> IpAddress {
        match self {
            SocketAddress::V4 { ip, .. } => IpAddress::V4(ip),
            SocketAddress::V6 { ip, .. } => IpAddress::V6(ip),
        }
    }

    pub open spec fn spec_port(self) -> u16 {
        match self {
            SocketAddress::V4 { port, .. } => port,
            SocketAddress::V6 { port, .. } => port,
        }
    }

    /// The address with its IP replaced by `ip`. Within one family the other
    /// fields are kept; across families the result holds `ip` and the port,
    /// with a zero flow label and scope identifier for IPv6.
    pub open spec fn spec_with_ip(self, ip: IpAddress) -> SocketAddress {
        match (self, ip) {
            (SocketAddress::V4 { port, .. }, IpAddress::V4(a)) => SocketAddress::V4 { ip: a, port },
            (SocketAddress::V6 { port, flowinfo, scope_id, .. }, IpAddress::V6(x)) =>
                SocketAddress::V6 { ip: x, port, flowinfo, scope_id },
            (_, IpAddress::V4(a)) => SocketAddress::V4 { ip: a, port: self.spec_port() },
            (_, IpAddress::V6(x)) => SocketAddress::V6 {
                ip: x,
                port: self.spec_port(),
                flowinfo: 0,
                scope_id: 0,
            },
        }
    }

    /// A socket address from an IP address and a port.
    pub fn new(ip: IpAddress, port: u16) -> (r: SocketAddress)
        ensures
            r.spec_ip() == ip,
            r.spec_port() == port,
            r is V6 ==> r->flowinfo == 0 && r->scope_id == 0,
    {
        match ip {
            IpAddress::V4(a) => SocketAddress::V4 { ip: a, port },
            IpAddress::V6(x) => SocketAddress::V6 { ip: x, port, flowinfo: 0, scope_id: 0 },
        }
    }

    /// The IP address.
    pub fn ip(&self) -> (r: IpAddress)
        ensures
            r == self.spec_ip(),
    {
        match self {
            SocketAddress::V4 { ip, .. } => IpAddress::V4(*ip),
            SocketAddress::V6 { ip, .. } => IpAddress::V6(*ip),
        }
    }

    /// The port.
    pub fn port(&self) -> (r: u16)
        ensures
            r == self.spec_port(),
    {
        match self {
            SocketAddress::V4 { port, .. } => *port,
            SocketAddress::V6 { port, .. } => *port,
        }
    }

    /// Whether the IP address is an IPv4 address.
    pub fn is_ipv4(&self) -> (r: bool)
        ensures
            r == (*self is V4),
    {
        match self {
            SocketAddress::V4 { .. } => true,
            SocketAddress::V6 { .. } => false,
        }
    }

    /// Whether the IP address is an IPv6 address.
    pub fn is_ipv6(&self) -> (r: bool)
        ensures
            r == (*self is V6),
    {
        match self {
            SocketAddress::V4 { .. } => false,
            SocketAddress::V6 { .. } => true,
        }
    }

    /// Replaces the IP address, keeping the port (and, within IPv6, the flow
    /// label and scope identifier).
    pub fn set_ip(&mut self, new_ip: IpAddress)
        ensures
            *final(self) == old(self).spec_with_ip(new_ip),
    {
        let port = self.port();
        match (&*self, new_ip) {
            (SocketAddress::V4 { .. }, IpAddress::V4(a)) => {
                *self = SocketAddress::V4 { ip: a, port };
            },
            (SocketAddress::V6 { flowinfo, scope_id, .. }, IpAddress::V6(x)) => {
                let (f, s) = (*flowinfo, *scope_id);
                *self = SocketAddress::V6 { ip: x, port, flowinfo: f, scope_id: s };
            },
            (_, ip) => {
                *self = SocketAddress::new(ip, port);
            },
        }
    }
}

/// The address under which a peer is known: its IP in canonical form, with
/// the rest of the address kept as `set_ip` keeps it.
pub open spec fn spec_peer_address(addr: SocketAddress) -> SocketAddress {
    addr.spec_with_ip(spec_canonical_ip(addr.spec_ip()))
}

/// Normalising twice gives what normalising once gives.
pub proof fn lemma_canonical_idempotent(addr: SocketAddress)
    ensures
        spec_peer_address(spec_peer_address(addr)) == spec_peer_address(addr),
        spec_canonical_ip(spec_canonical_ip(addr.spec_ip())) == spec_canonical_ip(addr.spec_ip()),
{
}

/// Normalises the remote address of an accepted connection, so that one peer
/// has one identity whether it came over IPv4 or over an IPv4-mapped IPv6
/// address.
pub fn normalize_remote_address(addr: SocketAddress) -> (r: SocketAddress)
    ensures
        r == spec_peer_address(addr),
        r.spec_port() == addr.spec_port(),
        r.spec_ip() == spec_canonical_ip(addr.spec_ip()),
{
    let mut remote = addr;
    let canonical = remote.ip().to_canonical();
    remote.set_ip(canonical);
    remote
}

} // verus!
