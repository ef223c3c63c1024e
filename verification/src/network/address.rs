//! Network addresses as plain values.

use vstd::prelude::*;

verus! {

/// An IPv4 address by its four octets.
#[derive(Debug, Clone, Copy, PartialEq, Eq, PartialOrd, Ord, Hash, Structural)]
pub struct Ipv4Address {
    pub a: u8,
    pub b: u8,
    pub c: u8,
    pub d: u8,
}

impl Ipv4Address {
    /// The address as a number, by which addresses are ordered.
    pub open spec fn number(self) -> int {
        ((self.a * 256 + self.b) * 256 + self.c) * 256 + self.d
    }

    /// The address lies in 224.0.0.0/4.
    pub open spec fn spec_is_multicast(self) -> bool {
        224 <= self.a <= 239
    }

    #[must_use]
    pub fn new(a: u8, b: u8, c: u8, d: u8) -> (address: Self)
        ensures
            address == (Ipv4Address { a, b, c, d }),
    {
        Ipv4Address { a, b, c, d }
    }

    #[must_use]
    pub fn is_multicast(self) -> (multicast: bool)
        ensures
            multicast == self.spec_is_multicast(),
    {
        self.a >= 224 && self.a <= 239
    }

    /// Whether this address comes before the other.
    pub fn precedes(self, other: Self) -> (before: bool)
        ensures
            before == (self.number() < other.number()),
    {
        if self.a != other.a {
            self.a < other.a
        } else if self.b != other.b {
            self.b < other.b
        } else if self.c != other.c {
            self.c < other.c
        } else {
            self.d < other.d
        }
    }

    /// Addresses are determined by their numbers.
    pub proof fn lemma_number_injective(a: Self, b: Self)
        requires
            a.number() == b.number(),
        ensures
            a == b,
    {
    }
}

/// An IP address.
#[derive(Debug, Clone, Copy, PartialEq, Eq, Hash)]
pub enum IpAddress {
    V4(Ipv4Address),
    V6 { segments: [u16; 8] },
}

/// An IP address and a port. An IPv6 address comes with the flow information and the scope
/// that tell its packets and its links apart.
#[derive(Debug, Clone, Copy, PartialEq, Eq, Hash)]
pub enum SocketAddress {
    V4 { ip: Ipv4Address, port: u16 },
    V6 { segments: [u16; 8], port: u16, flow_info: u32, scope_id: u32 },
}

impl SocketAddress {
    /// An address with a port, and with no flow or scope of its own.
    pub open spec fn spec_new(ip: IpAddress, port: u16) -> Self {
        match ip {
            IpAddress::V4(ip) => SocketAddress::V4 { ip, port },
            IpAddress::V6 { segments } => SocketAddress::V6 {
                segments,
                port,
                flow_info: 0,
                scope_id: 0,
            },
        }
    }

    #[must_use]
    pub fn new(ip: IpAddress, port: u16) -> (address: Self)
        ensures
            address == Self::spec_new(ip, port),
    {
        match ip {
            IpAddress::V4(ip) => SocketAddress::V4 { ip, port },
            IpAddress::V6 { segments } => SocketAddress::V6 {
                segments,
                port,
                flow_info: 0,
                scope_id: 0,
            },
        }
    }
}

/// Multicast addresses are those whose first four bits are 1110, whatever the rest is.
pub proof fn law_multicast_addresses(address: Ipv4Address)
    ensures
        address.spec_is_multicast() <==> address.a / 16 == 14,
        address.spec_is_multicast() <==> 0xE000_0000 <= address.number() <= 0xEFFF_FFFF,
{
}

/// An address with a port keeps both, in its own family.
pub proof fn law_socket_address_keeps_its_parts(ip: IpAddress, port: u16)
    ensures
        match SocketAddress::spec_new(ip, port) {
            SocketAddress::V4 { ip: kept, port: kept_port } => ip == IpAddress::V4(kept)
                && kept_port == port,
            SocketAddress::V6 { segments, port: kept_port, flow_info, scope_id } => ip
                == (IpAddress::V6 { segments }) && kept_port == port && flow_info == 0 && scope_id
                == 0,
        },
{
}

} // verus!
