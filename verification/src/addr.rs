use vstd::prelude::*;

verus! {

/// An IPv4 address as its four dotted-quad octets.
#[derive(Clone, Copy, Debug, PartialEq, Eq, Structural)]
pub struct Ipv4Address {
    pub o0: u8,
    pub o1: u8,
    pub o2: u8,
    pub o3: u8,
}

impl Ipv4Address {
    pub fn new(o0: u8, o1: u8, o2: u8, o3: u8) -> (r: Ipv4Address)
        ensures
            r == (Ipv4Address { o0, o1, o2, o3 }),
    {
        Ipv4Address { o0, o1, o2, o3 }
    }
}

/// An IPv6 address as its sixteen raw octets. It only marks the address
/// family here: no IPv6 checksum or header is computed in this scope.
#[derive(Clone, Copy, Debug)]
pub struct Ipv6Address {
    pub octets: [u8; 16],
}

/// An address of either family.
#[derive(Clone, Copy, Debug)]
pub enum IpAddress {
    V4(Ipv4Address),
    V6(Ipv6Address),
}

impl IpAddress {
    pub open spec fn is_v4(self) -> bool {
        self is V4
    }

    /// The IPv4 octets of an address known to be of that family.
    pub open spec fn v4(self) -> Ipv4Address
        recommends
            self.is_v4(),
    {
        match self {
            IpAddress::V4(a) => a,
            IpAddress::V6(_) => Ipv4Address { o0: 0, o1: 0, o2: 0, o3: 0 },
        }
    }
}

/// A transport endpoint: an address and a port.
#[derive(Clone, Copy, Debug)]
pub struct SocketAddress {
    pub ip: IpAddress,
    pub port: u16,
}

impl SocketAddress {
    pub fn new(ip: IpAddress, port: u16) -> (r: SocketAddress)
        ensures
            r == (SocketAddress { ip, port }),
    {
        SocketAddress { ip, port }
    }
}

} // verus!
