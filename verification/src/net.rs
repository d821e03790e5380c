//! Addresses and address ranges, as plain numbers.

use vstd::prelude::*;

verus! {

/// An IP address: the 32 bits of an IPv4 address or the 128 bits of an IPv6
/// address, most significant byte first. An IPv4 address never equals an IPv6
/// address.
#[derive(Debug, Clone, Copy, PartialEq, Eq, Hash, Structural)]
pub enum IpAddress {
    V4(u32),
    V6(u128),
}

/// The number whose four bytes, most significant first, are `a`, `b`, `c`,
/// `d`.
pub open spec fn quad(a: u8, b: u8, c: u8, d: u8) -> u32 {
    (a as u32 * 0x100_0000 + b as u32 * 0x1_0000 + c as u32 * 0x100 + d as u32) as u32
}

impl IpAddress {
    /// The IPv4 address `a.b.c.d`.
    pub fn v4(a: u8, b: u8, c: u8, d: u8) -> (ip: Self)
        ensures
            ip == IpAddress::V4(quad(a, b, c, d)),
    {
        IpAddress::V4((a as u32) * 0x100_0000 + (b as u32) * 0x1_0000 + (c as u32) * 0x100 + (d as u32))
    }

    pub fn is_ipv4(&self) -> (yes: bool)
        ensures
            yes == (self is V4),
    {
        match self {
            IpAddress::V4(_) => true,
            IpAddress::V6(_) => false,
        }
    }

    /// The number of bits in an address of this family.
    pub open spec fn bits(&self) -> int {
        match self {
            IpAddress::V4(_) => 32,
            IpAddress::V6(_) => 128,
        }
    }
}

/// Whether the first `bits` bits of `a` and `b` agree; every bit when `bits`
/// is 32 or more.
pub open spec fn same_prefix_v4(a: u32, b: u32, bits: u8) -> bool {
    if bits == 0 {
        true
    } else if bits >= 32 {
        a == b
    } else {
        a >> ((32 - bits) as u32) == b >> ((32 - bits) as u32)
    }
}

/// Whether the first `bits` bits of `a` and `b` agree; every bit when `bits`
/// is 128 or more.
pub open spec fn same_prefix_v6(a: u128, b: u128, bits: u8) -> bool {
    if bits == 0 {
        true
    } else if bits >= 128 {
        a == b
    } else {
        a >> ((128 - bits) as u128) == b >> ((128 - bits) as u128)
    }
}

/// A range of addresses in CIDR form: the addresses that agree with `addr`
/// in their first `prefix_len` bits.
#[derive(Debug, Clone, Copy, PartialEq, Eq, Hash, Structural)]
pub struct IpNetwork {
    pub addr: IpAddress,
    pub prefix_len: u8,
}

impl IpNetwork {
    /// A prefix is no longer than an address of its family.
    pub open spec fn valid(&self) -> bool {
        self.prefix_len <= self.addr.bits()
    }

    /// Whether `ip` lies in the range. An address of the other family never
    /// does.
    pub open spec fn covers(&self, ip: IpAddress) -> bool {
        match (self.addr, ip) {
            (IpAddress::V4(net), IpAddress::V4(addr)) => same_prefix_v4(net, addr, self.prefix_len),
            (IpAddress::V6(net), IpAddress::V6(addr)) => same_prefix_v6(net, addr, self.prefix_len),
            _ => false,
        }
    }

    pub fn new(addr: IpAddress, prefix_len: u8) -> (net: Self)
        ensures
            net.addr == addr,
            net.prefix_len == prefix_len,
    {
        IpNetwork { addr, prefix_len }
    }

    /// The range that holds `addr` alone.
    pub fn host(addr: IpAddress) -> (net: Self)
        ensures
            net.addr == addr,
            net.prefix_len == addr.bits(),
            net.valid(),
    {
        match addr {
            IpAddress::V4(_) => IpNetwork { addr, prefix_len: 32 },
            IpAddress::V6(_) => IpNetwork { addr, prefix_len: 128 },
        }
    }

    pub fn is_valid(&self) -> (yes: bool)
        ensures
            yes == self.valid(),
    {
        match self.addr {
            IpAddress::V4(_) => self.prefix_len <= 32,
            IpAddress::V6(_) => self.prefix_len <= 128,
        }
    }

    pub fn contains(&self, ip: &IpAddress) -> (yes: bool)
        ensures
            yes == self.covers(*ip),
    {
        match (self.addr, *ip) {
            (IpAddress::V4(net), IpAddress::V4(addr)) => {
                if self.prefix_len == 0 {
                    true
                } else if self.prefix_len >= 32 {
                    net == addr
                } else {
                    let shift: u32 = (32 - self.prefix_len) as u32;
                    (net >> shift) == (addr >> shift)
                }
            },
            (IpAddress::V6(net), IpAddress::V6(addr)) => {
                if self.prefix_len == 0 {
                    true
                } else if self.prefix_len >= 128 {
                    net == addr
                } else {
                    let shift: u128 = (128 - self.prefix_len) as u128;
                    (net >> shift) == (addr >> shift)
                }
            },
            _ => false,
        }
    }
}

/// What `ipnet::IpNet::from_str` makes of a text: 4 or 6 for the family, the
/// bits of the address, and the length of the prefix; `None` for a text that
/// is no address range in CIDR notation.
pub uninterp spec fn ip_net_parts(text: Seq<char>) -> Option<(u8, u128, u8)>;

/// Parses an address range in CIDR notation with `ipnet::IpNet::from_str`,
/// and takes the result apart: the family of the range, its address as the
/// number that std's conversion of an address gives, and the length of its
/// prefix. What the parser accepts, and as what, is `ip_net_parts`.
#[verifier::external_body]
fn parse_ip_net(text: &str) -> (parts: Option<(u8, u128, u8)>)
    ensures
        parts == ip_net_parts(text@),
{
    match text.parse::<ipnet::IpNet>() {
        Ok(ipnet::IpNet::V4(net)) => Some((4, u128::from(u32::from(net.addr())), net.prefix_len())),
        Ok(ipnet::IpNet::V6(net)) => Some((6, u128::from(net.addr()), net.prefix_len())),
        Err(_) => None,
    }
}

/// The range that the parts of a parsed text stand for, when they are the
/// parts of a well-formed range.
pub open spec fn network_of(parts: Option<(u8, u128, u8)>) -> Option<IpNetwork> {
    match parts {
        Some((family, bits, prefix_len)) => if family == 4 && bits <= u32::MAX && prefix_len <= 32 {
            Some(IpNetwork { addr: IpAddress::V4(bits as u32), prefix_len })
        } else if family == 6 && prefix_len <= 128 {
            Some(IpNetwork { addr: IpAddress::V6(bits), prefix_len })
        } else {
            None
        },
        None => None,
    }
}

impl IpNetwork {
    /// Reads an address range in CIDR notation, such as `10.0.0.0/8` or
    /// `2001:db8::/32`. The range read is well-formed.
    pub fn parse(text: &str) -> (net: Option<IpNetwork>)
        ensures
            net == network_of(ip_net_parts(text@)),
            net matches Some(found) ==> found.valid(),
    {
        match parse_ip_net(text) {
            Some((family, bits, prefix_len)) => {
                if family == 4 && bits <= 0xffff_ffff && prefix_len <= 32 {
                    Some(IpNetwork { addr: IpAddress::V4(bits as u32), prefix_len })
                } else if family == 6 && prefix_len <= 128 {
                    Some(IpNetwork { addr: IpAddress::V6(bits), prefix_len })
                } else {
                    None
                }
            },
            None => None,
        }
    }
}

/// Whether any range of `nets` holds `ip`.
pub open spec fn any_covers(nets: Seq<IpNetwork>, ip: IpAddress) -> bool {
    exists|i: int| 0 <= i < nets.len() && (#[trigger] nets[i]).covers(ip)
}

/// Whether any range of `nets` holds `ip`.
pub fn any_contains(nets: &Vec<IpNetwork>, ip: &IpAddress) -> (yes: bool)
    ensures
        yes == any_covers(nets@, *ip),
{
    let mut i: usize = 0;
    while i < nets.len()
        invariant
            i <= nets@.len(),
            forall|j: int| 0 <= j < i ==> !(#[trigger] nets@[j]).covers(*ip),
        decreases nets@.len() - i,
    {
        if nets[i].contains(ip) {
            return true;
        }
        i += 1;
    }
    false
}

} // verus!
