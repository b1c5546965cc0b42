//! Internet addresses, as plain numbers.

use vstd::prelude::*;

verus! {

/// An IPv4 or IPv6 address.
#[derive(Debug, Clone, Copy, PartialEq, Eq, Structural)]
pub enum IpAddress {
    /// An IPv4 address, first octet in the highest byte.
    V4(u32),
    /// An IPv6 address, first segment in the highest bits.
    V6(u128),
}

/// The number of the IPv4 address `a.b.c.d`.
pub open spec fn v4_number(a: u8, b: u8, c: u8, d: u8) -> u32 {
    (16777216 * a + 65536 * b + 256 * c + d) as u32
}

/// Whether an address designates the machine itself: `127.0.0.0/8` or `::1`.
pub open spec fn loopback(ip: IpAddress) -> bool {
    match ip {
        IpAddress::V4(n) => n / 16777216 == 127,
        IpAddress::V6(n) => n == 1,
    }
}

/// Whether an address is the wildcard: `0.0.0.0` or `::`.
pub open spec fn unspecified(ip: IpAddress) -> bool {
    match ip {
        IpAddress::V4(n) => n == 0,
        IpAddress::V6(n) => n == 0,
    }
}

impl IpAddress {
    /// The IPv4 address `a.b.c.d`.
    pub fn v4(a: u8, b: u8, c: u8, d: u8) -> (ip: IpAddress)
        ensures
            ip == IpAddress::V4(v4_number(a, b, c, d)),
    {
        IpAddress::V4(16777216 * (a as u32) + 65536 * (b as u32) + 256 * (c as u32) + d as u32)
    }

    /// Whether this address designates the machine itself.
    pub fn is_loopback(&self) -> (b: bool)
        ensures
            b == loopback(*self),
    {
        match *self {
            IpAddress::V4(n) => n / 16777216 == 127,
            IpAddress::V6(n) => n == 1,
        }
    }

    /// Whether this address is the wildcard.
    pub fn is_unspecified(&self) -> (b: bool)
        ensures
            b == unspecified(*self),
    {
        match *self {
            IpAddress::V4(n) => n == 0,
            IpAddress::V6(n) => n == 0,
        }
    }
}

/// No address is both the wildcard and the machine itself.
pub proof fn law_loopback_is_not_the_wildcard(ip: IpAddress)
    ensures
        !(loopback(ip) && unspecified(ip)),
{
}

/// The loopback is every address from 127.0.0.0 to 127.255.255.255, and `::1`; the wildcard
/// is 0.0.0.0 and `::`.
pub proof fn law_loopback_and_wildcard(a: u8, b: u8, c: u8, d: u8, n: u128)
    ensures
        loopback(IpAddress::V4(v4_number(a, b, c, d))) <==> a == 127,
        unspecified(IpAddress::V4(v4_number(a, b, c, d))) <==> a == 0 && b == 0 && c == 0 && d
            == 0,
        loopback(IpAddress::V6(n)) <==> n == 1,
        unspecified(IpAddress::V6(n)) <==> n == 0,
{
    let rest = 65536 * b + 256 * c + d;
    assert(0 <= rest < 16777216);
    assert((16777216 * a + rest) / 16777216 == a);
}

} // verus!
