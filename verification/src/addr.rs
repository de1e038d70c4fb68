//! Network addresses as the numbers that their bits spell.
use vstd::prelude::*;

use crate::numbers;
use crate::numbers::push_decimal;
use crate::vec_map::MapKey;

verus! {

/// An IPv4 address; the first octet is the most significant.
#[derive(Clone, Copy, Debug, PartialEq, Eq, Structural)]
pub struct Ipv4Addr {
    pub bits: u32,
}

/// An IPv6 address; the first segment is the most significant.
#[derive(Clone, Copy, Debug, PartialEq, Eq, Structural)]
pub struct Ipv6Addr {
    pub bits: u128,
}

#[derive(Clone, Copy, Debug, PartialEq, Eq, Structural)]
pub enum IpAddr {
    V4(Ipv4Addr),
    V6(Ipv6Addr),
}

impl Ipv4Addr {
    pub fn new(a: u8, b: u8, c: u8, d: u8) -> (result: Self)
        ensures
            result.bits == a * 0x100_0000 + b * 0x1_0000 + c * 0x100 + d,
    {
        Ipv4Addr {
            bits: a as u32 * 0x100_0000 + b as u32 * 0x1_0000 + c as u32 * 0x100 + d as u32,
        }
    }

    /// The octet at a place, the first at 0.
    pub open spec fn octet(self, place: int) -> nat {
        (if place == 0 {
            self.bits as nat / 0x100_0000
        } else if place == 1 {
            self.bits as nat / 0x1_0000 % 0x100
        } else if place == 2 {
            self.bits as nat / 0x100 % 0x100
        } else {
            self.bits as nat % 0x100
        })
    }

    /// The four octets in decimal, with dots between them.
    pub open spec fn text(self) -> Seq<char> {
        numbers::decimal(self.octet(0)) + "."@ + numbers::decimal(self.octet(1)) + "."@
            + numbers::decimal(self.octet(2)) + "."@ + numbers::decimal(self.octet(3))
    }

    /// Appends the four octets in decimal, with dots between them.
    pub fn push_text(self, out: &mut String)
        ensures
            final(out)@ == old(out)@ + self.text(),
    {
        push_decimal(out, (self.bits / 0x100_0000) as u64);
        out.append(".");
        push_decimal(out, (self.bits / 0x1_0000 % 0x100) as u64);
        out.append(".");
        push_decimal(out, (self.bits / 0x100 % 0x100) as u64);
        out.append(".");
        push_decimal(out, (self.bits % 0x100) as u64);
        assert(out@ =~= old(out)@ + self.text());
    }

    /// 127.0.0.0/8
    pub open spec fn loopback(self) -> bool {
        0x7f00_0000 <= self.bits <= 0x7fff_ffff
    }

    /// 10.0.0.0/8, 172.16.0.0/12 and 192.168.0.0/16
    pub open spec fn private(self) -> bool {
        ||| 0x0a00_0000 <= self.bits <= 0x0aff_ffff
        ||| 0xac10_0000 <= self.bits <= 0xac1f_ffff
        ||| 0xc0a8_0000 <= self.bits <= 0xc0a8_ffff
    }

    /// 169.254.0.0/16
    pub open spec fn link_local(self) -> bool {
        0xa9fe_0000 <= self.bits <= 0xa9fe_ffff
    }

    /// 100.64.0.0/10, shared between the customers of a carrier or the members of a VPN.
    pub open spec fn shared(self) -> bool {
        0x6440_0000 <= self.bits <= 0x647f_ffff
    }

    pub fn is_loopback(self) -> (result: bool)
        ensures
            result == self.loopback(),
    {
        self.bits / 0x100_0000 == 127
    }

    pub fn is_private(self) -> (result: bool)
        ensures
            result == self.private(),
    {
        let a: u32 = self.bits / 0x100_0000;
        let b: u32 = self.bits / 0x1_0000 % 0x100;
        a == 10 || (a == 172 && 16 <= b && b <= 31) || (a == 192 && b == 168)
    }

    pub fn is_link_local(self) -> (result: bool)
        ensures
            result == self.link_local(),
    {
        let a: u32 = self.bits / 0x100_0000;
        let b: u32 = self.bits / 0x1_0000 % 0x100;
        a == 169 && b == 254
    }

    pub fn is_shared(self) -> (result: bool)
        ensures
            result == self.shared(),
    {
        let a: u32 = self.bits / 0x100_0000;
        let b: u32 = self.bits / 0x1_0000 % 0x100;
        a == 100 && 64 <= b && b <= 127
    }
}

impl Ipv6Addr {
    /// ::1
    pub open spec fn loopback(self) -> bool {
        self.bits == 1
    }

    /// fe80::/10
    pub open spec fn unicast_link_local(self) -> bool {
        0xfe80_0000_0000_0000_0000_0000_0000_0000 <= self.bits
            <= 0xfebf_ffff_ffff_ffff_ffff_ffff_ffff_ffff
    }

    /// fc00::/7
    pub open spec fn unique_local(self) -> bool {
        0xfc00_0000_0000_0000_0000_0000_0000_0000 <= self.bits
            <= 0xfdff_ffff_ffff_ffff_ffff_ffff_ffff_ffff
    }

    pub fn is_loopback(self) -> (result: bool)
        ensures
            result == self.loopback(),
    {
        self.bits == 1
    }

    pub fn is_unicast_link_local(self) -> (result: bool)
        ensures
            result == self.unicast_link_local(),
    {
        let head: u128 = self.bits / 0x1_0000_0000_0000_0000_0000_0000_0000;
        0xfe80 <= head && head <= 0xfebf
    }

    pub fn is_unique_local(self) -> (result: bool)
        ensures
            result == self.unique_local(),
    {
        let head: u128 = self.bits / 0x1_0000_0000_0000_0000_0000_0000_0000;
        0xfc00 <= head && head <= 0xfdff
    }
}

/// The address that a text spells, in one of the forms of IPv4 or IPv6.
pub uninterp spec fn address_literal(text: Seq<char>) -> Option<IpAddr>;

/// `core::net::IpAddr`, `from_str`: the address that the text spells, where it
/// spells one. This depends on the text alone.
#[verifier::external_body]
pub(crate) fn parse_address(text: &str) -> (result: Option<IpAddr>)
    ensures
        result == address_literal(text@),
{
    match text.parse::<core::net::IpAddr>().ok()? {
        core::net::IpAddr::V4(ip) => Some(IpAddr::V4(Ipv4Addr { bits: u32::from(ip) })),
        core::net::IpAddr::V6(ip) => Some(IpAddr::V6(Ipv6Addr { bits: u128::from(ip) })),
    }
}

/// The text that an IPv6 address is written as.
pub uninterp spec fn ipv6_text(bits: u128) -> Seq<char>;

/// `core::net::Ipv6Addr`, `to_string`: the address as it is written. This
/// depends on the address alone.
#[verifier::external_body]
pub(crate) fn write_ipv6(address: Ipv6Addr) -> (result: String)
    ensures
        result@ == ipv6_text(address.bits),
{
    core::net::Ipv6Addr::from(address.bits).to_string()
}

impl MapKey for IpAddr {
    type Model = IpAddr;

    open spec fn model(&self) -> IpAddr {
        *self
    }

    fn same(&self, other: &Self) -> (result: bool) {
        *self == *other
    }
}

} // verus!
