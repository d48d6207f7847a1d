//! Network addresses and the single table of address ranges that every
//! filter of the client consults.

use vstd::prelude::*;

verus! {

/// An IP address: IPv4 as its 32-bit big-endian value, IPv6 as its 128-bit
/// value.
#[derive(Clone, Copy, PartialEq, Eq, Structural, Debug)]
pub enum Ip {
    V4(u32),
    V6(u128),
}

/// An IP address with a UDP port.
#[derive(Clone, Copy, PartialEq, Eq, Structural, Debug)]
pub struct Endpoint {
    pub ip: Ip,
    pub port: u16,
}

/// What a range of the address space is.
#[derive(Clone, Copy, PartialEq, Eq, Structural, Debug)]
pub enum Reach {
    /// This host itself (`127.0.0.0/8`, `::1`).
    Loopback,
    /// No address (`0.0.0.0/8`, `::`).
    Unspecified,
    /// A private network (`10/8`, `172.16/12`, `192.168/16`, `fc00::/7`, `fec0::/10`).
    Private,
    /// Carrier-grade NAT space (`100.64.0.0/10`).
    SharedCgnat,
    /// Link-local, including cloud metadata (`169.254/16`, `fe80::/10`).
    LinkLocal,
    /// Documentation examples (`192.0.2/24`, `198.51.100/24`, `203.0.113/24`, `2001:db8::/32`).
    Documentation,
    /// Multicast (`224.0.0.0/4`, `ff00::/8`).
    Multicast,
    /// Reserved, including the broadcast address (`240.0.0.0/4`).
    Reserved,
    /// Anything else: the public internet.
    Public,
}

/// The range an IPv4 address belongs to.
pub open spec fn v4_reach(ip: u32) -> Reach {
    if ip <= 0x00ff_ffff {
        Reach::Unspecified
    } else if 0x7f00_0000 <= ip <= 0x7fff_ffff {
        Reach::Loopback
    } else if 0x0a00_0000 <= ip <= 0x0aff_ffff || 0xac10_0000 <= ip <= 0xac1f_ffff || 0xc0a8_0000
        <= ip <= 0xc0a8_ffff {
        Reach::Private
    } else if 0x6440_0000 <= ip <= 0x647f_ffff {
        Reach::SharedCgnat
    } else if 0xa9fe_0000 <= ip <= 0xa9fe_ffff {
        Reach::LinkLocal
    } else if 0xc000_0200 <= ip <= 0xc000_02ff || 0xc633_6400 <= ip <= 0xc633_64ff || 0xcb00_7100
        <= ip <= 0xcb00_71ff {
        Reach::Documentation
    } else if 0xe000_0000 <= ip <= 0xefff_ffff {
        Reach::Multicast
    } else if 0xf000_0000 <= ip {
        Reach::Reserved
    } else {
        Reach::Public
    }
}

/// Start of `::ffff:0:0/96`, IPv4 addresses mapped into IPv6.
pub const V4_MAPPED: u128 = 0xffff_0000_0000;

/// Start of `64:ff9b::/96`, the NAT64 prefix.
pub const NAT64: u128 = 0x0064_ff9b_0000_0000_0000_0000_0000_0000;

/// Start of `2002::/16`, 6to4.
pub const SIX_TO_FOUR: u128 = 0x2002_0000_0000_0000_0000_0000_0000_0000;

/// The range an IPv6 address belongs to. IPv4 carried inside IPv6
/// (v4-mapped, NAT64, 6to4) is judged by the IPv4 table.
pub open spec fn v6_reach(ip: u128) -> Reach {
    if ip == 0 {
        Reach::Unspecified
    } else if ip == 1 {
        Reach::Loopback
    } else if V4_MAPPED <= ip < V4_MAPPED + 0x1_0000_0000 {
        v4_reach((ip - V4_MAPPED) as u32)
    } else if NAT64 <= ip < NAT64 + 0x1_0000_0000 {
        v4_reach((ip - NAT64) as u32)
    } else if SIX_TO_FOUR <= ip < SIX_TO_FOUR + 0x1_0000_0000_0000_0000_0000_0000_0000 {
        v4_reach(((ip - SIX_TO_FOUR) / 0x1_0000_0000_0000_0000_0000) as u32)
    } else if 0xfe80_0000_0000_0000_0000_0000_0000_0000 <= ip
        <= 0xfebf_ffff_ffff_ffff_ffff_ffff_ffff_ffff {
        Reach::LinkLocal
    } else if 0xfec0_0000_0000_0000_0000_0000_0000_0000 <= ip
        <= 0xfeff_ffff_ffff_ffff_ffff_ffff_ffff_ffff {
        Reach::Private
    } else if 0xfc00_0000_0000_0000_0000_0000_0000_0000 <= ip
        <= 0xfdff_ffff_ffff_ffff_ffff_ffff_ffff_ffff {
        Reach::Private
    } else if 0xff00_0000_0000_0000_0000_0000_0000_0000 <= ip {
        Reach::Multicast
    } else if 0x2001_0db8_0000_0000_0000_0000_0000_0000 <= ip
        <= 0x2001_0db8_ffff_ffff_ffff_ffff_ffff_ffff {
        Reach::Documentation
    } else {
        Reach::Public
    }
}

pub open spec fn spec_reach(ip: Ip) -> Reach {
    match ip {
        Ip::V4(a) => v4_reach(a),
        Ip::V6(a) => v6_reach(a),
    }
}

pub fn reach_v4(ip: u32) -> (r: Reach)
    ensures
        r == v4_reach(ip),
{
    if ip <= 0x00ff_ffff {
        Reach::Unspecified
    } else if 0x7f00_0000 <= ip && ip <= 0x7fff_ffff {
        Reach::Loopback
    } else if (0x0a00_0000 <= ip && ip <= 0x0aff_ffff) || (0xac10_0000 <= ip && ip <= 0xac1f_ffff)
        || (0xc0a8_0000 <= ip && ip <= 0xc0a8_ffff) {
        Reach::Private
    } else if 0x6440_0000 <= ip && ip <= 0x647f_ffff {
        Reach::SharedCgnat
    } else if 0xa9fe_0000 <= ip && ip <= 0xa9fe_ffff {
        Reach::LinkLocal
    } else if (0xc000_0200 <= ip && ip <= 0xc000_02ff) || (0xc633_6400 <= ip && ip <= 0xc633_64ff)
        || (0xcb00_7100 <= ip && ip <= 0xcb00_71ff) {
        Reach::Documentation
    } else if 0xe000_0000 <= ip && ip <= 0xefff_ffff {
        Reach::Multicast
    } else if 0xf000_0000 <= ip {
        Reach::Reserved
    } else {
        Reach::Public
    }
}

pub fn reach_v6(ip: u128) -> (r: Reach)
    ensures
        r == v6_reach(ip),
{
    if ip == 0 {
        Reach::Unspecified
    } else if ip == 1 {
        Reach::Loopback
    } else if V4_MAPPED <= ip && ip < V4_MAPPED + 0x1_0000_0000 {
        reach_v4((ip - V4_MAPPED) as u32)
    } else if NAT64 <= ip && ip < NAT64 + 0x1_0000_0000 {
        reach_v4((ip - NAT64) as u32)
    } else if SIX_TO_FOUR <= ip && ip < SIX_TO_FOUR + 0x1_0000_0000_0000_0000_0000_0000_0000 {
        reach_v4(((ip - SIX_TO_FOUR) / 0x1_0000_0000_0000_0000_0000) as u32)
    } else if 0xfe80_0000_0000_0000_0000_0000_0000_0000 <= ip && ip
        <= 0xfebf_ffff_ffff_ffff_ffff_ffff_ffff_ffff {
        Reach::LinkLocal
    } else if 0xfec0_0000_0000_0000_0000_0000_0000_0000 <= ip && ip
        <= 0xfeff_ffff_ffff_ffff_ffff_ffff_ffff_ffff {
        Reach::Private
    } else if 0xfc00_0000_0000_0000_0000_0000_0000_0000 <= ip && ip
        <= 0xfdff_ffff_ffff_ffff_ffff_ffff_ffff_ffff {
        Reach::Private
    } else if 0xff00_0000_0000_0000_0000_0000_0000_0000 <= ip {
        Reach::Multicast
    } else if 0x2001_0db8_0000_0000_0000_0000_0000_0000 <= ip && ip
        <= 0x2001_0db8_ffff_ffff_ffff_ffff_ffff_ffff {
        Reach::Documentation
    } else {
        Reach::Public
    }
}

/// The range an address belongs to.
pub fn reach(ip: Ip) -> (r: Reach)
    ensures
        r == spec_reach(ip),
{
    match ip {
        Ip::V4(a) => reach_v4(a),
        Ip::V6(a) => reach_v6(a),
    }
}

/// May a hole-punching burst be aimed at this address? A peer in the same
/// private network is a working case; this host itself, nobody, the link-local
/// segment (cloud metadata), multicast and reserved space are not.
pub open spec fn spec_punch_target_allowed(e: Endpoint) -> bool {
    match spec_reach(e.ip) {
        Reach::Loopback | Reach::Unspecified | Reach::LinkLocal | Reach::Multicast
        | Reach::Reserved => false,
        _ => true,
    }
}

pub fn punch_target_allowed(e: &Endpoint) -> (b: bool)
    ensures
        b == spec_punch_target_allowed(*e),
{
    match reach(e.ip) {
        Reach::Loopback | Reach::Unspecified | Reach::LinkLocal | Reach::Multicast
        | Reach::Reserved => false,
        _ => true,
    }
}

/// Can this be our own address as the internet sees it? Only a public IPv4
/// address with a real port.
pub open spec fn spec_plausible_external(e: Endpoint) -> bool {
    &&& e.ip is V4
    &&& spec_reach(e.ip) == Reach::Public
    &&& e.port != 0
}

pub fn plausible_external(e: &Endpoint) -> (b: bool)
    ensures
        b == spec_plausible_external(*e),
{
    match e.ip {
        Ip::V4(a) => e.port != 0 && reach_v4(a) == Reach::Public,
        Ip::V6(_) => false,
    }
}

} // verus!
