use vstd::prelude::*;

use crate::afi::AfiEnum;

verus! {

/// `v` lies in the inclusive span `s`.
pub open spec fn in_span(v: u128, s: (u128, u128)) -> bool {
    s.0 <= v <= s.1
}

/// `v` lies in one of the spans `s`.
pub open spec fn in_any_span(v: u128, s: Seq<(u128, u128)>) -> bool {
    exists|i: int| 0 <= i < s.len() && in_span(v, #[trigger] s[i])
}

/// `v` lies in the span `s`, where there is one.
pub open spec fn in_opt_span(v: u128, s: Option<(u128, u128)>) -> bool {
    match s {
        Some(s) => in_span(v, s),
        None => false,
    }
}

/// The limited broadcast address (`255.255.255.255`; IPv6 has none).
pub open spec fn broadcast_value(afi: AfiEnum) -> Option<u128> {
    match afi {
        AfiEnum::Ipv4 => Some(0xffff_ffff),
        AfiEnum::Ipv6 => None,
    }
}

/// Link-local addresses (`169.254.0.0/16`, `fe80::/10`).
pub open spec fn link_local_span(afi: AfiEnum) -> (u128, u128) {
    match afi {
        AfiEnum::Ipv4 => (0xa9fe_0000, 0xa9fe_ffff),
        AfiEnum::Ipv6 => (
            0xfe80_0000_0000_0000_0000_0000_0000_0000,
            0xfebf_ffff_ffff_ffff_ffff_ffff_ffff_ffff,
        ),
    }
}

/// Private-use addresses (`10.0.0.0/8`, `172.16.0.0/12`, `192.168.0.0/16`;
/// none for IPv6).
pub open spec fn private_spans(afi: AfiEnum) -> Seq<(u128, u128)> {
    match afi {
        AfiEnum::Ipv4 => seq![
            (0x0a00_0000u128, 0x0aff_ffffu128),
            (0xac10_0000u128, 0xac1f_ffffu128),
            (0xc0a8_0000u128, 0xc0a8_ffffu128),
        ],
        AfiEnum::Ipv6 => seq![],
    }
}

/// Addresses reserved for future use (`240.0.0.0/4` but for the broadcast
/// address; none for IPv6).
pub open spec fn reserved_span(afi: AfiEnum) -> Option<(u128, u128)> {
    match afi {
        AfiEnum::Ipv4 => Some((0xf000_0000, 0xffff_fffe)),
        AfiEnum::Ipv6 => None,
    }
}

/// Shared address space (`100.64.0.0/10`; none for IPv6).
pub open spec fn shared_span(afi: AfiEnum) -> Option<(u128, u128)> {
    match afi {
        AfiEnum::Ipv4 => Some((0x6440_0000, 0x647f_ffff)),
        AfiEnum::Ipv6 => None,
    }
}

/// "This network" (`0.0.0.0/8`; none for IPv6).
pub open spec fn thisnet_span(afi: AfiEnum) -> Option<(u128, u128)> {
    match afi {
        AfiEnum::Ipv4 => Some((0, 0x00ff_ffff)),
        AfiEnum::Ipv6 => None,
    }
}

/// Benchmarking addresses (`198.18.0.0/15`, `2001:2::/48`).
pub open spec fn benchmark_span(afi: AfiEnum) -> (u128, u128) {
    match afi {
        AfiEnum::Ipv4 => (0xc612_0000, 0xc613_ffff),
        AfiEnum::Ipv6 => (
            0x2001_0002_0000_0000_0000_0000_0000_0000,
            0x2001_0002_0000_ffff_ffff_ffff_ffff_ffff,
        ),
    }
}

/// Documentation addresses (`192.0.2.0/24`, `198.51.100.0/24`,
/// `203.0.113.0/24`, `2001:db8::/32`).
pub open spec fn documentation_spans(afi: AfiEnum) -> Seq<(u128, u128)> {
    match afi {
        AfiEnum::Ipv4 => seq![
            (0xc000_0200u128, 0xc000_02ffu128),
            (0xc633_6400u128, 0xc633_64ffu128),
            (0xcb00_7100u128, 0xcb00_71ffu128),
        ],
        AfiEnum::Ipv6 => seq![
            (
                0x2001_0db8_0000_0000_0000_0000_0000_0000u128,
                0x2001_0db8_ffff_ffff_ffff_ffff_ffff_ffffu128,
            ),
        ],
    }
}

/// Loopback addresses (`127.0.0.0/8`, `::1`).
pub open spec fn localhost_span(afi: AfiEnum) -> (u128, u128) {
    match afi {
        AfiEnum::Ipv4 => (0x7f00_0000, 0x7fff_ffff),
        AfiEnum::Ipv6 => (1, 1),
    }
}

/// Multicast addresses (`224.0.0.0/4`, `ff00::/8`).
pub open spec fn multicast_span(afi: AfiEnum) -> (u128, u128) {
    match afi {
        AfiEnum::Ipv4 => (0xe000_0000, 0xefff_ffff),
        AfiEnum::Ipv6 => (
            0xff00_0000_0000_0000_0000_0000_0000_0000,
            0xffff_ffff_ffff_ffff_ffff_ffff_ffff_ffff,
        ),
    }
}

/// Unique local addresses (`fc00::/7`; none for IPv4).
pub open spec fn ula_span(afi: AfiEnum) -> Option<(u128, u128)> {
    match afi {
        AfiEnum::Ipv4 => None,
        AfiEnum::Ipv6 => Some(
            (
                0xfc00_0000_0000_0000_0000_0000_0000_0000,
                0xfdff_ffff_ffff_ffff_ffff_ffff_ffff_ffff,
            ),
        ),
    }
}

/// An IPv4 address is globally reachable: a multicast address outside the
/// local network control block (`224.0.0.0/24`) and the administratively
/// scoped block (`239.0.0.0/8`), or a unicast address in none of the
/// special-purpose blocks that are not globally reachable. Within the IETF
/// protocol assignments (`192.0.0.0/24`), `192.0.0.9` and `192.0.0.10` are
/// globally reachable.
pub open spec fn ipv4_global(v: u128) -> bool {
    let afi = AfiEnum::Ipv4;
    if in_span(v, multicast_span(afi)) {
        !in_span(v, (0xe000_0000, 0xe000_00ff)) && !in_span(v, (0xef00_0000, 0xefff_ffff))
    } else {
        !(in_opt_span(v, thisnet_span(afi)) || in_any_span(v, private_spans(afi)) || in_opt_span(
            v,
            shared_span(afi),
        ) || in_span(v, localhost_span(afi)) || in_span(v, link_local_span(afi)) || (in_span(
            v,
            (0xc000_0000, 0xc000_00ff),
        ) && v != 0xc000_0009 && v != 0xc000_000a) || in_any_span(v, documentation_spans(afi))
            || in_span(v, benchmark_span(afi)) || in_opt_span(v, reserved_span(afi)) || broadcast_value(
            afi,
        ) == Some(v))
    }
}

/// An IPv6 address is globally reachable: a multicast address of global
/// scope, or a unicast address in none of the special-purpose blocks that
/// are not globally reachable. Within the IETF protocol assignments
/// (`2001::/23`), `2001:1::1`, `2001:1::2`, `2001:3::/32`, `2001:4:112::/48`
/// and `2001:20::/28` are globally reachable.
pub open spec fn ipv6_global(v: u128) -> bool {
    let afi = AfiEnum::Ipv6;
    if in_span(v, multicast_span(afi)) {
        (v >> 112u128) & 0xf == 0xe
    } else {
        !(v == 0 || in_span(v, localhost_span(afi)) || in_span(
            v,
            (0xffff_0000_0000, 0xffff_ffff_ffff),
        ) || in_span(
            v,
            (
                0x0064_ff9b_0001_0000_0000_0000_0000_0000,
                0x0064_ff9b_0001_ffff_ffff_ffff_ffff_ffff,
            ),
        ) || in_span(
            v,
            (
                0x0100_0000_0000_0000_0000_0000_0000_0000,
                0x0100_0000_0000_0000_ffff_ffff_ffff_ffff,
            ),
        ) || (in_span(
            v,
            (
                0x2001_0000_0000_0000_0000_0000_0000_0000,
                0x2001_01ff_ffff_ffff_ffff_ffff_ffff_ffff,
            ),
        ) && !(v == 0x2001_0001_0000_0000_0000_0000_0000_0001 || v
            == 0x2001_0001_0000_0000_0000_0000_0000_0002 || in_span(
            v,
            (
                0x2001_0003_0000_0000_0000_0000_0000_0000,
                0x2001_0003_ffff_ffff_ffff_ffff_ffff_ffff,
            ),
        ) || in_span(
            v,
            (
                0x2001_0004_0112_0000_0000_0000_0000_0000,
                0x2001_0004_0112_ffff_ffff_ffff_ffff_ffff,
            ),
        ) || in_span(
            v,
            (
                0x2001_0020_0000_0000_0000_0000_0000_0000,
                0x2001_002f_ffff_ffff_ffff_ffff_ffff_ffff,
            ),
        ))) || in_any_span(v, documentation_spans(afi)) || in_opt_span(v, ula_span(afi))
            || in_span(v, link_local_span(afi)))
    }
}

/// An address of family `afi` is globally reachable.
pub open spec fn global(afi: AfiEnum, v: u128) -> bool {
    match afi {
        AfiEnum::Ipv4 => ipv4_global(v),
        AfiEnum::Ipv6 => ipv6_global(v),
    }
}

} // verus!

verus! {

/// `v` lies in one of the spans of `s`.
pub fn contains_any(s: &Vec<(u128, u128)>, v: u128) -> (r: bool)
    ensures
        r == in_any_span(v, s@),
{
    let mut i: usize = 0;
    while i < s.len()
        invariant
            i <= s@.len(),
            forall|j: int| 0 <= j < i ==> !in_span(v, #[trigger] s@[j]),
        decreases s@.len() - i,
    {
        let (lo, hi) = s[i];
        if lo <= v && v <= hi {
            assert(in_span(v, s@[i as int]));
            return true;
        }
        i = i + 1;
    }
    false
}

/// `v` lies in the span `s`, where there is one.
pub fn contains_opt(s: Option<(u128, u128)>, v: u128) -> (r: bool)
    ensures
        r == in_opt_span(v, s),
{
    match s {
        Some((lo, hi)) => lo <= v && v <= hi,
        None => false,
    }
}

pub fn broadcast(afi: AfiEnum) -> (r: Option<u128>)
    ensures
        r == broadcast_value(afi),
{
    match afi {
        AfiEnum::Ipv4 => Some(0xffff_ffff),
        AfiEnum::Ipv6 => None,
    }
}

pub fn link_local(afi: AfiEnum) -> (r: (u128, u128))
    ensures
        r == link_local_span(afi),
{
    match afi {
        AfiEnum::Ipv4 => (0xa9fe_0000, 0xa9fe_ffff),
        AfiEnum::Ipv6 => (
            0xfe80_0000_0000_0000_0000_0000_0000_0000,
            0xfebf_ffff_ffff_ffff_ffff_ffff_ffff_ffff,
        ),
    }
}

pub fn private(afi: AfiEnum) -> (r: Vec<(u128, u128)>)
    ensures
        r@ == private_spans(afi),
{
    match afi {
        AfiEnum::Ipv4 => {
            let r = vec![
                (0x0a00_0000u128, 0x0aff_ffffu128),
                (0xac10_0000u128, 0xac1f_ffffu128),
                (0xc0a8_0000u128, 0xc0a8_ffffu128),
            ];
            assert(r@ =~= private_spans(afi));
            r
        },
        AfiEnum::Ipv6 => {
            let r = Vec::new();
            assert(r@ =~= private_spans(afi));
            r
        },
    }
}

pub fn reserved(afi: AfiEnum) -> (r: Option<(u128, u128)>)
    ensures
        r == reserved_span(afi),
{
    match afi {
        AfiEnum::Ipv4 => Some((0xf000_0000, 0xffff_fffe)),
        AfiEnum::Ipv6 => None,
    }
}

pub fn shared(afi: AfiEnum) -> (r: Option<(u128, u128)>)
    ensures
        r == shared_span(afi),
{
    match afi {
        AfiEnum::Ipv4 => Some((0x6440_0000, 0x647f_ffff)),
        AfiEnum::Ipv6 => None,
    }
}

pub fn thisnet(afi: AfiEnum) -> (r: Option<(u128, u128)>)
    ensures
        r == thisnet_span(afi),
{
    match afi {
        AfiEnum::Ipv4 => Some((0, 0x00ff_ffff)),
        AfiEnum::Ipv6 => None,
    }
}

pub fn benchmark(afi: AfiEnum) -> (r: (u128, u128))
    ensures
        r == benchmark_span(afi),
{
    match afi {
        AfiEnum::Ipv4 => (0xc612_0000, 0xc613_ffff),
        AfiEnum::Ipv6 => (
            0x2001_0002_0000_0000_0000_0000_0000_0000,
            0x2001_0002_0000_ffff_ffff_ffff_ffff_ffff,
        ),
    }
}

pub fn documentation(afi: AfiEnum) -> (r: Vec<(u128, u128)>)
    ensures
        r@ == documentation_spans(afi),
{
    match afi {
        AfiEnum::Ipv4 => {
            let r = vec![
                (0xc000_0200u128, 0xc000_02ffu128),
                (0xc633_6400u128, 0xc633_64ffu128),
                (0xcb00_7100u128, 0xcb00_71ffu128),
            ];
            assert(r@ =~= documentation_spans(afi));
            r
        },
        AfiEnum::Ipv6 => {
            let r = vec![
                (
                    0x2001_0db8_0000_0000_0000_0000_0000_0000u128,
                    0x2001_0db8_ffff_ffff_ffff_ffff_ffff_ffffu128,
                ),
            ];
            assert(r@ =~= documentation_spans(afi));
            r
        },
    }
}

pub fn localhost(afi: AfiEnum) -> (r: (u128, u128))
    ensures
        r == localhost_span(afi),
{
    match afi {
        AfiEnum::Ipv4 => (0x7f00_0000, 0x7fff_ffff),
        AfiEnum::Ipv6 => (1, 1),
    }
}

pub fn multicast(afi: AfiEnum) -> (r: (u128, u128))
    ensures
        r == multicast_span(afi),
{
    match afi {
        AfiEnum::Ipv4 => (0xe000_0000, 0xefff_ffff),
        AfiEnum::Ipv6 => (
            0xff00_0000_0000_0000_0000_0000_0000_0000,
            0xffff_ffff_ffff_ffff_ffff_ffff_ffff_ffff,
        ),
    }
}

pub fn ula(afi: AfiEnum) -> (r: Option<(u128, u128)>)
    ensures
        r == ula_span(afi),
{
    match afi {
        AfiEnum::Ipv4 => None,
        AfiEnum::Ipv6 => Some(
            (
                0xfc00_0000_0000_0000_0000_0000_0000_0000,
                0xfdff_ffff_ffff_ffff_ffff_ffff_ffff_ffff,
            ),
        ),
    }
}

fn within(v: u128, lo: u128, hi: u128) -> (r: bool)
    ensures
        r == in_span(v, (lo, hi)),
{
    lo <= v && v <= hi
}

/// Whether the IPv4 address with value `v` is globally reachable.
pub fn ipv4_is_global(v: u128) -> (r: bool)
    ensures
        r == ipv4_global(v),
{
    let afi = AfiEnum::Ipv4;
    let (mlo, mhi) = multicast(afi);
    if within(v, mlo, mhi) {
        !within(v, 0xe000_0000, 0xe000_00ff) && !within(v, 0xef00_0000, 0xefff_ffff)
    } else {
        let (llo, lhi) = localhost(afi);
        let (klo, khi) = link_local(afi);
        let (blo, bhi) = benchmark(afi);
        !(contains_opt(thisnet(afi), v) || contains_any(&private(afi), v) || contains_opt(
            shared(afi),
            v,
        ) || within(v, llo, lhi) || within(v, klo, khi) || (within(v, 0xc000_0000, 0xc000_00ff)
            && v != 0xc000_0009 && v != 0xc000_000a) || contains_any(&documentation(afi), v)
            || within(v, blo, bhi) || contains_opt(reserved(afi), v) || broadcast(afi) == Some(v))
    }
}

/// Whether the IPv6 address with value `v` is globally reachable.
pub fn ipv6_is_global(v: u128) -> (r: bool)
    ensures
        r == ipv6_global(v),
{
    let afi = AfiEnum::Ipv6;
    let (mlo, mhi) = multicast(afi);
    if within(v, mlo, mhi) {
        (v >> 112u32) & 0xf == 0xe
    } else {
        let (llo, lhi) = localhost(afi);
        let (klo, khi) = link_local(afi);
        !(v == 0 || within(v, llo, lhi) || within(v, 0xffff_0000_0000, 0xffff_ffff_ffff) || within(
            v,
            0x0064_ff9b_0001_0000_0000_0000_0000_0000,
            0x0064_ff9b_0001_ffff_ffff_ffff_ffff_ffff,
        ) || within(
            v,
            0x0100_0000_0000_0000_0000_0000_0000_0000,
            0x0100_0000_0000_0000_ffff_ffff_ffff_ffff,
        ) || (within(
            v,
            0x2001_0000_0000_0000_0000_0000_0000_0000,
            0x2001_01ff_ffff_ffff_ffff_ffff_ffff_ffff,
        ) && !(v == 0x2001_0001_0000_0000_0000_0000_0000_0001 || v
            == 0x2001_0001_0000_0000_0000_0000_0000_0002 || within(
            v,
            0x2001_0003_0000_0000_0000_0000_0000_0000,
            0x2001_0003_ffff_ffff_ffff_ffff_ffff_ffff,
        ) || within(
            v,
            0x2001_0004_0112_0000_0000_0000_0000_0000,
            0x2001_0004_0112_ffff_ffff_ffff_ffff_ffff,
        ) || within(
            v,
            0x2001_0020_0000_0000_0000_0000_0000_0000,
            0x2001_002f_ffff_ffff_ffff_ffff_ffff_ffff,
        ))) || contains_any(&documentation(afi), v) || contains_opt(ula(afi), v) || within(
            v,
            klo,
            khi,
        ))
    }
}

} // verus!
