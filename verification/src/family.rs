use vstd::prelude::*;

use crate::afi::{Afi, AfiEnum};
use crate::bits::{be_bytes, be_byte, be_value_of};
use crate::error::Error;
use crate::parser::{ipv4, ipv6};

verus! {

/// The IPv4 address family.
#[derive(Clone, Copy, Debug, Hash, PartialEq, Eq, PartialOrd, Ord)]
pub struct Ipv4;

/// The IPv6 address family.
#[derive(Clone, Copy, Debug, Hash, PartialEq, Eq, PartialOrd, Ord)]
pub struct Ipv6;

impl Afi for Ipv4 {
    type Octets = [u8; 4];

    open spec fn spec_afi() -> AfiEnum {
        AfiEnum::Ipv4
    }

    open spec fn spec_width() -> u128 {
        32
    }

    open spec fn spec_octets(o: [u8; 4]) -> Seq<u8> {
        o@
    }

    proof fn lemma_afi() {
    }

    fn as_afi() -> (r: AfiEnum) {
        AfiEnum::Ipv4
    }

    fn max_length() -> (r: u8) {
        32
    }

    fn octets_of(v: u128) -> (r: [u8; 4]) {
        let mut r = [0u8; 4];
        let mut i: usize = 0;
        while i < 4
            invariant
                i <= 4,
                r@.len() == 4,
                forall|j: int| 0 <= j < i ==> r@[j] == be_byte(v, 32, j),
            decreases 4 - i,
        {
            let shift: u32 = (24 - 8 * i) as u32;
            r[i] = (v >> shift) as u8;
            i = i + 1;
        }
        assert(r@ =~= be_bytes(v, 32));
        r
    }

    fn value_of(o: [u8; 4]) -> (r: u128) {
        be_value_of(&o)
    }

    open spec fn address_text(t: Seq<u8>) -> Option<u128> {
        ipv4::ipv4_address(t)
    }

    open spec fn prefix_text(t: Seq<u8>) -> Option<(u128, u8)> {
        ipv4::ipv4_prefix(t)
    }

    open spec fn range_text(t: Seq<u8>) -> Option<(u128, u8, u8, u8)> {
        ipv4::ipv4_range(t)
    }

    fn parse_addr(input: &str) -> (r: Result<u128, Error>) {
        match ipv4::parse_addr(input) {
            Ok(v) => Ok(v as u128),
            Err(e) => Err(e),
        }
    }

    fn parse_prefix(input: &str) -> (r: Result<(u128, u8), Error>) {
        match ipv4::parse_prefix(input) {
            Ok((v, l)) => Ok((v as u128, l)),
            Err(e) => Err(e),
        }
    }

    fn parse_range(input: &str) -> (r: Result<(u128, u8, u8, u8), Error>) {
        match ipv4::parse_range(input) {
            Ok((v, l, lo, hi)) => Ok((v as u128, l, lo, hi)),
            Err(e) => Err(e),
        }
    }
}

impl Afi for Ipv6 {
    type Octets = [u8; 16];

    open spec fn spec_afi() -> AfiEnum {
        AfiEnum::Ipv6
    }

    open spec fn spec_width() -> u128 {
        128
    }

    open spec fn spec_octets(o: [u8; 16]) -> Seq<u8> {
        o@
    }

    proof fn lemma_afi() {
    }

    fn as_afi() -> (r: AfiEnum) {
        AfiEnum::Ipv6
    }

    fn max_length() -> (r: u8) {
        128
    }

    fn octets_of(v: u128) -> (r: [u8; 16]) {
        let mut r = [0u8; 16];
        let mut i: usize = 0;
        while i < 16
            invariant
                i <= 16,
                r@.len() == 16,
                forall|j: int| 0 <= j < i ==> r@[j] == be_byte(v, 128, j),
            decreases 16 - i,
        {
            let shift: u32 = (120 - 8 * i) as u32;
            r[i] = (v >> shift) as u8;
            i = i + 1;
        }
        assert(r@ =~= be_bytes(v, 128));
        r
    }

    fn value_of(o: [u8; 16]) -> (r: u128) {
        be_value_of(&o)
    }

    open spec fn address_text(t: Seq<u8>) -> Option<u128> {
        ipv6::ipv6_address(t)
    }

    open spec fn prefix_text(t: Seq<u8>) -> Option<(u128, u8)> {
        ipv6::ipv6_prefix(t)
    }

    open spec fn range_text(t: Seq<u8>) -> Option<(u128, u8, u8, u8)> {
        ipv6::ipv6_range(t)
    }

    fn parse_addr(input: &str) -> (r: Result<u128, Error>) {
        ipv6::parse_addr(input)
    }

    fn parse_prefix(input: &str) -> (r: Result<(u128, u8), Error>) {
        ipv6::parse_prefix(input)
    }

    fn parse_range(input: &str) -> (r: Result<(u128, u8, u8, u8), Error>) {
        ipv6::parse_range(input)
    }
}

} // verus!
