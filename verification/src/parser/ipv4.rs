use vstd::prelude::*;
use vstd::string::StringSliceAdditionalSpecFns;

use crate::bits::{be_bytes, be_value_of, lemma_value_of_bytes, ones, value_of_bytes};
use crate::error::{Error, Kind};
use super::grammar::{ipv4_octets, split, with_length, with_length_range};
use super::scan::{parse_dec, parse_ipv4_octets, split_pair, split_triple};

verus! {

/// The text of an IPv4 prefix: an address, "/" and a length.
pub open spec fn ipv4_prefix_text(t: Seq<u8>) -> Option<(Seq<u8>, u8)> {
    with_length(t, |x: Seq<u8>| ipv4_octets(x))
}

/// The text of an IPv4 prefix range: an address, "/", a length, and the
/// lower and upper bounds of the lengths, separated by ",".
pub open spec fn ipv4_range_text(t: Seq<u8>) -> Option<(Seq<u8>, u8, u8, u8)> {
    with_length_range(t, |x: Seq<u8>| ipv4_octets(x))
}

/// The value of the IPv4 address written as `t`.
pub open spec fn ipv4_address(t: Seq<u8>) -> Option<u128> {
    match ipv4_octets(t) {
        Some(o) => Some(value_of_bytes(o, 32)),
        None => None,
    }
}

/// The address value and length of the IPv4 prefix written as `t`.
pub open spec fn ipv4_prefix(t: Seq<u8>) -> Option<(u128, u8)> {
    match ipv4_prefix_text(t) {
        Some((o, l)) => Some((value_of_bytes(o, 32), l)),
        None => None,
    }
}

/// The address value, length and length bounds of the IPv4 prefix range
/// written as `t`.
pub open spec fn ipv4_range(t: Seq<u8>) -> Option<(u128, u8, u8, u8)> {
    match ipv4_range_text(t) {
        Some((o, l, lo, hi)) => Some((value_of_bytes(o, 32), l, lo, hi)),
        None => None,
    }
}

fn octets_value(s: &[u8], lo: usize, hi: usize) -> (r: Option<u32>)
    requires
        lo <= hi <= s@.len(),
    ensures
        match ipv4_octets(s@.subrange(lo as int, hi as int)) {
            Some(o) => r matches Some(v) && be_bytes(v as u128, 32) == o && value_of_bytes(o, 32)
                == v as u128,
            None => r is None,
        },
{
    match parse_ipv4_octets(s, lo, hi) {
        Some(o) => {
            let v = be_value_of(&o);
            proof {
                lemma_value_of_bytes(v, 32);
            }
            Some(v as u32)
        },
        None => None,
    }
}

/// Parse the text of an IPv4 address into its integer value.
///
/// # Errors
///
/// Fails with [`Kind::ParserError`] unless the text is four decimal octets
/// separated by dots.
pub fn parse_addr(input: &str) -> (r: Result<u32, Error>)
    ensures
        match ipv4_address(input.spec_bytes()) {
            Some(a) => r matches Ok(v) && v as u128 == a,
            None => r matches Err(e) && e.spec_kind() == Kind::ParserError,
        },
{
    let s = input.as_bytes();
    proof {
        assert(s@.subrange(0, s@.len() as int) =~= s@);
    }
    match octets_value(s, 0, s.len()) {
        Some(v) => Ok(v),
        None => Err(Error::of_kind(Kind::ParserError)),
    }
}

/// Parse the text of an IPv4 prefix into the value of its address and its
/// length.
///
/// # Errors
///
/// Fails with [`Kind::ParserError`] unless the text is an address, "/" and a
/// decimal length.
pub fn parse_prefix(input: &str) -> (r: Result<(u32, u8), Error>)
    ensures
        match ipv4_prefix(input.spec_bytes()) {
            Some((a, l)) => r matches Ok((v, n)) && v as u128 == a && n == l,
            None => r matches Err(e) && e.spec_kind() == Kind::ParserError,
        },
{
    let s = input.as_bytes();
    let n = s.len();
    proof {
        assert(s@.subrange(0, n as int) =~= s@);
    }
    match split_pair(s, 0, n, 47) {
        Some(j) => match (octets_value(s, 0, j), parse_dec(s, j + 1, n)) {
            (Some(v), Some(l)) => Ok((v, l)),
            _ => Err(Error::of_kind(Kind::ParserError)),
        },
        None => Err(Error::of_kind(Kind::ParserError)),
    }
}

/// Parse the text of an IPv4 prefix range into the value of its address,
/// its length, and the bounds of the lengths of its members.
///
/// # Errors
///
/// Fails with [`Kind::ParserError`] unless the text is an address, "/" and
/// three decimal numbers separated by ",".
pub fn parse_range(input: &str) -> (r: Result<(u32, u8, u8, u8), Error>)
    ensures
        match ipv4_range(input.spec_bytes()) {
            Some((x, l, lo, hi)) => r matches Ok((v, a, b, c)) && v as u128 == x && a == l && b == lo
                && c == hi,
            None => r matches Err(e) && e.spec_kind() == Kind::ParserError,
        },
{
    let s = input.as_bytes();
    let n = s.len();
    proof {
        assert(s@.subrange(0, n as int) =~= s@);
    }
    match split_pair(s, 0, n, 47) {
        Some(j) => {
            proof {
                assert(s@.subrange(j + 1, n as int) =~= split(s@, 47)[1]);
            }
            match split_triple(s, j + 1, n, 44) {
                Some((k1, k2)) => match (
                    octets_value(s, 0, j),
                    parse_dec(s, j + 1, k1),
                    parse_dec(s, k1 + 1, k2),
                    parse_dec(s, k2 + 1, n),
                ) {
                    (Some(v), Some(l), Some(lo), Some(hi)) => Ok((v, l, lo, hi)),
                    _ => Err(Error::of_kind(Kind::ParserError)),
                },
                None => Err(Error::of_kind(Kind::ParserError)),
            }
        },
        None => Err(Error::of_kind(Kind::ParserError)),
    }
}

} // verus!
