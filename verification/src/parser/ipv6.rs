use vstd::prelude::*;
use vstd::string::StringSliceAdditionalSpecFns;

use crate::bits::{be_segments, be_value_of_segments, lemma_value_of_segments, value_of_segments};
use crate::error::{Error, Kind};
use super::grammar::{ipv6_segments, split, with_length, with_length_range};
use super::scan::{opt_groups, parse_dec, parse_ipv6_segments, split_pair, split_triple};

verus! {

/// The text of an IPv6 prefix: an address, "/" and a length.
pub open spec fn ipv6_prefix_text(t: Seq<u8>) -> Option<(Seq<u16>, u8)> {
    with_length(t, |x: Seq<u8>| ipv6_segments(x))
}

/// The text of an IPv6 prefix range: an address, "/", a length, and the
/// lower and upper bounds of the lengths, separated by ",".
pub open spec fn ipv6_range_text(t: Seq<u8>) -> Option<(Seq<u16>, u8, u8, u8)> {
    with_length_range(t, |x: Seq<u8>| ipv6_segments(x))
}

/// The value of the IPv6 address written as `t`.
pub open spec fn ipv6_address(t: Seq<u8>) -> Option<u128> {
    match ipv6_segments(t) {
        Some(g) => Some(value_of_segments(g)),
        None => None,
    }
}

/// The address value and length of the IPv6 prefix written as `t`.
pub open spec fn ipv6_prefix(t: Seq<u8>) -> Option<(u128, u8)> {
    match ipv6_prefix_text(t) {
        Some((g, l)) => Some((value_of_segments(g), l)),
        None => None,
    }
}

/// The address value, length and length bounds of the IPv6 prefix range
/// written as `t`.
pub open spec fn ipv6_range(t: Seq<u8>) -> Option<(u128, u8, u8, u8)> {
    match ipv6_range_text(t) {
        Some((g, l, lo, hi)) => Some((value_of_segments(g), l, lo, hi)),
        None => None,
    }
}

fn segments_value(s: &[u8], lo: usize, hi: usize) -> (r: Option<u128>)
    requires
        lo <= hi <= s@.len(),
    ensures
        match ipv6_segments(s@.subrange(lo as int, hi as int)) {
            Some(g) => r matches Some(v) && be_segments(v) == g && value_of_segments(g) == v,
            None => r is None,
        },
{
    let g = parse_ipv6_segments(s, lo, hi);
    match g {
        Some(v) => {
            proof {
                assert(opt_groups(Some(v)) == Some(v@));
            }
            let x = be_value_of_segments(v.as_slice());
            proof {
                lemma_value_of_segments(x);
            }
            Some(x)
        },
        None => None,
    }
}

/// Parse the text of an IPv6 address into its integer value.
///
/// # Errors
///
/// Fails with [`Kind::ParserError`] unless the text is an IPv6 address in
/// the colon separated hexadecimal notation, with at most one "::" and
/// possibly an embedded IPv4 address at its end.
pub fn parse_addr(input: &str) -> (r: Result<u128, Error>)
    ensures
        match ipv6_address(input.spec_bytes()) {
            Some(a) => r matches Ok(v) && v == a,
            None => r matches Err(e) && e.spec_kind() == Kind::ParserError,
        },
{
    let s = input.as_bytes();
    proof {
        assert(s@.subrange(0, s@.len() as int) =~= s@);
    }
    match segments_value(s, 0, s.len()) {
        Some(v) => Ok(v),
        None => Err(Error::of_kind(Kind::ParserError)),
    }
}

/// Parse the text of an IPv6 prefix into the value of its address and its
/// length.
///
/// # Errors
///
/// Fails with [`Kind::ParserError`] unless the text is an address, "/" and a
/// decimal length.
pub fn parse_prefix(input: &str) -> (r: Result<(u128, u8), Error>)
    ensures
        match ipv6_prefix(input.spec_bytes()) {
            Some((a, l)) => r matches Ok((v, n)) && v == a && n == l,
            None => r matches Err(e) && e.spec_kind() == Kind::ParserError,
        },
{
    let s = input.as_bytes();
    let n = s.len();
    proof {
        assert(s@.subrange(0, n as int) =~= s@);
    }
    match split_pair(s, 0, n, 47) {
        Some(j) => match (segments_value(s, 0, j), parse_dec(s, j + 1, n)) {
            (Some(v), Some(l)) => Ok((v, l)),
            _ => Err(Error::of_kind(Kind::ParserError)),
        },
        None => Err(Error::of_kind(Kind::ParserError)),
    }
}

/// Parse the text of an IPv6 prefix range into the value of its address,
/// its length, and the bounds of the lengths of its members.
///
/// # Errors
///
/// Fails with [`Kind::ParserError`] unless the text is an address, "/" and
/// three decimal numbers separated by ",".
pub fn parse_range(input: &str) -> (r: Result<(u128, u8, u8, u8), Error>)
    ensures
        match ipv6_range(input.spec_bytes()) {
            Some((x, l, lo, hi)) => r matches Ok((v, a, b, c)) && v == x && a == l && b == lo && c
                == hi,
            None => r matches Err(e) && e.spec_kind() == Kind::ParserError,
        },
{
    let s = input.as_bytes();
    let n = s.len();
    proof {
        assert(s@.subrange(0, n as int) =~= s@);
    }
    match split_pair(s, 0, n, 47) {
        Some(j) => {
            proof {
                assert(s@.subrange(j + 1, n as int) =~= split(s@, 47)[1]);
            }
            match split_triple(s, j + 1, n, 44) {
                Some((k1, k2)) => match (
                    segments_value(s, 0, j),
                    parse_dec(s, j + 1, k1),
                    parse_dec(s, k1 + 1, k2),
                    parse_dec(s, k2 + 1, n),
                ) {
                    (Some(v), Some(l), Some(lo), Some(hi)) => Ok((v, l, lo, hi)),
                    _ => Err(Error::of_kind(Kind::ParserError)),
                },
                None => Err(Error::of_kind(Kind::ParserError)),
            }
        },
        None => Err(Error::of_kind(Kind::ParserError)),
    }
}

} // verus!
