use vstd::prelude::*;
use vstd::string::StringSliceAdditionalSpecFns;

use crate::bits::{be_bytes, be_byte, be_value_of, ones, valid_width};
use crate::error::{Error, Kind};
pub use crate::family::{Ipv4, Ipv6};

verus! {

/// Enumeration of concrete address families.
#[derive(Clone, Copy, Debug, Hash, PartialEq, Eq, Structural)]
pub enum AfiEnum {
    /// The IPv4 address family.
    Ipv4,
    /// The IPv6 address family.
    Ipv6,
}

impl AfiEnum {
    /// The lower-case name of the address family.
    pub fn name(&self) -> (r: &'static str)
        ensures
            r@ == (match self {
                AfiEnum::Ipv4 => "ipv4"@,
                AfiEnum::Ipv6 => "ipv6"@,
            }),
    {
        match self {
            AfiEnum::Ipv4 => "ipv4",
            AfiEnum::Ipv6 => "ipv6",
        }
    }
}

/// An IP address family.
///
/// Implemented by [`Ipv4`] and [`Ipv6`].
pub trait Afi: Sized + Copy {
    /// The big-endian byte array of an address of this family.
    type Octets;

    /// The address family enumeration value of `Self`.
    spec fn spec_afi() -> AfiEnum;

    /// The number of bits in an address of this family.
    spec fn spec_width() -> u128;

    /// The byte sequence held by an octets array.
    spec fn spec_octets(o: Self::Octets) -> Seq<u8>;

    proof fn lemma_afi()
        ensures
            Self::spec_afi() == AfiEnum::Ipv4 ==> Self::spec_width() == 32,
            Self::spec_afi() == AfiEnum::Ipv6 ==> Self::spec_width() == 128,
            valid_width(Self::spec_width()),
    ;

    /// Get the [`AfiEnum`] variant associated with `Self`.
    fn as_afi() -> (r: AfiEnum)
        ensures
            r == Self::spec_afi(),
    ;

    /// The maximum prefix-length (the address width in bits).
    fn max_length() -> (r: u8)
        ensures
            r as u128 == Self::spec_width(),
    ;

    /// The big-endian octets of an address value.
    fn octets_of(v: u128) -> (r: Self::Octets)
        requires
            v <= ones(Self::spec_width()),
        ensures
            Self::spec_octets(r) == be_bytes(v, Self::spec_width()),
    ;

    /// The address value held by big-endian octets.
    fn value_of(o: Self::Octets) -> (r: u128)
        ensures
            r <= ones(Self::spec_width()),
            be_bytes(r, Self::spec_width()) == Self::spec_octets(o),
    ;

    /// The value of the address of this family written as the text `t`.
    spec fn address_text(t: Seq<u8>) -> Option<u128>;

    /// The address value and length of the prefix of this family written as
    /// the text `t`.
    spec fn prefix_text(t: Seq<u8>) -> Option<(u128, u8)>;

    /// The address value, length and length bounds of the prefix range of
    /// this family written as the text `t`.
    spec fn range_text(t: Seq<u8>) -> Option<(u128, u8, u8, u8)>;

    /// Parse the text of an address of this family.
    ///
    /// # Errors
    ///
    /// Fails with [`Kind::ParserError`] if `input` is not such a text.
    fn parse_addr(input: &str) -> (r: Result<u128, Error>)
        ensures
            match Self::address_text(input.spec_bytes()) {
                Some(v) => r matches Ok(p) && p == v && p <= ones(Self::spec_width()),
                None => r matches Err(e) && e.spec_kind() == Kind::ParserError,
            },
    ;

    /// Parse the text of a prefix of this family into its address and
    /// (unchecked) length.
    ///
    /// # Errors
    ///
    /// Fails with [`Kind::ParserError`] if `input` is not such a text.
    fn parse_prefix(input: &str) -> (r: Result<(u128, u8), Error>)
        ensures
            match Self::prefix_text(input.spec_bytes()) {
                Some((v, l)) => r matches Ok((p, n)) && p == v && n == l && p <= ones(Self::spec_width()),
                None => r matches Err(e) && e.spec_kind() == Kind::ParserError,
            },
    ;

    /// Parse the text of a prefix range of this family into its address,
    /// length and length bounds (all unchecked).
    ///
    /// # Errors
    ///
    /// Fails with [`Kind::ParserError`] if `input` is not such a text.
    fn parse_range(input: &str) -> (r: Result<(u128, u8, u8, u8), Error>)
        ensures
            match Self::range_text(input.spec_bytes()) {
                Some((v, l, lo, hi)) => r matches Ok((p, a, b, c)) && p == v && a == l
                    && b == lo && c == hi && p <= ones(Self::spec_width()),
                None => r matches Err(e) && e.spec_kind() == Kind::ParserError,
            },
    ;
}

/// The width in bits of the addresses of a family.
pub open spec fn afi_width(afi: AfiEnum) -> u128 {
    match afi {
        AfiEnum::Ipv4 => 32,
        AfiEnum::Ipv6 => 128,
    }
}

/// The width in bits of addresses of family `A`.
pub open spec fn width<A: Afi>() -> u128 {
    A::spec_width()
}

/// A class of address families: a single family ([`Ipv4`], [`Ipv6`]), or
/// either of them ([`Any`](crate::any::Any)). It names the types of the IP
/// objects of the class.
pub trait AfiClass {
    /// The address type of the class.
    type Address: crate::traits::Address;
    /// The interface type of the class.
    type Interface: crate::traits::Interface;
    /// The prefix-length type of the class.
    type PrefixLength: crate::traits::PrefixLength;
    /// The prefix type of the class.
    type Prefix: crate::traits::Prefix;
    /// The netmask type of the class.
    type Netmask: crate::traits::Netmask;
    /// The hostmask type of the class.
    type Hostmask: crate::traits::Hostmask;
    /// The prefix-range type of the class.
    type PrefixRange: crate::traits::PrefixRange;
    /// The prefix-set type of the class.
    type PrefixSet: crate::traits::PrefixSet;

    /// The class, as an enumeration value.
    spec fn spec_afi_class() -> crate::any::AfiClass;

    /// Get the [`AfiClass`](crate::any::AfiClass) variant of `Self`.
    fn as_afi_class() -> (r: crate::any::AfiClass)
        ensures
            r == Self::spec_afi_class(),
    ;
}

impl AfiClass for Ipv4 {
    type Address = crate::concrete::Address<Ipv4>;
    type Interface = crate::concrete::Interface<Ipv4>;
    type PrefixLength = crate::concrete::PrefixLength<Ipv4>;
    type Prefix = crate::concrete::Prefix<Ipv4>;
    type Netmask = crate::concrete::Netmask<Ipv4>;
    type Hostmask = crate::concrete::Hostmask<Ipv4>;
    type PrefixRange = crate::concrete::PrefixRange<Ipv4>;
    type PrefixSet = crate::concrete::PrefixSet<Ipv4>;

    open spec fn spec_afi_class() -> crate::any::AfiClass {
        crate::any::AfiClass::Ipv4
    }

    fn as_afi_class() -> (r: crate::any::AfiClass) {
        crate::any::AfiClass::Ipv4
    }
}

impl AfiClass for Ipv6 {
    type Address = crate::concrete::Address<Ipv6>;
    type Interface = crate::concrete::Interface<Ipv6>;
    type PrefixLength = crate::concrete::PrefixLength<Ipv6>;
    type Prefix = crate::concrete::Prefix<Ipv6>;
    type Netmask = crate::concrete::Netmask<Ipv6>;
    type Hostmask = crate::concrete::Hostmask<Ipv6>;
    type PrefixRange = crate::concrete::PrefixRange<Ipv6>;
    type PrefixSet = crate::concrete::PrefixSet<Ipv6>;

    open spec fn spec_afi_class() -> crate::any::AfiClass {
        crate::any::AfiClass::Ipv6
    }

    fn as_afi_class() -> (r: crate::any::AfiClass) {
        crate::any::AfiClass::Ipv6
    }
}

impl AfiClass for crate::any::Any {
    type Address = crate::any::Address;
    type Interface = crate::any::Interface;
    type PrefixLength = crate::any::Length;
    type Prefix = crate::any::Prefix;
    type Netmask = crate::any::Netmask;
    type Hostmask = crate::any::Hostmask;
    type PrefixRange = crate::any::Range;
    type PrefixSet = crate::any::PrefixSet;

    open spec fn spec_afi_class() -> crate::any::AfiClass {
        crate::any::AfiClass::Any
    }

    fn as_afi_class() -> (r: crate::any::AfiClass) {
        crate::any::AfiClass::Any
    }
}

} // verus!
