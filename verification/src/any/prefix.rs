use vstd::prelude::*;
use vstd::string::StringSliceAdditionalSpecFns;

use core::str::FromStr;

use crate::afi::{afi_width, AfiEnum, Ipv4, Ipv6};
use crate::bits::{hmask, nmask};
use crate::concrete;
use crate::concrete::display::prefix_display;
use crate::concrete::mask::{Host, Net, Type};
use crate::error::{Error, Kind};
use crate::model::{sub_succ, truncate, PrefixModel};
use crate::parser::ipv4::ipv4_prefix;
use crate::parser::ipv6::ipv6_prefix;
use crate::text::dec_text;
use super::addr::Address;

verus! {

/// A prefix length of either address family.
#[derive(Copy, Debug, Hash)]
pub enum Length {
    /// A prefix length of the IPv4 family.
    Ipv4(concrete::PrefixLength<Ipv4>),
    /// A prefix length of the IPv6 family.
    Ipv6(concrete::PrefixLength<Ipv6>),
}

impl View for Length {
    type V = (AfiEnum, u8);

    open spec fn view(&self) -> (AfiEnum, u8) {
        match self {
            Length::Ipv4(l) => (AfiEnum::Ipv4, l@),
            Length::Ipv6(l) => (AfiEnum::Ipv6, l@),
        }
    }
}

impl Length {
    /// The next longer prefix length.
    ///
    /// # Errors
    ///
    /// Fails with [`Kind::PrefixLength`] if `self` is already the maximum.
    pub fn increment(self) -> (r: Result<Self, Error>)
        ensures
            r is Ok <==> (self@.1 as u128) < afi_width(self@.0),
            r matches Ok(l) ==> l@ == (self@.0, (self@.1 + 1) as u8),
            r matches Err(e) ==> e.spec_kind() == Kind::PrefixLength,
    {
        match self {
            Length::Ipv4(l) => match l.increment() {
                Ok(n) => Ok(Length::Ipv4(n)),
                Err(e) => Err(e),
            },
            Length::Ipv6(l) => match l.increment() {
                Ok(n) => Ok(Length::Ipv6(n)),
                Err(e) => Err(e),
            },
        }
    }

    /// The next shorter prefix length.
    ///
    /// # Errors
    ///
    /// Fails with [`Kind::PrefixLength`] if `self` is zero.
    pub fn decrement(self) -> (r: Result<Self, Error>)
        ensures
            r is Ok <==> self@.1 > 0,
            r matches Ok(l) ==> l@ == (self@.0, (self@.1 - 1) as u8),
            r matches Err(e) ==> e.spec_kind() == Kind::PrefixLength,
    {
        match self {
            Length::Ipv4(l) => match l.decrement() {
                Ok(n) => Ok(Length::Ipv4(n)),
                Err(e) => Err(e),
            },
            Length::Ipv6(l) => match l.decrement() {
                Ok(n) => Ok(Length::Ipv6(n)),
                Err(e) => Err(e),
            },
        }
    }

    /// The prefix length as an integer.
    pub fn as_u8(&self) -> (r: u8)
        ensures
            r == self@.1,
    {
        match self {
            Length::Ipv4(l) => l.into_primitive(),
            Length::Ipv6(l) => l.into_primitive(),
        }
    }

    /// The decimal text of the prefix length.
    pub fn to_string(&self) -> (r: String)
        ensures
            r@ == dec_text(self@.1 as nat),
    {
        match self {
            Length::Ipv4(l) => l.to_string(),
            Length::Ipv6(l) => l.to_string(),
        }
    }
}

impl AfiEnum {
    /// A prefix length of this address family.
    ///
    /// # Errors
    ///
    /// Fails with [`Kind::PrefixLength`] if `len` exceeds the address width.
    pub fn new_prefix_length(self, len: u8) -> (r: Result<Length, Error>)
        ensures
            r is Ok <==> len as u128 <= afi_width(self),
            r matches Ok(l) ==> l@ == (self, len),
            r matches Err(e) ==> e.spec_kind() == Kind::PrefixLength,
    {
        match self {
            AfiEnum::Ipv4 => match concrete::PrefixLength::<Ipv4>::from_primitive(len) {
                Ok(l) => Ok(Length::Ipv4(l)),
                Err(e) => Err(e),
            },
            AfiEnum::Ipv6 => match concrete::PrefixLength::<Ipv6>::from_primitive(len) {
                Ok(l) => Ok(Length::Ipv6(l)),
                Err(e) => Err(e),
            },
        }
    }
}

/// A mask of either address family.
#[derive(Copy, Debug, Hash)]
pub enum Mask<T: Type> {
    /// An IPv4 mask.
    Ipv4(concrete::Mask<T, Ipv4>),
    /// An IPv6 mask.
    Ipv6(concrete::Mask<T, Ipv6>),
}

/// A netmask of either address family.
pub type Netmask = Mask<Net>;

/// A hostmask of either address family.
pub type Hostmask = Mask<Host>;

/// A bit-mask of either address family.
pub type Bitmask = Mask<concrete::mask::Bit>;

impl<T: Type> View for Mask<T> {
    type V = (AfiEnum, u128);

    open spec fn view(&self) -> (AfiEnum, u128) {
        match self {
            Mask::Ipv4(m) => (AfiEnum::Ipv4, m@),
            Mask::Ipv6(m) => (AfiEnum::Ipv6, m@),
        }
    }
}

impl Mask<Net> {
    /// The netmask of a prefix length.
    pub fn from_length(len: Length) -> (r: Self)
        ensures
            r@ == (len@.0, nmask(afi_width(len@.0), len@.1 as u128)),
    {
        match len {
            Length::Ipv4(l) => Mask::Ipv4(concrete::Netmask::from_length(l)),
            Length::Ipv6(l) => Mask::Ipv6(concrete::Netmask::from_length(l)),
        }
    }
}

impl Mask<Host> {
    /// The hostmask of a prefix length.
    pub fn from_length(len: Length) -> (r: Self)
        ensures
            r@ == (len@.0, hmask(afi_width(len@.0), len@.1 as u128)),
    {
        match len {
            Length::Ipv4(l) => Mask::Ipv4(concrete::Hostmask::from_length(l)),
            Length::Ipv6(l) => Mask::Ipv6(concrete::Hostmask::from_length(l)),
        }
    }
}

impl<T: Type> Clone for Mask<T> {
    fn clone(&self) -> (r: Self)
        ensures
            r == *self,
    {
        *self
    }
}

/// A prefix of either address family.
#[derive(Copy, Debug, Hash)]
pub enum Prefix {
    /// An IPv4 prefix.
    Ipv4(concrete::Prefix<Ipv4>),
    /// An IPv6 prefix.
    Ipv6(concrete::Prefix<Ipv6>),
}

impl View for Prefix {
    type V = (AfiEnum, PrefixModel);

    open spec fn view(&self) -> (AfiEnum, PrefixModel) {
        match self {
            Prefix::Ipv4(p) => (AfiEnum::Ipv4, p@),
            Prefix::Ipv6(p) => (AfiEnum::Ipv6, p@),
        }
    }
}

impl Prefix {
    /// The address family of the prefix.
    pub fn afi(&self) -> (r: AfiEnum)
        ensures
            r == self@.0,
    {
        match self {
            Prefix::Ipv4(_) => AfiEnum::Ipv4,
            Prefix::Ipv6(_) => AfiEnum::Ipv6,
        }
    }

    /// The network address of the prefix.
    pub fn network(&self) -> (r: Address)
        ensures
            r@ == (self@.0, self@.1.0),
    {
        match self {
            Prefix::Ipv4(p) => Address::Ipv4(p.network()),
            Prefix::Ipv6(p) => Address::Ipv6(p.network()),
        }
    }

    /// The hostmask of the prefix.
    pub fn hostmask(&self) -> (r: Hostmask)
        ensures
            r@ == (self@.0, hmask(afi_width(self@.0), self@.1.1 as u128)),
    {
        match self {
            Prefix::Ipv4(p) => Mask::Ipv4(p.hostmask()),
            Prefix::Ipv6(p) => Mask::Ipv6(p.hostmask()),
        }
    }

    /// The netmask of the prefix.
    pub fn netmask(&self) -> (r: Netmask)
        ensures
            r@ == (self@.0, nmask(afi_width(self@.0), self@.1.1 as u128)),
    {
        match self {
            Prefix::Ipv4(p) => Mask::Ipv4(p.netmask()),
            Prefix::Ipv6(p) => Mask::Ipv6(p.netmask()),
        }
    }

    /// The maximum prefix length of the address family.
    pub fn max_prefix_len(&self) -> (r: Length)
        ensures
            r@.0 == self@.0,
            r@.1 as u128 == afi_width(self@.0),
    {
        match self {
            Prefix::Ipv4(p) => Length::Ipv4(p.max_prefix_len()),
            Prefix::Ipv6(p) => Length::Ipv6(p.max_prefix_len()),
        }
    }

    /// The length of the prefix.
    pub fn prefix_len(&self) -> (r: Length)
        ensures
            r@ == (self@.0, self@.1.1),
    {
        match self {
            Prefix::Ipv4(p) => Length::Ipv4(p.prefix_len()),
            Prefix::Ipv6(p) => Length::Ipv6(p.prefix_len()),
        }
    }

    /// The highest address of the prefix.
    pub fn broadcast(&self) -> (r: Address)
        ensures
            r@ == (self@.0, self@.1.0 | hmask(afi_width(self@.0), self@.1.1 as u128)),
    {
        match self {
            Prefix::Ipv4(p) => Address::Ipv4(p.broadcast()),
            Prefix::Ipv6(p) => Address::Ipv6(p.broadcast()),
        }
    }

    /// The prefix one bit shorter covering `self`, or [`None`] for a
    /// zero-length prefix.
    pub fn supernet(&self) -> (r: Option<Self>)
        ensures
            r is Some <==> self@.1.1 > 0,
            r matches Some(s) ==> s@ == (self@.0, truncate(
                afi_width(self@.0),
                self@.1.0,
                (self@.1.1 - 1) as u8,
            )),
    {
        match self {
            Prefix::Ipv4(p) => match p.supernet() {
                Some(s) => Some(Prefix::Ipv4(s)),
                None => None,
            },
            Prefix::Ipv6(p) => match p.supernet() {
                Some(s) => Some(Prefix::Ipv6(s)),
                None => None,
            },
        }
    }

    /// Returns [`true`] if both prefixes are of one family and have the
    /// same supernet (two zero-length prefixes are siblings).
    pub fn is_sibling(&self, other: &Self) -> (r: bool)
        ensures
            r == (self@.0 == other@.0 && match (self@.1.1 > 0, other@.1.1 > 0) {
                (true, true) => truncate(afi_width(self@.0), self@.1.0, (self@.1.1 - 1) as u8)
                    == truncate(afi_width(self@.0), other@.1.0, (other@.1.1 - 1) as u8),
                (false, false) => true,
                _ => false,
            }),
    {
        match (self, other) {
            (Prefix::Ipv4(p), Prefix::Ipv4(q)) => p.is_sibling(q),
            (Prefix::Ipv6(p), Prefix::Ipv6(q)) => p.is_sibling(q),
            _ => false,
        }
    }

    /// The subprefixes of `self` of the given length.
    ///
    /// # Errors
    ///
    /// Fails with [`Kind::AfiMismatch`] if the length is of the other
    /// address family, and with [`Kind::PrefixLength`] if it is shorter than
    /// `self`.
    pub fn subprefixes(&self, new_prefix_length: Length) -> (r: Result<Subprefixes, Error>)
        ensures
            self@.0 != new_prefix_length@.0 ==> (r matches Err(e) && e.spec_kind()
                == Kind::AfiMismatch),
            self@.0 == new_prefix_length@.0 ==> (r is Ok <==> new_prefix_length@.1 >= self@.1.1),
            self@.0 == new_prefix_length@.0 && new_prefix_length@.1 < self@.1.1 ==> (r matches Err(e)
                && e.spec_kind() == Kind::PrefixLength),
            r matches Ok(s) ==> s@ == (self@.0, self@.1, Some(
                truncate(afi_width(self@.0), self@.1.0, new_prefix_length@.1),
            ), new_prefix_length@.1),
    {
        match (self, new_prefix_length) {
            (Prefix::Ipv4(p), Length::Ipv4(l)) => match p.subprefixes(l) {
                Ok(s) => Ok(Subprefixes::Ipv4(s)),
                Err(e) => Err(e),
            },
            (Prefix::Ipv6(p), Length::Ipv6(l)) => match p.subprefixes(l) {
                Ok(s) => Ok(Subprefixes::Ipv6(s)),
                Err(e) => Err(e),
            },
            _ => Err(Error::of_kind(Kind::AfiMismatch)),
        }
    }

    /// A prefix length of the family of `self`.
    ///
    /// # Errors
    ///
    /// Fails with [`Kind::PrefixLength`] if `length` exceeds the address
    /// width.
    pub fn new_prefix_length(&self, length: u8) -> (r: Result<Length, Error>)
        ensures
            r is Ok <==> length as u128 <= afi_width(self@.0),
            r matches Ok(l) ==> l@ == (self@.0, length),
            r matches Err(e) ==> e.spec_kind() == Kind::PrefixLength,
    {
        self.afi().new_prefix_length(length)
    }

    /// Returns [`true`] if both prefixes are equal.
    pub fn equals(&self, other: &Self) -> (r: bool)
        ensures
            r == (self@ == other@),
    {
        match (self, other) {
            (Prefix::Ipv4(p), Prefix::Ipv4(q)) => p.equals(q),
            (Prefix::Ipv6(p), Prefix::Ipv6(q)) => p.equals(q),
            _ => false,
        }
    }

    /// Parse the text of a prefix: as an IPv4 prefix, and failing that, as
    /// an IPv6 prefix.
    ///
    /// # Errors
    ///
    /// Fails with the error of the IPv6 attempt where both attempts fail.
    pub fn parse(s: &str) -> (r: Result<Self, Error>)
        ensures
            match ipv4_prefix(s.spec_bytes()) {
                Some((v, l)) if l <= 32 => r matches Ok(p) && p@ == (AfiEnum::Ipv4, truncate(32, v, l)),
                _ => match ipv6_prefix(s.spec_bytes()) {
                    Some((v, l)) => if l <= 128 {
                        r matches Ok(p) && p@ == (AfiEnum::Ipv6, truncate(128, v, l))
                    } else {
                        r matches Err(e) && e.spec_kind() == Kind::PrefixLength
                    },
                    None => r matches Err(e) && e.spec_kind() == Kind::ParserError,
                },
            },
    {
        match concrete::Prefix::<Ipv4>::parse(s) {
            Ok(p) => Ok(Prefix::Ipv4(p)),
            Err(_) => match concrete::Prefix::<Ipv6>::parse(s) {
                Ok(p) => Ok(Prefix::Ipv6(p)),
                Err(e) => Err(e),
            },
        }
    }

    /// The text of the prefix: its address, "/" and its length.
    pub fn to_string(&self) -> (r: String)
        ensures
            r@ == (match self {
                Prefix::Ipv4(p) => prefix_display::<Ipv4>(p@.0, p@.1),
                Prefix::Ipv6(p) => prefix_display::<Ipv6>(p@.0, p@.1),
            }),
    {
        match self {
            Prefix::Ipv4(p) => p.to_string(),
            Prefix::Ipv6(p) => p.to_string(),
        }
    }
}

impl Clone for Prefix {
    fn clone(&self) -> (r: Self)
        ensures
            r == *self,
    {
        *self
    }
}

impl PartialEq for Prefix {
    fn eq(&self, other: &Self) -> (r: bool) {
        self.equals(other)
    }
}

impl vstd::std_specs::cmp::PartialEqSpecImpl for Prefix {
    open spec fn obeys_eq_spec() -> bool {
        true
    }

    open spec fn eq_spec(&self, other: &Self) -> bool {
        self@ == other@
    }
}

impl Eq for Prefix {
}

impl FromStr for Prefix {
    type Err = Error;

    fn from_str(s: &str) -> (r: Result<Self, Error>)
        ensures
            match ipv4_prefix(s.spec_bytes()) {
                Some((v, l)) if l <= 32 => r matches Ok(p) && p@ == (AfiEnum::Ipv4, truncate(32, v, l)),
                _ => match ipv6_prefix(s.spec_bytes()) {
                    Some((v, l)) => if l <= 128 {
                        r matches Ok(p) && p@ == (AfiEnum::Ipv6, truncate(128, v, l))
                    } else {
                        r matches Err(e) && e.spec_kind() == Kind::PrefixLength
                    },
                    None => r matches Err(e) && e.spec_kind() == Kind::ParserError,
                },
            },
    {
        Self::parse(s)
    }
}

impl Clone for Length {
    fn clone(&self) -> (r: Self)
        ensures
            r == *self,
    {
        *self
    }
}

impl PartialEq for Length {
    fn eq(&self, other: &Self) -> (r: bool) {
        match (self, other) {
            (Length::Ipv4(a), Length::Ipv4(b)) => a.equals(b),
            (Length::Ipv6(a), Length::Ipv6(b)) => a.equals(b),
            _ => false,
        }
    }
}

impl vstd::std_specs::cmp::PartialEqSpecImpl for Length {
    open spec fn obeys_eq_spec() -> bool {
        true
    }

    open spec fn eq_spec(&self, other: &Self) -> bool {
        self@ == other@
    }
}

impl Eq for Length {
}

/// The subprefixes of a given length of a prefix of either address
/// family.
#[derive(Copy, Debug)]
pub enum Subprefixes {
    /// Subprefixes of an IPv4 prefix.
    Ipv4(concrete::Subprefixes<Ipv4>),
    /// Subprefixes of an IPv6 prefix.
    Ipv6(concrete::Subprefixes<Ipv6>),
}

impl View for Subprefixes {
    type V = (AfiEnum, PrefixModel, Option<PrefixModel>, u8);

    open spec fn view(&self) -> (AfiEnum, PrefixModel, Option<PrefixModel>, u8) {
        match self {
            Subprefixes::Ipv4(s) => (AfiEnum::Ipv4, s@.0, s@.1, s@.2),
            Subprefixes::Ipv6(s) => (AfiEnum::Ipv6, s@.0, s@.1, s@.2),
        }
    }
}

/// The model of an optional prefix of either address family.
pub open spec fn opt_any_view(p: Option<Prefix>) -> Option<(AfiEnum, PrefixModel)> {
    match p {
        Some(q) => Some(q@),
        None => None,
    }
}

impl Subprefixes {
    /// The next subprefix, in address order, or [`None`] after the last.
    pub fn next(&mut self) -> (r: Option<Prefix>)
        ensures
            opt_any_view(r) == (match old(self)@.2 {
                Some(q) => Some((old(self)@.0, q)),
                None => None,
            }),
            final(self)@.0 == old(self)@.0,
            final(self)@.1 == old(self)@.1,
            final(self)@.3 == old(self)@.3,
            final(self)@.2 == (match old(self)@.2 {
                Some(q) => sub_succ(afi_width(old(self)@.0), old(self)@.1, q),
                None => None,
            }),
    {
        match self {
            Subprefixes::Ipv4(s) => match s.next() {
                Some(p) => Some(Prefix::Ipv4(p)),
                None => None,
            },
            Subprefixes::Ipv6(s) => match s.next() {
                Some(p) => Some(Prefix::Ipv6(p)),
                None => None,
            },
        }
    }
}

impl Clone for Subprefixes {
    fn clone(&self) -> (r: Self)
        ensures
            r == *self,
    {
        *self
    }
}

} // verus!

verus! {

impl crate::traits::PrefixLength for Length {
    open spec fn increment_result(self, r: Result<Self, Error>) -> bool {
        &&& r is Ok <==> (self@.1 as u128) < afi_width(self@.0)
        &&& r matches Ok(l) ==> l@ == (self@.0, (self@.1 + 1) as u8)
        &&& r matches Err(e) ==> e.spec_kind() == Kind::PrefixLength
    }

    fn increment(self) -> (r: Result<Self, Error>) {
        Length::increment(self)
    }

    open spec fn decrement_result(self, r: Result<Self, Error>) -> bool {
        &&& r is Ok <==> self@.1 > 0
        &&& r matches Ok(l) ==> l@ == (self@.0, (self@.1 - 1) as u8)
        &&& r matches Err(e) ==> e.spec_kind() == Kind::PrefixLength
    }

    fn decrement(self) -> (r: Result<Self, Error>) {
        Length::decrement(self)
    }
}

impl crate::traits::Prefix for Prefix {
    type Address = Address;

    type PrefixLength = Length;

    type Hostmask = Hostmask;

    type Netmask = Netmask;

    open spec fn network_result(&self, r: Address) -> bool {
        &&& r@ == (self@.0, self@.1.0)
    }

    fn network(&self) -> (r: Address) {
        Prefix::network(self)
    }

    open spec fn hostmask_result(&self, r: Hostmask) -> bool {
        &&& r@ == (self@.0, hmask(afi_width(self@.0), self@.1.1 as u128))
    }

    fn hostmask(&self) -> (r: Hostmask) {
        Prefix::hostmask(self)
    }

    open spec fn netmask_result(&self, r: Netmask) -> bool {
        &&& r@ == (self@.0, nmask(afi_width(self@.0), self@.1.1 as u128))
    }

    fn netmask(&self) -> (r: Netmask) {
        Prefix::netmask(self)
    }

    open spec fn max_prefix_len_result(&self, r: Length) -> bool {
        &&& r@.0 == self@.0
        &&& r@.1 as u128 == afi_width(self@.0)
    }

    fn max_prefix_len(&self) -> (r: Length) {
        Prefix::max_prefix_len(self)
    }

    open spec fn prefix_len_result(&self, r: Length) -> bool {
        &&& r@ == (self@.0, self@.1.1)
    }

    fn prefix_len(&self) -> (r: Length) {
        Prefix::prefix_len(self)
    }

    open spec fn broadcast_result(&self, r: Address) -> bool {
        &&& r@ == (self@.0, self@.1.0 | hmask(afi_width(self@.0), self@.1.1 as u128))
    }

    fn broadcast(&self) -> (r: Address) {
        Prefix::broadcast(self)
    }

    open spec fn supernet_result(&self, r: Option<Self>) -> bool {
        &&& r is Some <==> self@.1.1 > 0
        &&& r matches Some(s) ==> s@ == (self@.0, truncate(afi_width(self@.0), self@.1.0, (self@.1.1 - 1) as u8))
    }

    fn supernet(&self) -> (r: Option<Self>) {
        Prefix::supernet(self)
    }

    open spec fn is_sibling_result(&self, other: &Self, r: bool) -> bool {
        &&& r == (self@.0 == other@.0 && match (self@.1.1 > 0, other@.1.1 > 0) { (true, true) => truncate(afi_width(self@.0), self@.1.0, (self@.1.1 - 1) as u8) == truncate(afi_width(self@.0), other@.1.0, (other@.1.1 - 1) as u8), (false, false) => true, _ => false, })
    }

    fn is_sibling(&self, other: &Self) -> (r: bool) {
        Prefix::is_sibling(self, other)
    }
}

} // verus!

verus! {

impl<T: Type> crate::traits::Mask for Mask<T> {
}

impl crate::traits::Netmask for Netmask {
}

impl crate::traits::Hostmask for Hostmask {
}

impl crate::traits::Bitmask for Bitmask {
}

} // verus!
