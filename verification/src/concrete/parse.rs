use vstd::prelude::*;
use vstd::string::StringSliceAdditionalSpecFns;

use core::str::FromStr;

use crate::afi::{width, Afi};
use crate::error::{Error, Kind};
use crate::model::truncate;
use crate::parser::grammar::dec_number;
use crate::parser::length::parse_length;
use super::addr::Address;
use super::interface::Interface;
use super::len::PrefixLength;
use super::prefix::Prefix;
use super::range::Range;

verus! {

impl<A: Afi> Address<A> {
    /// Parse the text of an address of family `A`.
    ///
    /// # Errors
    ///
    /// Fails with [`Kind::ParserError`] if `s` is not the text of an address
    /// of family `A`.
    pub fn parse(s: &str) -> (r: Result<Self, Error>)
        ensures
            match A::address_text(s.spec_bytes()) {
                Some(v) => r matches Ok(a) && a@ == v,
                None => r matches Err(e) && e.spec_kind() == Kind::ParserError,
            },
    {
        match A::parse_addr(s) {
            Ok(p) => Ok(Address::new(p)),
            Err(e) => Err(e),
        }
    }
}

impl<A: Afi> PrefixLength<A> {
    /// Parse the decimal text of a prefix length of family `A`.
    ///
    /// # Errors
    ///
    /// Fails with [`Kind::ParserError`] if `s` is not a decimal number, and
    /// with [`Kind::PrefixLength`] if it exceeds the address width.
    pub fn parse(s: &str) -> (r: Result<Self, Error>)
        ensures
            match dec_number(s.spec_bytes()) {
                Some(l) => if l as u128 <= width::<A>() {
                    r matches Ok(x) && x@ == l
                } else {
                    r matches Err(e) && e.spec_kind() == Kind::PrefixLength
                },
                None => r matches Err(e) && e.spec_kind() == Kind::ParserError,
            },
    {
        match parse_length(s) {
            Ok(l) => Self::from_primitive(l),
            Err(e) => Err(e),
        }
    }
}

impl<A: Afi> Prefix<A> {
    /// Parse the text of a prefix of family `A`: an address, "/" and a
    /// length. The host bits of the address are set to zero.
    ///
    /// # Errors
    ///
    /// Fails with [`Kind::ParserError`] if `s` is not such a text, and with
    /// [`Kind::PrefixLength`] if the length exceeds the address width.
    pub fn parse(s: &str) -> (r: Result<Self, Error>)
        ensures
            match A::prefix_text(s.spec_bytes()) {
                Some((v, l)) => if l as u128 <= width::<A>() {
                    r matches Ok(p) && p@ == truncate(width::<A>(), v, l)
                } else {
                    r matches Err(e) && e.spec_kind() == Kind::PrefixLength
                },
                None => r matches Err(e) && e.spec_kind() == Kind::ParserError,
            },
    {
        match A::parse_prefix(s) {
            Ok((p, l)) => match PrefixLength::from_primitive(l) {
                Ok(length) => Ok(Prefix::new(Address::new(p), length)),
                Err(e) => Err(e),
            },
            Err(e) => Err(e),
        }
    }
}

impl<A: Afi> Interface<A> {
    /// Parse the text of an interface of family `A`: an address, "/" and a
    /// length. The address is kept as written.
    ///
    /// # Errors
    ///
    /// Fails with [`Kind::ParserError`] if `s` is not such a text, and with
    /// [`Kind::PrefixLength`] if the length exceeds the address width.
    pub fn parse(s: &str) -> (r: Result<Self, Error>)
        ensures
            match A::prefix_text(s.spec_bytes()) {
                Some((v, l)) => if l as u128 <= width::<A>() {
                    r matches Ok(i) && i@ == (v, l)
                } else {
                    r matches Err(e) && e.spec_kind() == Kind::PrefixLength
                },
                None => r matches Err(e) && e.spec_kind() == Kind::ParserError,
            },
    {
        match A::parse_prefix(s) {
            Ok((p, l)) => match PrefixLength::from_primitive(l) {
                Ok(length) => Ok(Interface::new(Address::new(p), length)),
                Err(e) => Err(e),
            },
            Err(e) => Err(e),
        }
    }
}

impl<A: Afi> Range<A> {
    /// Parse the text of a prefix range of family `A`: an address, "/",
    /// and the prefix length, lower bound and upper bound separated by ",".
    ///
    /// # Errors
    ///
    /// Fails with [`Kind::ParserError`] if `s` is not such a text, with
    /// [`Kind::PrefixLength`] if a length exceeds the address width, and
    /// with [`Kind::PrefixLengthRange`] unless the prefix length is at most
    /// the lower bound, which is at most the upper bound.
    pub fn parse(s: &str) -> (r: Result<Self, Error>)
        ensures
            match A::range_text(s.spec_bytes()) {
                Some((v, l, lo, hi)) => if l as u128 > width::<A>() || lo as u128 > width::<A>()
                    || hi as u128 > width::<A>() {
                    r matches Err(e) && e.spec_kind() == Kind::PrefixLength
                } else if l <= lo && lo <= hi {
                    r matches Ok(g) && g@ == (truncate(width::<A>(), v, l), lo, hi)
                } else {
                    r matches Err(e) && e.spec_kind() == Kind::PrefixLengthRange
                },
                None => r matches Err(e) && e.spec_kind() == Kind::ParserError,
            },
    {
        match A::parse_range(s) {
            Ok((p, l, lo, hi)) => {
                let lower = match PrefixLength::from_primitive(lo) {
                    Ok(x) => x,
                    Err(e) => return Err(e),
                };
                let upper = match PrefixLength::from_primitive(hi) {
                    Ok(x) => x,
                    Err(e) => return Err(e),
                };
                let length = match PrefixLength::from_primitive(l) {
                    Ok(x) => x,
                    Err(e) => return Err(e),
                };
                Range::from_bounds(Prefix::new(Address::new(p), length), lower, upper)
            },
            Err(e) => Err(e),
        }
    }
}

impl<A: Afi> FromStr for Address<A> {
    type Err = Error;

    fn from_str(s: &str) -> (r: Result<Self, Error>)
        ensures
            match A::address_text(s.spec_bytes()) {
                Some(v) => r matches Ok(a) && a@ == v,
                None => r matches Err(e) && e.spec_kind() == Kind::ParserError,
            },
    {
        Self::parse(s)
    }
}

impl<A: Afi> FromStr for PrefixLength<A> {
    type Err = Error;

    fn from_str(s: &str) -> (r: Result<Self, Error>)
        ensures
            match dec_number(s.spec_bytes()) {
                Some(l) => if l as u128 <= width::<A>() {
                    r matches Ok(x) && x@ == l
                } else {
                    r matches Err(e) && e.spec_kind() == Kind::PrefixLength
                },
                None => r matches Err(e) && e.spec_kind() == Kind::ParserError,
            },
    {
        Self::parse(s)
    }
}

impl<A: Afi> FromStr for Prefix<A> {
    type Err = Error;

    fn from_str(s: &str) -> (r: Result<Self, Error>)
        ensures
            match A::prefix_text(s.spec_bytes()) {
                Some((v, l)) => if l as u128 <= width::<A>() {
                    r matches Ok(p) && p@ == truncate(width::<A>(), v, l)
                } else {
                    r matches Err(e) && e.spec_kind() == Kind::PrefixLength
                },
                None => r matches Err(e) && e.spec_kind() == Kind::ParserError,
            },
    {
        Self::parse(s)
    }
}

impl<A: Afi> FromStr for Interface<A> {
    type Err = Error;

    fn from_str(s: &str) -> (r: Result<Self, Error>)
        ensures
            match A::prefix_text(s.spec_bytes()) {
                Some((v, l)) => if l as u128 <= width::<A>() {
                    r matches Ok(i) && i@ == (v, l)
                } else {
                    r matches Err(e) && e.spec_kind() == Kind::PrefixLength
                },
                None => r matches Err(e) && e.spec_kind() == Kind::ParserError,
            },
    {
        Self::parse(s)
    }
}

impl<A: Afi> FromStr for Range<A> {
    type Err = Error;

    fn from_str(s: &str) -> (r: Result<Self, Error>)
        ensures
            match A::range_text(s.spec_bytes()) {
                Some((v, l, lo, hi)) => if l as u128 > width::<A>() || lo as u128 > width::<A>()
                    || hi as u128 > width::<A>() {
                    r matches Err(e) && e.spec_kind() == Kind::PrefixLength
                } else if l <= lo && lo <= hi {
                    r matches Ok(g) && g@ == (truncate(width::<A>(), v, l), lo, hi)
                } else {
                    r matches Err(e) && e.spec_kind() == Kind::PrefixLengthRange
                },
                None => r matches Err(e) && e.spec_kind() == Kind::ParserError,
            },
    {
        Self::parse(s)
    }
}

} // verus!
