use vstd::prelude::*;
use vstd::string::StringSliceAdditionalSpecFns;

use core::str::FromStr;

use crate::afi::{afi_width, AfiEnum, Ipv4, Ipv6};
use crate::bits::hmask;
use crate::concrete;
use crate::concrete::display::prefix_display;
use crate::error::{Error, Kind};
use crate::model::truncate;
use crate::parser::ipv4::ipv4_prefix;
use crate::parser::ipv6::ipv6_prefix;
use super::addr::Address;
use super::prefix::{Length, Prefix};

verus! {

/// An IP interface of either address family.
#[derive(Copy, Debug, Hash)]
pub enum Interface {
    /// An IPv4 interface.
    Ipv4(concrete::Interface<Ipv4>),
    /// An IPv6 interface.
    Ipv6(concrete::Interface<Ipv6>),
}

impl View for Interface {
    type V = (AfiEnum, (u128, u8));

    open spec fn view(&self) -> (AfiEnum, (u128, u8)) {
        match self {
            Interface::Ipv4(i) => (AfiEnum::Ipv4, i@),
            Interface::Ipv6(i) => (AfiEnum::Ipv6, i@),
        }
    }
}

impl Interface {
    /// The network address of the interface's prefix.
    pub fn network(&self) -> (r: Address)
        ensures
            r@ == (self@.0, truncate(afi_width(self@.0), self@.1.0, self@.1.1).0),
    {
        match self {
            Interface::Ipv4(i) => Address::Ipv4(i.network()),
            Interface::Ipv6(i) => Address::Ipv6(i.network()),
        }
    }

    /// The address of the interface.
    pub fn addr(&self) -> (r: Address)
        ensures
            r@ == (self@.0, self@.1.0),
    {
        match self {
            Interface::Ipv4(i) => Address::Ipv4(i.addr()),
            Interface::Ipv6(i) => Address::Ipv6(i.addr()),
        }
    }

    /// The prefix containing the interface address.
    pub fn trunc(&self) -> (r: Prefix)
        ensures
            r@ == (self@.0, truncate(afi_width(self@.0), self@.1.0, self@.1.1)),
    {
        match self {
            Interface::Ipv4(i) => Prefix::Ipv4(i.trunc()),
            Interface::Ipv6(i) => Prefix::Ipv6(i.trunc()),
        }
    }

    /// The prefix length of the interface.
    pub fn prefix_len(&self) -> (r: Length)
        ensures
            r@ == (self@.0, self@.1.1),
    {
        match self {
            Interface::Ipv4(i) => Length::Ipv4(i.prefix_len()),
            Interface::Ipv6(i) => Length::Ipv6(i.prefix_len()),
        }
    }

    /// The broadcast address of the interface's prefix.
    pub fn broadcast(&self) -> (r: Address)
        ensures
            r@ == (self@.0, truncate(afi_width(self@.0), self@.1.0, self@.1.1).0 | hmask(
                afi_width(self@.0),
                self@.1.1 as u128,
            )),
    {
        match self {
            Interface::Ipv4(i) => Address::Ipv4(i.broadcast()),
            Interface::Ipv6(i) => Address::Ipv6(i.broadcast()),
        }
    }

    /// Parse the text of an interface: as an IPv4 interface, and failing
    /// that, as an IPv6 interface.
    ///
    /// # Errors
    ///
    /// Fails with the error of the IPv6 attempt where both attempts fail.
    pub fn parse(s: &str) -> (r: Result<Self, Error>)
        ensures
            match ipv4_prefix(s.spec_bytes()) {
                Some((v, l)) if l <= 32 => r matches Ok(i) && i@ == (AfiEnum::Ipv4, (v, l)),
                _ => match ipv6_prefix(s.spec_bytes()) {
                    Some((v, l)) => if l <= 128 {
                        r matches Ok(i) && i@ == (AfiEnum::Ipv6, (v, l))
                    } else {
                        r matches Err(e) && e.spec_kind() == Kind::PrefixLength
                    },
                    None => r matches Err(e) && e.spec_kind() == Kind::ParserError,
                },
            },
    {
        match concrete::Interface::<Ipv4>::parse(s) {
            Ok(i) => Ok(Interface::Ipv4(i)),
            Err(_) => match concrete::Interface::<Ipv6>::parse(s) {
                Ok(i) => Ok(Interface::Ipv6(i)),
                Err(e) => Err(e),
            },
        }
    }

    /// The text of the interface: its address, "/" and its length.
    pub fn to_string(&self) -> (r: String)
        ensures
            r@ == (match self {
                Interface::Ipv4(i) => prefix_display::<Ipv4>(i@.0, i@.1),
                Interface::Ipv6(i) => prefix_display::<Ipv6>(i@.0, i@.1),
            }),
    {
        match self {
            Interface::Ipv4(i) => i.to_string(),
            Interface::Ipv6(i) => i.to_string(),
        }
    }
}

impl Clone for Interface {
    fn clone(&self) -> (r: Self)
        ensures
            r == *self,
    {
        *self
    }
}

impl PartialEq for Interface {
    fn eq(&self, other: &Self) -> (r: bool) {
        match (self, other) {
            (Interface::Ipv4(a), Interface::Ipv4(b)) => a.equals(b),
            (Interface::Ipv6(a), Interface::Ipv6(b)) => a.equals(b),
            _ => false,
        }
    }
}

impl vstd::std_specs::cmp::PartialEqSpecImpl for Interface {
    open spec fn obeys_eq_spec() -> bool {
        true
    }

    open spec fn eq_spec(&self, other: &Self) -> bool {
        self@ == other@
    }
}

impl Eq for Interface {
}

impl FromStr for Interface {
    type Err = Error;

    fn from_str(s: &str) -> (r: Result<Self, Error>)
        ensures
            match ipv4_prefix(s.spec_bytes()) {
                Some((v, l)) if l <= 32 => r matches Ok(i) && i@ == (AfiEnum::Ipv4, (v, l)),
                _ => match ipv6_prefix(s.spec_bytes()) {
                    Some((v, l)) => if l <= 128 {
                        r matches Ok(i) && i@ == (AfiEnum::Ipv6, (v, l))
                    } else {
                        r matches Err(e) && e.spec_kind() == Kind::PrefixLength
                    },
                    None => r matches Err(e) && e.spec_kind() == Kind::ParserError,
                },
            },
    {
        Self::parse(s)
    }
}

} // verus!

verus! {

impl crate::traits::Interface for Interface {
    type Address = Address;

    type Prefix = Prefix;

    type PrefixLength = Length;

    open spec fn network_result(&self, r: Address) -> bool {
        &&& r@ == (self@.0, truncate(afi_width(self@.0), self@.1.0, self@.1.1).0)
    }

    fn network(&self) -> (r: Address) {
        Interface::network(self)
    }

    open spec fn addr_result(&self, r: Address) -> bool {
        &&& r@ == (self@.0, self@.1.0)
    }

    fn addr(&self) -> (r: Address) {
        Interface::addr(self)
    }

    open spec fn trunc_result(&self, r: Prefix) -> bool {
        &&& r@ == (self@.0, truncate(afi_width(self@.0), self@.1.0, self@.1.1))
    }

    fn trunc(&self) -> (r: Prefix) {
        Interface::trunc(self)
    }

    open spec fn prefix_len_result(&self, r: Length) -> bool {
        &&& r@ == (self@.0, self@.1.1)
    }

    fn prefix_len(&self) -> (r: Length) {
        Interface::prefix_len(self)
    }

    open spec fn broadcast_result(&self, r: Address) -> bool {
        &&& r@ == (self@.0, truncate(afi_width(self@.0), self@.1.0, self@.1.1).0 | hmask(afi_width(self@.0), self@.1.1 as u128))
    }

    fn broadcast(&self) -> (r: Address) {
        Interface::broadcast(self)
    }
}

} // verus!
