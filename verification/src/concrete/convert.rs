use vstd::prelude::*;

use crate::afi::{Ipv4, Ipv6};
use crate::any;
use crate::bits::{be_bytes, be_segments, be_value_of_segments};
use super::addr::Address;

verus! {

impl Address<Ipv6> {
    /// The address whose eight big-endian 16-bit segments are `segments`.
    pub fn from_segments(segments: [u16; 8]) -> (r: Self)
        ensures
            be_segments(r@) == segments@,
    {
        Address::from_value(be_value_of_segments(&segments))
    }
}

impl From<u32> for Address<Ipv4> {
    fn from(primitive: u32) -> (r: Self)
        ensures
            r@ == primitive as u128,
    {
        Address::new(primitive as u128)
    }
}

impl vstd::std_specs::convert::FromSpecImpl<u32> for Address<Ipv4> {
    /// Not claimed: the operation states its result through the view, which is
    /// all that the value chosen below is known to share with it.
    open spec fn obeys_from_spec() -> bool {
        false
    }

    open spec fn from_spec(primitive: u32) -> Self {
        choose|r: Self| (r@ == primitive as u128)
    }
}

impl From<Address<Ipv4>> for u32 {
    fn from(addr: Address<Ipv4>) -> (r: u32)
        ensures
            r as u128 == addr@,
    {
        addr.into_primitive() as u32
    }
}

impl vstd::std_specs::convert::FromSpecImpl<Address<Ipv4>> for u32 {
    open spec fn obeys_from_spec() -> bool {
        true
    }

    open spec fn from_spec(addr: Address<Ipv4>) -> u32 {
        addr@ as u32
    }
}

impl From<u128> for Address<Ipv6> {
    fn from(primitive: u128) -> (r: Self)
        ensures
            r@ == primitive,
    {
        Address::new(primitive)
    }
}

impl vstd::std_specs::convert::FromSpecImpl<u128> for Address<Ipv6> {
    /// Not claimed: the operation states its result through the view, which is
    /// all that the value chosen below is known to share with it.
    open spec fn obeys_from_spec() -> bool {
        false
    }

    open spec fn from_spec(primitive: u128) -> Self {
        choose|r: Self| (r@ == primitive)
    }
}

impl From<Address<Ipv6>> for u128 {
    fn from(addr: Address<Ipv6>) -> (r: u128)
        ensures
            r == addr@,
    {
        addr.into_primitive()
    }
}

impl vstd::std_specs::convert::FromSpecImpl<Address<Ipv6>> for u128 {
    open spec fn obeys_from_spec() -> bool {
        true
    }

    open spec fn from_spec(addr: Address<Ipv6>) -> u128 {
        addr@
    }
}

impl From<[u8; 4]> for Address<Ipv4> {
    fn from(octets: [u8; 4]) -> (r: Self)
        ensures
            be_bytes(r@, 32) == octets@,
    {
        Address::from_octets(octets)
    }
}

impl vstd::std_specs::convert::FromSpecImpl<[u8; 4]> for Address<Ipv4> {
    /// Not claimed: the operation states its result through the view, which is
    /// all that the value chosen below is known to share with it.
    open spec fn obeys_from_spec() -> bool {
        false
    }

    open spec fn from_spec(octets: [u8; 4]) -> Self {
        choose|r: Self| (be_bytes(r@, 32) == octets@)
    }
}

impl From<[u8; 16]> for Address<Ipv6> {
    fn from(octets: [u8; 16]) -> (r: Self)
        ensures
            be_bytes(r@, 128) == octets@,
    {
        Address::from_octets(octets)
    }
}

impl vstd::std_specs::convert::FromSpecImpl<[u8; 16]> for Address<Ipv6> {
    /// Not claimed: the operation states its result through the view, which is
    /// all that the value chosen below is known to share with it.
    open spec fn obeys_from_spec() -> bool {
        false
    }

    open spec fn from_spec(octets: [u8; 16]) -> Self {
        choose|r: Self| (be_bytes(r@, 128) == octets@)
    }
}

impl From<[u16; 8]> for Address<Ipv6> {
    fn from(segments: [u16; 8]) -> (r: Self)
        ensures
            be_segments(r@) == segments@,
    {
        Address::from_segments(segments)
    }
}

impl vstd::std_specs::convert::FromSpecImpl<[u16; 8]> for Address<Ipv6> {
    /// Not claimed: the operation states its result through the view, which is
    /// all that the value chosen below is known to share with it.
    open spec fn obeys_from_spec() -> bool {
        false
    }

    open spec fn from_spec(segments: [u16; 8]) -> Self {
        choose|r: Self| (be_segments(r@) == segments@)
    }
}

impl From<u32> for any::Address {
    fn from(primitive: u32) -> (r: Self)
        ensures
            r@ == (crate::afi::AfiEnum::Ipv4, primitive as u128),
    {
        any::Address::Ipv4(Address::new(primitive as u128))
    }
}

impl vstd::std_specs::convert::FromSpecImpl<u32> for any::Address {
    /// Not claimed: the operation states its result through the view, which is
    /// all that the value chosen below is known to share with it.
    open spec fn obeys_from_spec() -> bool {
        false
    }

    open spec fn from_spec(primitive: u32) -> Self {
        choose|r: Self| (r@ == (crate::afi::AfiEnum::Ipv4, primitive as u128))
    }
}

impl From<u128> for any::Address {
    fn from(primitive: u128) -> (r: Self)
        ensures
            r@ == (crate::afi::AfiEnum::Ipv6, primitive),
    {
        any::Address::Ipv6(Address::new(primitive))
    }
}

impl vstd::std_specs::convert::FromSpecImpl<u128> for any::Address {
    /// Not claimed: the operation states its result through the view, which is
    /// all that the value chosen below is known to share with it.
    open spec fn obeys_from_spec() -> bool {
        false
    }

    open spec fn from_spec(primitive: u128) -> Self {
        choose|r: Self| (r@ == (crate::afi::AfiEnum::Ipv6, primitive))
    }
}

impl From<[u8; 4]> for any::Address {
    fn from(octets: [u8; 4]) -> (r: Self)
        ensures
            r@.0 == crate::afi::AfiEnum::Ipv4,
            be_bytes(r@.1, 32) == octets@,
    {
        any::Address::Ipv4(Address::from_octets(octets))
    }
}

impl vstd::std_specs::convert::FromSpecImpl<[u8; 4]> for any::Address {
    /// Not claimed: the operation states its result through the view, which is
    /// all that the value chosen below is known to share with it.
    open spec fn obeys_from_spec() -> bool {
        false
    }

    open spec fn from_spec(octets: [u8; 4]) -> Self {
        choose|r: Self| (r@.0 == crate::afi::AfiEnum::Ipv4) && (be_bytes(r@.1, 32) == octets@)
    }
}

impl From<[u8; 16]> for any::Address {
    fn from(octets: [u8; 16]) -> (r: Self)
        ensures
            r@.0 == crate::afi::AfiEnum::Ipv6,
            be_bytes(r@.1, 128) == octets@,
    {
        any::Address::Ipv6(Address::from_octets(octets))
    }
}

impl vstd::std_specs::convert::FromSpecImpl<[u8; 16]> for any::Address {
    /// Not claimed: the operation states its result through the view, which is
    /// all that the value chosen below is known to share with it.
    open spec fn obeys_from_spec() -> bool {
        false
    }

    open spec fn from_spec(octets: [u8; 16]) -> Self {
        choose|r: Self| (r@.0 == crate::afi::AfiEnum::Ipv6) && (be_bytes(r@.1, 128) == octets@)
    }
}

impl From<[u16; 8]> for any::Address {
    fn from(segments: [u16; 8]) -> (r: Self)
        ensures
            r@.0 == crate::afi::AfiEnum::Ipv6,
            be_segments(r@.1) == segments@,
    {
        any::Address::Ipv6(Address::from_segments(segments))
    }
}

impl vstd::std_specs::convert::FromSpecImpl<[u16; 8]> for any::Address {
    /// Not claimed: the operation states its result through the view, which is
    /// all that the value chosen below is known to share with it.
    open spec fn obeys_from_spec() -> bool {
        false
    }

    open spec fn from_spec(segments: [u16; 8]) -> Self {
        choose|r: Self| (r@.0 == crate::afi::AfiEnum::Ipv6) && (be_segments(r@.1) == segments@)
    }
}

} // verus!
