use vstd::prelude::*;

use crate::afi::{width, Afi};
use crate::bits::{hmask, nmask};
use crate::model::truncate;
use core::ops::RangeInclusive;

use crate::afi::{Ipv4, Ipv6};
use super::addr::Address;
use super::addr_range::AddressRange;
use super::range::{range_end, range_start};
use super::interface::Interface;
use super::len::PrefixLength;
use super::mask::{Bitmask, Hostmask, Netmask};
use super::prefix::Prefix;
use super::range::Range;

verus! {

impl<A: Afi> From<Prefix<A>> for Range<A> {
    fn from(prefix: Prefix<A>) -> (r: Self)
        ensures
            r@ == (prefix@, prefix@.1, prefix@.1),
    {
        Range::from_prefix(prefix)
    }
}

impl<A: Afi> vstd::std_specs::convert::FromSpecImpl<Prefix<A>> for Range<A> {
    /// Not claimed: the operation states its result through the view, which is
    /// all that the value chosen below is known to share with it.
    open spec fn obeys_from_spec() -> bool {
        false
    }

    open spec fn from_spec(prefix: Prefix<A>) -> Self {
        choose|r: Self| (r@ == (prefix@, prefix@.1, prefix@.1))
    }
}

impl<A: Afi> From<Address<A>> for Prefix<A> {
    fn from(addr: Address<A>) -> (r: Self)
        ensures
            r@ == truncate(width::<A>(), addr@, r@.1),
            r@.1 as u128 == width::<A>(),
    {
        Prefix::from_address(addr)
    }
}

impl<A: Afi> vstd::std_specs::convert::FromSpecImpl<Address<A>> for Prefix<A> {
    /// Not claimed: the operation states its result through the view, which is
    /// all that the value chosen below is known to share with it.
    open spec fn obeys_from_spec() -> bool {
        false
    }

    open spec fn from_spec(addr: Address<A>) -> Self {
        choose|r: Self| (r@ == truncate(width::<A>(), addr@, r@.1)) && (r@.1 as u128 == width::<A>())
    }
}

impl<A: Afi> From<Interface<A>> for Prefix<A> {
    fn from(interface: Interface<A>) -> (r: Self)
        ensures
            r@ == truncate(width::<A>(), interface@.0, interface@.1),
    {
        Prefix::from_interface(interface)
    }
}

impl<A: Afi> vstd::std_specs::convert::FromSpecImpl<Interface<A>> for Prefix<A> {
    /// Not claimed: the operation states its result through the view, which is
    /// all that the value chosen below is known to share with it.
    open spec fn obeys_from_spec() -> bool {
        false
    }

    open spec fn from_spec(interface: Interface<A>) -> Self {
        choose|r: Self| (r@ == truncate(width::<A>(), interface@.0, interface@.1))
    }
}

impl<A: Afi> From<Address<A>> for Interface<A> {
    fn from(addr: Address<A>) -> (r: Self)
        ensures
            r@.0 == addr@,
            r@.1 as u128 == width::<A>(),
    {
        Interface::from_address(addr)
    }
}

impl<A: Afi> vstd::std_specs::convert::FromSpecImpl<Address<A>> for Interface<A> {
    /// Not claimed: the operation states its result through the view, which is
    /// all that the value chosen below is known to share with it.
    open spec fn obeys_from_spec() -> bool {
        false
    }

    open spec fn from_spec(addr: Address<A>) -> Self {
        choose|r: Self| (r@.0 == addr@) && (r@.1 as u128 == width::<A>())
    }
}

impl<A: Afi> From<PrefixLength<A>> for Netmask<A> {
    fn from(length: PrefixLength<A>) -> (r: Self)
        ensures
            r@ == nmask(width::<A>(), length@ as u128),
    {
        Netmask::from_length(length)
    }
}

impl<A: Afi> vstd::std_specs::convert::FromSpecImpl<PrefixLength<A>> for Netmask<A> {
    /// Not claimed: the operation states its result through the view, which is
    /// all that the value chosen below is known to share with it.
    open spec fn obeys_from_spec() -> bool {
        false
    }

    open spec fn from_spec(length: PrefixLength<A>) -> Self {
        choose|r: Self| (r@ == nmask(width::<A>(), length@ as u128))
    }
}

impl<A: Afi> From<PrefixLength<A>> for Hostmask<A> {
    fn from(length: PrefixLength<A>) -> (r: Self)
        ensures
            r@ == hmask(width::<A>(), length@ as u128),
    {
        Hostmask::from_length(length)
    }
}

impl<A: Afi> vstd::std_specs::convert::FromSpecImpl<PrefixLength<A>> for Hostmask<A> {
    /// Not claimed: the operation states its result through the view, which is
    /// all that the value chosen below is known to share with it.
    open spec fn obeys_from_spec() -> bool {
        false
    }

    open spec fn from_spec(length: PrefixLength<A>) -> Self {
        choose|r: Self| (r@ == hmask(width::<A>(), length@ as u128))
    }
}

impl<A: Afi> From<Address<A>> for Bitmask<A> {
    fn from(addr: Address<A>) -> (r: Self)
        ensures
            r@ == addr@,
    {
        Bitmask::from_address(addr)
    }
}

impl<A: Afi> vstd::std_specs::convert::FromSpecImpl<Address<A>> for Bitmask<A> {
    /// Not claimed: the operation states its result through the view, which is
    /// all that the value chosen below is known to share with it.
    open spec fn obeys_from_spec() -> bool {
        false
    }

    open spec fn from_spec(addr: Address<A>) -> Self {
        choose|r: Self| (r@ == addr@)
    }
}

impl<'a> From<&'a RangeInclusive<u32>> for AddressRange<Ipv4> {
    fn from(range: &'a RangeInclusive<u32>) -> (r: Self)
        ensures
            r@ == (range@.start as u128, range@.end as u128),
    {
        AddressRange::new(Address::from(range_start(range)), Address::from(range_end(range)))
    }
}

impl<'a> vstd::std_specs::convert::FromSpecImpl<&'a RangeInclusive<u32>> for AddressRange<Ipv4> {
    /// Not claimed: the operation states its result through the view, which is
    /// all that the value chosen below is known to share with it.
    open spec fn obeys_from_spec() -> bool {
        false
    }

    open spec fn from_spec(range: &'a RangeInclusive<u32>) -> Self {
        choose|r: Self| (r@ == (range@.start as u128, range@.end as u128))
    }
}

impl<'a> From<&'a RangeInclusive<u128>> for AddressRange<Ipv6> {
    fn from(range: &'a RangeInclusive<u128>) -> (r: Self)
        ensures
            r@ == (range@.start, range@.end),
    {
        AddressRange::new(Address::from(range_start(range)), Address::from(range_end(range)))
    }
}

impl<'a> vstd::std_specs::convert::FromSpecImpl<&'a RangeInclusive<u128>> for AddressRange<Ipv6> {
    /// Not claimed: the operation states its result through the view, which is
    /// all that the value chosen below is known to share with it.
    open spec fn obeys_from_spec() -> bool {
        false
    }

    open spec fn from_spec(range: &'a RangeInclusive<u128>) -> Self {
        choose|r: Self| (r@ == (range@.start, range@.end))
    }
}

} // verus!
