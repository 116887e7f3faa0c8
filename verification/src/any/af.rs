use vstd::prelude::*;

use core::cmp::Ordering;

use crate::afi::AfiEnum;

verus! {

/// The class of all address families: an address, prefix, ... of this
/// class belongs to either family.
#[derive(Clone, Copy, Debug, Hash, PartialEq, Eq, PartialOrd, Ord)]
pub struct Any;

/// The class of address families that an IP object belongs to.
#[derive(Clone, Copy, Debug, Hash, PartialEq, Eq, Structural)]
pub enum AfiClass {
    /// The IPv4 address family.
    Ipv4,
    /// The IPv6 address family.
    Ipv6,
    /// Either address family.
    Any,
}

/// The order of inclusion between classes of address families.
pub open spec fn class_order(a: AfiClass, b: AfiClass) -> Option<Ordering> {
    if a == b {
        Some(Ordering::Equal)
    } else if a == AfiClass::Any {
        Some(Ordering::Greater)
    } else if b == AfiClass::Any {
        Some(Ordering::Less)
    } else {
        None
    }
}

impl AfiClass {
    /// The class holding only the address family `afi`.
    pub fn from_afi(afi: AfiEnum) -> (r: Self)
        ensures
            r == (match afi {
                AfiEnum::Ipv4 => AfiClass::Ipv4,
                AfiEnum::Ipv6 => AfiClass::Ipv6,
            }),
    {
        match afi {
            AfiEnum::Ipv4 => AfiClass::Ipv4,
            AfiEnum::Ipv6 => AfiClass::Ipv6,
        }
    }

    /// Compare two classes by inclusion: [`AfiClass::Any`] includes both
    /// address families, which are incomparable.
    pub fn inclusion(&self, other: &Self) -> (r: Option<Ordering>)
        ensures
            r == class_order(*self, *other),
    {
        if *self == *other {
            Some(Ordering::Equal)
        } else if *self == AfiClass::Any {
            Some(Ordering::Greater)
        } else if *other == AfiClass::Any {
            Some(Ordering::Less)
        } else {
            None
        }
    }
}

impl PartialOrd for AfiClass {
    fn partial_cmp(&self, other: &Self) -> (r: Option<Ordering>) {
        self.inclusion(other)
    }
}

impl vstd::std_specs::cmp::PartialOrdSpecImpl for AfiClass {
    open spec fn obeys_partial_cmp_spec() -> bool {
        true
    }

    open spec fn partial_cmp_spec(&self, other: &Self) -> Option<Ordering> {
        class_order(*self, *other)
    }
}

} // verus!
