use vstd::prelude::*;

use crate::afi::{afi_width, AfiEnum, Ipv4, Ipv6};
use crate::bits::{hmask, nmask};
use crate::concrete;
use crate::model::PrefixModel;
use super::af::AfiClass;
use super::interface::Interface;
use super::prefix::{Hostmask, Length, Mask, Netmask, Prefix};
use super::range::Range;
use super::set::PrefixSet;
use crate::concrete::mask::Type;

verus! {

impl From<concrete::Prefix<Ipv4>> for Prefix {
    fn from(p: concrete::Prefix<Ipv4>) -> (r: Self)
        ensures
            r@ == (AfiEnum::Ipv4, p@),
    {
        Prefix::Ipv4(p)
    }
}

impl vstd::std_specs::convert::FromSpecImpl<concrete::Prefix<Ipv4>> for Prefix {
    open spec fn obeys_from_spec() -> bool {
        true
    }

    open spec fn from_spec(p: concrete::Prefix<Ipv4>) -> Self {
        Prefix::Ipv4(p)
    }
}

impl From<concrete::PrefixLength<Ipv4>> for Length {
    fn from(l: concrete::PrefixLength<Ipv4>) -> (r: Self)
        ensures
            r@ == (AfiEnum::Ipv4, l@),
    {
        Length::Ipv4(l)
    }
}

impl vstd::std_specs::convert::FromSpecImpl<concrete::PrefixLength<Ipv4>> for Length {
    open spec fn obeys_from_spec() -> bool {
        true
    }

    open spec fn from_spec(l: concrete::PrefixLength<Ipv4>) -> Self {
        Length::Ipv4(l)
    }
}

impl From<concrete::PrefixRange<Ipv4>> for Range {
    fn from(range: concrete::PrefixRange<Ipv4>) -> (r: Self)
        ensures
            r@ == (AfiEnum::Ipv4, range@),
    {
        Range::Ipv4(range)
    }
}

impl vstd::std_specs::convert::FromSpecImpl<concrete::PrefixRange<Ipv4>> for Range {
    open spec fn obeys_from_spec() -> bool {
        true
    }

    open spec fn from_spec(range: concrete::PrefixRange<Ipv4>) -> Self {
        Range::Ipv4(range)
    }
}

impl From<concrete::Interface<Ipv4>> for Interface {
    fn from(i: concrete::Interface<Ipv4>) -> (r: Self)
        ensures
            r@ == (AfiEnum::Ipv4, i@),
    {
        Interface::Ipv4(i)
    }
}

impl vstd::std_specs::convert::FromSpecImpl<concrete::Interface<Ipv4>> for Interface {
    open spec fn obeys_from_spec() -> bool {
        true
    }

    open spec fn from_spec(i: concrete::Interface<Ipv4>) -> Self {
        Interface::Ipv4(i)
    }
}

impl<T: Type> From<concrete::Mask<T, Ipv4>> for Mask<T> {
    fn from(m: concrete::Mask<T, Ipv4>) -> (r: Self)
        ensures
            r@ == (AfiEnum::Ipv4, m@),
    {
        Mask::Ipv4(m)
    }
}

impl<T: Type> vstd::std_specs::convert::FromSpecImpl<concrete::Mask<T, Ipv4>> for Mask<T> {
    open spec fn obeys_from_spec() -> bool {
        true
    }

    open spec fn from_spec(m: concrete::Mask<T, Ipv4>) -> Self {
        Mask::Ipv4(m)
    }
}

impl From<concrete::Prefix<Ipv6>> for Prefix {
    fn from(p: concrete::Prefix<Ipv6>) -> (r: Self)
        ensures
            r@ == (AfiEnum::Ipv6, p@),
    {
        Prefix::Ipv6(p)
    }
}

impl vstd::std_specs::convert::FromSpecImpl<concrete::Prefix<Ipv6>> for Prefix {
    open spec fn obeys_from_spec() -> bool {
        true
    }

    open spec fn from_spec(p: concrete::Prefix<Ipv6>) -> Self {
        Prefix::Ipv6(p)
    }
}

impl From<concrete::PrefixLength<Ipv6>> for Length {
    fn from(l: concrete::PrefixLength<Ipv6>) -> (r: Self)
        ensures
            r@ == (AfiEnum::Ipv6, l@),
    {
        Length::Ipv6(l)
    }
}

impl vstd::std_specs::convert::FromSpecImpl<concrete::PrefixLength<Ipv6>> for Length {
    open spec fn obeys_from_spec() -> bool {
        true
    }

    open spec fn from_spec(l: concrete::PrefixLength<Ipv6>) -> Self {
        Length::Ipv6(l)
    }
}

impl From<concrete::PrefixRange<Ipv6>> for Range {
    fn from(range: concrete::PrefixRange<Ipv6>) -> (r: Self)
        ensures
            r@ == (AfiEnum::Ipv6, range@),
    {
        Range::Ipv6(range)
    }
}

impl vstd::std_specs::convert::FromSpecImpl<concrete::PrefixRange<Ipv6>> for Range {
    open spec fn obeys_from_spec() -> bool {
        true
    }

    open spec fn from_spec(range: concrete::PrefixRange<Ipv6>) -> Self {
        Range::Ipv6(range)
    }
}

impl From<concrete::Interface<Ipv6>> for Interface {
    fn from(i: concrete::Interface<Ipv6>) -> (r: Self)
        ensures
            r@ == (AfiEnum::Ipv6, i@),
    {
        Interface::Ipv6(i)
    }
}

impl vstd::std_specs::convert::FromSpecImpl<concrete::Interface<Ipv6>> for Interface {
    open spec fn obeys_from_spec() -> bool {
        true
    }

    open spec fn from_spec(i: concrete::Interface<Ipv6>) -> Self {
        Interface::Ipv6(i)
    }
}

impl<T: Type> From<concrete::Mask<T, Ipv6>> for Mask<T> {
    fn from(m: concrete::Mask<T, Ipv6>) -> (r: Self)
        ensures
            r@ == (AfiEnum::Ipv6, m@),
    {
        Mask::Ipv6(m)
    }
}

impl<T: Type> vstd::std_specs::convert::FromSpecImpl<concrete::Mask<T, Ipv6>> for Mask<T> {
    open spec fn obeys_from_spec() -> bool {
        true
    }

    open spec fn from_spec(m: concrete::Mask<T, Ipv6>) -> Self {
        Mask::Ipv6(m)
    }
}

impl From<concrete::PrefixSet<Ipv4>> for PrefixSet {
    fn from(s: concrete::PrefixSet<Ipv4>) -> (r: Self)
        ensures
            r@ == (s@, Set::<PrefixModel>::empty()),
    {
        PrefixSet::from_ipv4(s)
    }
}

impl vstd::std_specs::convert::FromSpecImpl<concrete::PrefixSet<Ipv4>> for PrefixSet {
    /// Not claimed: the operation states its result through the view, which is
    /// all that the value chosen below is known to share with it.
    open spec fn obeys_from_spec() -> bool {
        false
    }

    open spec fn from_spec(s: concrete::PrefixSet<Ipv4>) -> Self {
        choose|r: Self| (r@ == (s@, Set::<PrefixModel>::empty()))
    }
}

impl From<concrete::PrefixSet<Ipv6>> for PrefixSet {
    fn from(s: concrete::PrefixSet<Ipv6>) -> (r: Self)
        ensures
            r@ == (Set::<PrefixModel>::empty(), s@),
    {
        PrefixSet::from_ipv6(s)
    }
}

impl vstd::std_specs::convert::FromSpecImpl<concrete::PrefixSet<Ipv6>> for PrefixSet {
    /// Not claimed: the operation states its result through the view, which is
    /// all that the value chosen below is known to share with it.
    open spec fn obeys_from_spec() -> bool {
        false
    }

    open spec fn from_spec(s: concrete::PrefixSet<Ipv6>) -> Self {
        choose|r: Self| (r@ == (Set::<PrefixModel>::empty(), s@))
    }
}

impl From<Prefix> for Range {
    fn from(prefix: Prefix) -> (r: Self)
        ensures
            r@ == (prefix@.0, (prefix@.1, prefix@.1.1, prefix@.1.1)),
    {
        Range::from_prefix(prefix)
    }
}

impl vstd::std_specs::convert::FromSpecImpl<Prefix> for Range {
    /// Not claimed: the operation states its result through the view, which is
    /// all that the value chosen below is known to share with it.
    open spec fn obeys_from_spec() -> bool {
        false
    }

    open spec fn from_spec(prefix: Prefix) -> Self {
        choose|r: Self| (r@ == (prefix@.0, (prefix@.1, prefix@.1.1, prefix@.1.1)))
    }
}

impl From<AfiEnum> for AfiClass {
    fn from(afi: AfiEnum) -> (r: Self)
        ensures
            r == (match afi {
                AfiEnum::Ipv4 => AfiClass::Ipv4,
                AfiEnum::Ipv6 => AfiClass::Ipv6,
            }),
    {
        AfiClass::from_afi(afi)
    }
}

impl vstd::std_specs::convert::FromSpecImpl<AfiEnum> for AfiClass {
    open spec fn obeys_from_spec() -> bool {
        true
    }

    open spec fn from_spec(afi: AfiEnum) -> Self {
        match afi {
            AfiEnum::Ipv4 => AfiClass::Ipv4,
            AfiEnum::Ipv6 => AfiClass::Ipv6,
        }
    }
}

impl From<Length> for Netmask {
    fn from(len: Length) -> (r: Self)
        ensures
            r@ == (len@.0, nmask(afi_width(len@.0), len@.1 as u128)),
    {
        Netmask::from_length(len)
    }
}

impl vstd::std_specs::convert::FromSpecImpl<Length> for Netmask {
    /// Not claimed: the operation states its result through the view, which is
    /// all that the value chosen below is known to share with it.
    open spec fn obeys_from_spec() -> bool {
        false
    }

    open spec fn from_spec(len: Length) -> Self {
        choose|r: Self| (r@ == (len@.0, nmask(afi_width(len@.0), len@.1 as u128)))
    }
}

impl From<Length> for Hostmask {
    fn from(len: Length) -> (r: Self)
        ensures
            r@ == (len@.0, hmask(afi_width(len@.0), len@.1 as u128)),
    {
        Hostmask::from_length(len)
    }
}

impl vstd::std_specs::convert::FromSpecImpl<Length> for Hostmask {
    /// Not claimed: the operation states its result through the view, which is
    /// all that the value chosen below is known to share with it.
    open spec fn obeys_from_spec() -> bool {
        false
    }

    open spec fn from_spec(len: Length) -> Self {
        choose|r: Self| (r@ == (len@.0, hmask(afi_width(len@.0), len@.1 as u128)))
    }
}

} // verus!
