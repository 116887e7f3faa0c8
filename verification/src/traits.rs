//! Interfaces shared by the types of a single address family and those of
//! either family, so that code generic over the family can use them.
//!
//! Each method is specified by a spec function of the trait that says which
//! results it may give; each implementation defines that spec function by
//! the contract of its own method of the same name.

use vstd::prelude::*;

use core::ops::RangeInclusive;

use crate::error::Error;

verus! {

/// An IP address.
pub trait Address: Sized {
    /// `r` is what [`Address::is_broadcast`] gives for `self`.
    spec fn is_broadcast_result(&self, r: bool) -> bool;

    /// Returns [`true`] if this is the broadcast address of the family.
    fn is_broadcast(&self) -> (r: bool)
        ensures
            self.is_broadcast_result(r),
    ;

    /// `r` is what [`Address::is_link_local`] gives for `self`.
    spec fn is_link_local_result(&self, r: bool) -> bool;

    /// Returns [`true`] if this is a link-local address.
    fn is_link_local(&self) -> (r: bool)
        ensures
            self.is_link_local_result(r),
    ;

    /// `r` is what [`Address::is_private`] gives for `self`.
    spec fn is_private_result(&self, r: bool) -> bool;

    /// Returns [`true`] if this is a private-use address.
    fn is_private(&self) -> (r: bool)
        ensures
            self.is_private_result(r),
    ;

    /// `r` is what [`Address::is_reserved`] gives for `self`.
    spec fn is_reserved_result(&self, r: bool) -> bool;

    /// Returns [`true`] if this is a reserved address.
    fn is_reserved(&self) -> (r: bool)
        ensures
            self.is_reserved_result(r),
    ;

    /// `r` is what [`Address::is_shared`] gives for `self`.
    spec fn is_shared_result(&self, r: bool) -> bool;

    /// Returns [`true`] if this is a shared address.
    fn is_shared(&self) -> (r: bool)
        ensures
            self.is_shared_result(r),
    ;

    /// `r` is what [`Address::is_thisnet`] gives for `self`.
    spec fn is_thisnet_result(&self, r: bool) -> bool;

    /// Returns [`true`] if this address is in "this network".
    fn is_thisnet(&self) -> (r: bool)
        ensures
            self.is_thisnet_result(r),
    ;

    /// `r` is what [`Address::is_benchmarking`] gives for `self`.
    spec fn is_benchmarking_result(&self, r: bool) -> bool;

    /// Returns [`true`] if this is a benchmarking address.
    fn is_benchmarking(&self) -> (r: bool)
        ensures
            self.is_benchmarking_result(r),
    ;

    /// `r` is what [`Address::is_documentation`] gives for `self`.
    spec fn is_documentation_result(&self, r: bool) -> bool;

    /// Returns [`true`] if this is a documentation address.
    fn is_documentation(&self) -> (r: bool)
        ensures
            self.is_documentation_result(r),
    ;

    /// `r` is what [`Address::is_global`] gives for `self`.
    spec fn is_global_result(&self, r: bool) -> bool;

    /// Returns [`true`] if this address is globally reachable.
    fn is_global(&self) -> (r: bool)
        ensures
            self.is_global_result(r),
    ;

    /// `r` is what [`Address::is_loopback`] gives for `self`.
    spec fn is_loopback_result(&self, r: bool) -> bool;

    /// Returns [`true`] if this is a loopback address.
    fn is_loopback(&self) -> (r: bool)
        ensures
            self.is_loopback_result(r),
    ;

    /// `r` is what [`Address::is_multicast`] gives for `self`.
    spec fn is_multicast_result(&self, r: bool) -> bool;

    /// Returns [`true`] if this is a multicast address.
    fn is_multicast(&self) -> (r: bool)
        ensures
            self.is_multicast_result(r),
    ;

    /// `r` is what [`Address::is_unspecified`] gives for `self`.
    spec fn is_unspecified_result(&self, r: bool) -> bool;

    /// Returns [`true`] if this is the unspecified address.
    fn is_unspecified(&self) -> (r: bool)
        ensures
            self.is_unspecified_result(r),
    ;

    /// `r` is what [`Address::is_unique_local`] gives for `self`.
    spec fn is_unique_local_result(&self, r: bool) -> bool;

    /// Returns [`true`] if this is a unique local address.
    fn is_unique_local(&self) -> (r: bool)
        ensures
            self.is_unique_local_result(r),
    ;
}

/// A prefix length.
pub trait PrefixLength: Sized {
    /// `r` is what [`PrefixLength::increment`] gives for `self`.
    spec fn increment_result(self, r: Result<Self, Error>) -> bool;

    /// The next longer prefix length, or an error at the maximum.
    fn increment(self) -> (r: Result<Self, Error>)
        ensures
            self.increment_result(r),
    ;

    /// `r` is what [`PrefixLength::decrement`] gives for `self`.
    spec fn decrement_result(self, r: Result<Self, Error>) -> bool;

    /// The next shorter prefix length, or an error at zero.
    fn decrement(self) -> (r: Result<Self, Error>)
        ensures
            self.decrement_result(r),
    ;
}

/// An IP prefix.
pub trait Prefix: Sized {
    /// The address type of the prefix.
    type Address;

    /// The prefix-length type of the prefix.
    type PrefixLength;

    /// The hostmask type of the prefix.
    type Hostmask;

    /// The netmask type of the prefix.
    type Netmask;

    /// `r` is what [`Prefix::network`] gives for `self`.
    spec fn network_result(&self, r: Self::Address) -> bool;

    /// The network address of the prefix.
    fn network(&self) -> (r: Self::Address)
        ensures
            self.network_result(r),
    ;

    /// `r` is what [`Prefix::hostmask`] gives for `self`.
    spec fn hostmask_result(&self, r: Self::Hostmask) -> bool;

    /// The hostmask of the prefix.
    fn hostmask(&self) -> (r: Self::Hostmask)
        ensures
            self.hostmask_result(r),
    ;

    /// `r` is what [`Prefix::netmask`] gives for `self`.
    spec fn netmask_result(&self, r: Self::Netmask) -> bool;

    /// The netmask of the prefix.
    fn netmask(&self) -> (r: Self::Netmask)
        ensures
            self.netmask_result(r),
    ;

    /// `r` is what [`Prefix::max_prefix_len`] gives for `self`.
    spec fn max_prefix_len_result(&self, r: Self::PrefixLength) -> bool;

    /// The greatest prefix length of the prefix's family.
    fn max_prefix_len(&self) -> (r: Self::PrefixLength)
        ensures
            self.max_prefix_len_result(r),
    ;

    /// `r` is what [`Prefix::prefix_len`] gives for `self`.
    spec fn prefix_len_result(&self, r: Self::PrefixLength) -> bool;

    /// The length of the prefix.
    fn prefix_len(&self) -> (r: Self::PrefixLength)
        ensures
            self.prefix_len_result(r),
    ;

    /// `r` is what [`Prefix::broadcast`] gives for `self`.
    spec fn broadcast_result(&self, r: Self::Address) -> bool;

    /// The broadcast address of the prefix.
    fn broadcast(&self) -> (r: Self::Address)
        ensures
            self.broadcast_result(r),
    ;

    /// `r` is what [`Prefix::supernet`] gives for `self`.
    spec fn supernet_result(&self, r: Option<Self>) -> bool;

    /// The prefix one bit shorter that covers this one, if any.
    fn supernet(&self) -> (r: Option<Self>)
        ensures
            self.supernet_result(r),
    ;

    /// `r` is what [`Prefix::is_sibling`] gives for `self` and `other`.
    spec fn is_sibling_result(&self, other: &Self, r: bool) -> bool;

    /// Returns [`true`] if both prefixes have the same supernet.
    fn is_sibling(&self, other: &Self) -> (r: bool)
        ensures
            self.is_sibling_result(other, r),
    ;
}

/// An interface: an address with the length of its prefix.
pub trait Interface: Sized {
    /// The address type of the interface.
    type Address;

    /// The prefix type of the interface.
    type Prefix;

    /// The prefix-length type of the interface.
    type PrefixLength;

    /// `r` is what [`Interface::network`] gives for `self`.
    spec fn network_result(&self, r: Self::Address) -> bool;

    /// The network address of the interface's prefix.
    fn network(&self) -> (r: Self::Address)
        ensures
            self.network_result(r),
    ;

    /// `r` is what [`Interface::addr`] gives for `self`.
    spec fn addr_result(&self, r: Self::Address) -> bool;

    /// The address of the interface.
    fn addr(&self) -> (r: Self::Address)
        ensures
            self.addr_result(r),
    ;

    /// `r` is what [`Interface::trunc`] gives for `self`.
    spec fn trunc_result(&self, r: Self::Prefix) -> bool;

    /// The prefix of the interface.
    fn trunc(&self) -> (r: Self::Prefix)
        ensures
            self.trunc_result(r),
    ;

    /// `r` is what [`Interface::prefix_len`] gives for `self`.
    spec fn prefix_len_result(&self, r: Self::PrefixLength) -> bool;

    /// The prefix length of the interface.
    fn prefix_len(&self) -> (r: Self::PrefixLength)
        ensures
            self.prefix_len_result(r),
    ;

    /// `r` is what [`Interface::broadcast`] gives for `self`.
    spec fn broadcast_result(&self, r: Self::Address) -> bool;

    /// The broadcast address of the interface's prefix.
    fn broadcast(&self) -> (r: Self::Address)
        ensures
            self.broadcast_result(r),
    ;
}

/// A prefix range: the subprefixes of a prefix whose lengths lie between
/// two bounds.
pub trait PrefixRange: Sized {
    /// The prefix type of the range.
    type Prefix;

    /// The prefix-length type of the range.
    type Length;

    /// `r` is what [`PrefixRange::prefix`] gives for `self`.
    spec fn prefix_result(&self, r: Self::Prefix) -> bool;

    /// The covering prefix of the range.
    fn prefix(&self) -> (r: Self::Prefix)
        ensures
            self.prefix_result(r),
    ;

    /// `r` is what [`PrefixRange::lower`] gives for `self`.
    spec fn lower_result(&self, r: Self::Length) -> bool;

    /// The lower bound of the lengths of the range.
    fn lower(&self) -> (r: Self::Length)
        ensures
            self.lower_result(r),
    ;

    /// `r` is what [`PrefixRange::upper`] gives for `self`.
    spec fn upper_result(&self, r: Self::Length) -> bool;

    /// The upper bound of the lengths of the range.
    fn upper(&self) -> (r: Self::Length)
        ensures
            self.upper_result(r),
    ;

    /// `r` is what [`PrefixRange::with_intersection`] gives for `self` and
    /// `len_range`.
    spec fn with_intersection_result(self, len_range: RangeInclusive<Self::Length>, r: Option<Self>) -> bool;

    /// Restrict the lengths of the range to those also in `len_range`.
    fn with_intersection(self, len_range: RangeInclusive<Self::Length>) -> (r: Option<Self>)
        ensures
            self.with_intersection_result(len_range, r),
    ;

    /// `r` is what [`PrefixRange::with_length_range`] gives for `self` and
    /// `len_range`.
    spec fn with_length_range_result(self, len_range: RangeInclusive<Self::Length>, r: Option<Self>) -> bool;

    /// Replace the lengths of the range by `len_range`.
    fn with_length_range(self, len_range: RangeInclusive<Self::Length>) -> (r: Option<Self>)
        ensures
            self.with_length_range_result(len_range, r),
    ;
}

/// A set of IP prefixes.
pub trait PrefixSet: Sized {
    /// The prefix type of the set.
    type Prefix;

    /// The prefix-range type of the set.
    type Range;

    /// The iterator over the prefixes of the set.
    type Prefixes;

    /// `r` is what [`PrefixSet::contains`] gives for `self` and `prefix`.
    spec fn contains_result(&self, prefix: Self::Prefix, r: bool) -> bool;

    /// Returns [`true`] if `prefix` is in the set.
    fn contains(&self, prefix: Self::Prefix) -> (r: bool)
        ensures
            self.contains_result(prefix, r),
    ;

    /// `r` is what [`PrefixSet::prefixes`] gives for `self`.
    spec fn prefixes_result(&self, r: Self::Prefixes) -> bool;

    /// An iterator over the prefixes of the set.
    fn prefixes(&self) -> (r: Self::Prefixes)
        ensures
            self.prefixes_result(r),
    ;

    /// `r` is what [`PrefixSet::ranges`] gives for `self`.
    spec fn ranges_result(&self, r: Vec<Self::Range>) -> bool;

    /// The aggregated prefix ranges of the set.
    fn ranges(&self) -> (r: Vec<Self::Range>)
        ensures
            self.ranges_result(r),
    ;

    /// The number of prefixes of the set fits a `usize`.
    spec fn len_pre(&self) -> bool;

    /// `r` is what [`PrefixSet::len`] gives for `self`.
    spec fn len_result(&self, r: usize) -> bool;

    /// The number of prefixes in the set.
    fn len(&self) -> (r: usize)
        requires
            self.len_pre(),
        ensures
            self.len_result(r),
    ;

    /// `r` is what [`PrefixSet::is_empty`] gives for `self`.
    spec fn is_empty_result(&self, r: bool) -> bool;

    /// Returns [`true`] if the set holds no prefix.
    fn is_empty(&self) -> (r: bool)
        ensures
            self.is_empty_result(r),
    ;
}

/// A mask of either kind.
pub trait Mask {
}

/// A netmask.
pub trait Netmask: Mask {
}

/// A hostmask.
pub trait Hostmask: Mask {
}

/// A mask that is the result of a bitwise operation on masks.
pub trait Bitmask: Mask {
}

} // verus!
