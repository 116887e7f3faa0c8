use vstd::prelude::*;

use crate::afi::{width, Afi};
use crate::bits::{hmask, lemma_bitops_bound, nmask, ones, valid_width};
use crate::error::{Error, Kind};
use crate::model::{
    common_length_of, covers, is_common_length, lemma_truncate, truncate, valid_prefix,
    PrefixModel,
};
use super::addr::Address;
use super::len::PrefixLength;
use super::mask::{Hostmask, Netmask};

verus! {

impl<A: Afi> Address<A> {
    /// Compute the common length of `self` and another [`Address<A>`]: the
    /// number of leading bits on which they agree.
    pub fn common_length(self, other: Self) -> (r: PrefixLength<A>)
        ensures
            is_common_length(width::<A>(), self@, other@, r@ as u128),
    {
        proof {
            A::lemma_afi();
        }
        let l = common_length_of(A::max_length(), self.value(), other.value());
        PrefixLength::new_unchecked(l)
    }
}

/// Compute the length, as a [`PrefixLength<A>`], for the common prefixes of
/// two [`Address<A>`].
pub fn common_length<A: Afi>(lhs: Address<A>, rhs: Address<A>) -> (r: PrefixLength<A>)
    ensures
        is_common_length(width::<A>(), lhs@, rhs@, r@ as u128),
{
    lhs.common_length(rhs)
}

/// An IP prefix, consisting of a network address and prefix length.
#[derive(Copy, Debug, Hash)]
pub struct Prefix<A: Afi> {
    prefix: Address<A>,
    length: PrefixLength<A>,
}

impl<A: Afi> View for Prefix<A> {
    type V = PrefixModel;

    closed spec fn view(&self) -> PrefixModel {
        (self.prefix@, self.length@)
    }
}

impl<A: Afi> Prefix<A> {
    /// The prefix length is in bounds and the host bits are zero.
    #[verifier::type_invariant]
    pub open spec fn wf(self) -> bool {
        valid_prefix(width::<A>(), self@)
    }

    /// Construct a new [`Prefix<A>`] from an address and prefix length.
    ///
    /// The host bits of `prefix` will be automatically set to zero.
    pub fn new(prefix: Address<A>, length: PrefixLength<A>) -> (r: Self)
        ensures
            r@ == truncate(width::<A>(), prefix@, length@),
    {
        proof {
            use_type_invariant(&length);
            A::lemma_afi();
            use_type_invariant(&prefix);
            A::lemma_afi();
            lemma_truncate(width::<A>(), prefix@, length@);
        }
        let mask = Netmask::from_length(length);
        let net = Address::from_value(prefix.value() & mask.value());
        Prefix { prefix: net, length }
    }

    /// The prefix with network address `net` and length `len`.
    pub fn from_parts(net: u128, len: u8) -> (r: Self)
        requires
            valid_prefix(width::<A>(), (net, len)),
        ensures
            r@ == (net, len),
    {
        Prefix { prefix: Address::from_value(net), length: PrefixLength::new_unchecked(len) }
    }

    /// The prefix `0/0` covering every address of the family.
    pub fn default_route() -> (r: Self)
        ensures
            r@ == (0u128, 0u8),
    {
        proof {
            A::lemma_afi();
            crate::bits::lemma_mask_ends(width::<A>());
            crate::bits::lemma_fits(width::<A>(), ones(width::<A>()));
        }
        Prefix { prefix: Address::from_value(0), length: PrefixLength::minimum() }
    }

    /// Get the network address of this prefix.
    pub fn prefix(&self) -> (r: Address<A>)
        ensures
            r@ == self@.0,
    {
        self.prefix
    }

    /// Get the length of this prefix.
    pub fn length(&self) -> (r: PrefixLength<A>)
        ensures
            r@ == self@.1,
    {
        self.length
    }

    /// The network address of the prefix.
    pub fn network(&self) -> (r: Address<A>)
        ensures
            r@ == self@.0,
    {
        self.prefix
    }

    /// The hostmask of the prefix.
    pub fn hostmask(&self) -> (r: Hostmask<A>)
        ensures
            r@ == hmask(width::<A>(), self@.1 as u128),
    {
        Hostmask::from_length(self.length)
    }

    /// The netmask of the prefix.
    pub fn netmask(&self) -> (r: Netmask<A>)
        ensures
            r@ == nmask(width::<A>(), self@.1 as u128),
    {
        Netmask::from_length(self.length)
    }

    /// The maximum prefix length of the address family.
    pub fn max_prefix_len(&self) -> (r: PrefixLength<A>)
        ensures
            r@ as u128 == width::<A>(),
    {
        PrefixLength::maximum()
    }

    /// The length of this prefix.
    pub fn prefix_len(&self) -> (r: PrefixLength<A>)
        ensures
            r@ == self@.1,
    {
        self.length
    }

    /// The highest address of the prefix (the network address with every
    /// host bit set).
    pub fn broadcast(&self) -> (r: Address<A>)
        ensures
            r@ == self@.0 | hmask(width::<A>(), self@.1 as u128),
    {
        proof {
            use_type_invariant(self);
            A::lemma_afi();
        }
        let h = self.hostmask();
        proof {
            use_type_invariant(&h);
            A::lemma_afi();
            lemma_bitops_bound(width::<A>(), self@.0, h@);
        }
        Address::from_value(self.prefix.value() | h.value())
    }

    /// The prefix one bit shorter covering `self`, or `None` for a
    /// zero-length prefix.
    pub fn supernet(&self) -> (r: Option<Self>)
        ensures
            r is Some <==> self@.1 > 0,
            r matches Some(s) ==> s@ == truncate(width::<A>(), self@.0, (self@.1 - 1) as u8),
    {
        match self.length.decrement() {
            Ok(len) => Some(Self::new(self.prefix, len)),
            Err(_) => None,
        }
    }

    /// Returns `true` if both prefixes have the same supernet (two
    /// zero-length prefixes are siblings).
    pub fn is_sibling(&self, other: &Self) -> (r: bool)
        ensures
            r == (match (self@.1 > 0, other@.1 > 0) {
                (true, true) => truncate(width::<A>(), self@.0, (self@.1 - 1) as u8) == truncate(
                    width::<A>(),
                    other@.0,
                    (other@.1 - 1) as u8,
                ),
                (false, false) => true,
                _ => false,
            }),
    {
        match (self.supernet(), other.supernet()) {
            (Some(s), Some(o)) => s.equals(&o),
            (None, None) => true,
            _ => false,
        }
    }

    /// Returns `true` if both prefixes are equal.
    pub fn equals(&self, other: &Self) -> (r: bool)
        ensures
            r == (self@ == other@),
    {
        self.prefix.value() == other.prefix.value() && self.length.into_primitive()
            == other.length.into_primitive()
    }

    /// Returns `true` if `other` is covered by `self`.
    pub fn covers(&self, other: &Self) -> (r: bool)
        ensures
            r == covers(width::<A>(), self@, other@),
    {
        proof {
            use_type_invariant(other);
        }
        let m = Netmask::from_length(self.length);
        self.length.into_primitive() <= other.length.into_primitive() && (other.prefix.value()
            & m.value()) == self.prefix.value()
    }

    /// Replace the network address, keeping the length.
    pub fn with_address(&self, addr: Address<A>) -> (r: Self)
        ensures
            r@ == truncate(width::<A>(), addr@, self@.1),
    {
        Self::new(addr, self.length)
    }

    /// Construct a new prefix of the same family with the given length.
    ///
    /// # Errors
    ///
    /// Fails with [`Kind::PrefixLength`] if `length` exceeds the address width.
    pub fn new_prefix_length(&self, length: u8) -> (r: Result<PrefixLength<A>, Error>)
        ensures
            r is Ok <==> length as u128 <= width::<A>(),
            r matches Ok(l) ==> l@ == length,
            r matches Err(e) ==> e.spec_kind() == Kind::PrefixLength,
    {
        PrefixLength::from_primitive(length)
    }
}

impl<A: Afi> Clone for Prefix<A> {
    fn clone(&self) -> (r: Self)
        ensures
            r == *self,
    {
        *self
    }
}

impl<A: Afi> PartialEq for Prefix<A> {
    fn eq(&self, other: &Self) -> (r: bool) {
        self.equals(other)
    }
}

impl<A: Afi> vstd::std_specs::cmp::PartialEqSpecImpl for Prefix<A> {
    open spec fn obeys_eq_spec() -> bool {
        true
    }

    open spec fn eq_spec(&self, other: &Self) -> bool {
        self@ == other@
    }
}

impl<A: Afi> Eq for Prefix<A> {
}

} // verus!

verus! {

impl<A: Afi> crate::traits::Prefix for Prefix<A> {
    type Address = Address<A>;

    type PrefixLength = PrefixLength<A>;

    type Hostmask = Hostmask<A>;

    type Netmask = Netmask<A>;

    open spec fn network_result(&self, r: Address<A>) -> bool {
        &&& r@ == self@.0
    }

    fn network(&self) -> (r: Address<A>) {
        Prefix::<A>::network(self)
    }

    open spec fn hostmask_result(&self, r: Hostmask<A>) -> bool {
        &&& r@ == hmask(width::<A>(), self@.1 as u128)
    }

    fn hostmask(&self) -> (r: Hostmask<A>) {
        Prefix::<A>::hostmask(self)
    }

    open spec fn netmask_result(&self, r: Netmask<A>) -> bool {
        &&& r@ == nmask(width::<A>(), self@.1 as u128)
    }

    fn netmask(&self) -> (r: Netmask<A>) {
        Prefix::<A>::netmask(self)
    }

    open spec fn max_prefix_len_result(&self, r: PrefixLength<A>) -> bool {
        &&& r@ as u128 == width::<A>()
    }

    fn max_prefix_len(&self) -> (r: PrefixLength<A>) {
        Prefix::<A>::max_prefix_len(self)
    }

    open spec fn prefix_len_result(&self, r: PrefixLength<A>) -> bool {
        &&& r@ == self@.1
    }

    fn prefix_len(&self) -> (r: PrefixLength<A>) {
        Prefix::<A>::prefix_len(self)
    }

    open spec fn broadcast_result(&self, r: Address<A>) -> bool {
        &&& r@ == self@.0 | hmask(width::<A>(), self@.1 as u128)
    }

    fn broadcast(&self) -> (r: Address<A>) {
        Prefix::<A>::broadcast(self)
    }

    open spec fn supernet_result(&self, r: Option<Self>) -> bool {
        &&& r is Some <==> self@.1 > 0
        &&& r matches Some(s) ==> s@ == truncate(width::<A>(), self@.0, (self@.1 - 1) as u8)
    }

    fn supernet(&self) -> (r: Option<Self>) {
        Prefix::<A>::supernet(self)
    }

    open spec fn is_sibling_result(&self, other: &Self, r: bool) -> bool {
        &&& r == (match (self@.1 > 0, other@.1 > 0) { (true, true) => truncate(width::<A>(), self@.0, (self@.1 - 1) as u8) == truncate(width::<A>(), other@.0, (other@.1 - 1) as u8), (false, false) => true, _ => false, })
    }

    fn is_sibling(&self, other: &Self) -> (r: bool) {
        Prefix::<A>::is_sibling(self, other)
    }
}

} // verus!
