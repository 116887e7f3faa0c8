use vstd::prelude::*;

use crate::afi::{width, Afi};
use crate::bits::hmask;
use crate::model::truncate;
use super::addr::Address;
use super::len::PrefixLength;
use super::prefix::Prefix;

verus! {

/// An IP interface, consisting of an address and prefix length.
#[derive(Copy, Debug, Hash)]
pub struct Interface<A: Afi> {
    address: Address<A>,
    length: PrefixLength<A>,
}

impl<A: Afi> View for Interface<A> {
    type V = (u128, u8);

    closed spec fn view(&self) -> (u128, u8) {
        (self.address@, self.length@)
    }
}

impl<A: Afi> Interface<A> {
    /// The prefix length of an interface is in bounds.
    #[verifier::type_invariant]
    pub open spec fn wf(self) -> bool {
        self@.1 as u128 <= width::<A>()
    }

    /// Construct a new [`Interface<A>`] from an address and prefix length.
    pub fn new(address: Address<A>, length: PrefixLength<A>) -> (r: Self)
        ensures
            r@ == (address@, length@),
    {
        proof {
            use_type_invariant(&length);
        }
        Interface { address, length }
    }

    /// Construct a host interface (of maximum prefix length) from an address.
    pub fn from_address(address: Address<A>) -> (r: Self)
        ensures
            r@.0 == address@,
            r@.1 as u128 == width::<A>(),
    {
        Self::new(address, PrefixLength::maximum())
    }

    /// Get the address of this interface.
    pub fn address(&self) -> (r: Address<A>)
        ensures
            r@ == self@.0,
    {
        self.address
    }

    /// Get the prefix length of this interface.
    pub fn length(&self) -> (r: PrefixLength<A>)
        ensures
            r@ == self@.1,
    {
        self.length
    }

    /// The address of this interface.
    pub fn addr(&self) -> (r: Address<A>)
        ensures
            r@ == self@.0,
    {
        self.address
    }

    /// The prefix length of this interface.
    pub fn prefix_len(&self) -> (r: PrefixLength<A>)
        ensures
            r@ == self@.1,
    {
        self.length
    }

    /// The prefix containing the interface address.
    pub fn trunc(&self) -> (r: Prefix<A>)
        ensures
            r@ == truncate(width::<A>(), self@.0, self@.1),
    {
        Prefix::new(self.address, self.length)
    }

    /// The network address of the interface's prefix.
    pub fn network(&self) -> (r: Address<A>)
        ensures
            r@ == truncate(width::<A>(), self@.0, self@.1).0,
    {
        self.trunc().network()
    }

    /// The broadcast address of the interface's prefix.
    pub fn broadcast(&self) -> (r: Address<A>)
        ensures
            r@ == truncate(width::<A>(), self@.0, self@.1).0 | hmask(width::<A>(), self@.1 as u128),
    {
        self.trunc().broadcast()
    }

    /// Returns `true` if both interfaces are equal.
    pub fn equals(&self, other: &Self) -> (r: bool)
        ensures
            r == (self@ == other@),
    {
        self.address.equals(&other.address) && self.length.equals(&other.length)
    }
}

impl<A: Afi> Clone for Interface<A> {
    fn clone(&self) -> (r: Self)
        ensures
            r == *self,
    {
        *self
    }
}

impl<A: Afi> PartialEq for Interface<A> {
    fn eq(&self, other: &Self) -> (r: bool) {
        self.equals(other)
    }
}

impl<A: Afi> vstd::std_specs::cmp::PartialEqSpecImpl for Interface<A> {
    open spec fn obeys_eq_spec() -> bool {
        true
    }

    open spec fn eq_spec(&self, other: &Self) -> bool {
        self@ == other@
    }
}

impl<A: Afi> Eq for Interface<A> {
}

/// The host prefix of the address `v` of family `A`: the prefix of maximum
/// length holding only that address.
pub open spec fn host_prefix<A: Afi>(v: u128) -> crate::model::PrefixModel {
    (v, width::<A>() as u8)
}

impl<A: Afi> Prefix<A> {
    /// The prefix containing an interface's address.
    pub fn from_interface(interface: Interface<A>) -> (r: Self)
        ensures
            r@ == truncate(width::<A>(), interface@.0, interface@.1),
    {
        Self::new(interface.address(), interface.length())
    }

    /// The host prefix (of maximum length) of an address.
    pub fn from_address(addr: Address<A>) -> (r: Self)
        ensures
            r@ == host_prefix::<A>(addr@),
            r@ == truncate(width::<A>(), addr@, r@.1),
            r@.1 as u128 == width::<A>(),
    {
        proof {
            use_type_invariant(&addr);
            A::lemma_afi();
            crate::bits::lemma_mask_ends(width::<A>());
            crate::bits::lemma_fits(width::<A>(), addr@);
        }
        Self::new(addr, PrefixLength::maximum())
    }
}

} // verus!

verus! {

impl<A: Afi> crate::traits::Interface for Interface<A> {
    type Address = Address<A>;

    type Prefix = Prefix<A>;

    type PrefixLength = PrefixLength<A>;

    open spec fn network_result(&self, r: Address<A>) -> bool {
        &&& r@ == truncate(width::<A>(), self@.0, self@.1).0
    }

    fn network(&self) -> (r: Address<A>) {
        Interface::<A>::network(self)
    }

    open spec fn addr_result(&self, r: Address<A>) -> bool {
        &&& r@ == self@.0
    }

    fn addr(&self) -> (r: Address<A>) {
        Interface::<A>::addr(self)
    }

    open spec fn trunc_result(&self, r: Prefix<A>) -> bool {
        &&& r@ == truncate(width::<A>(), self@.0, self@.1)
    }

    fn trunc(&self) -> (r: Prefix<A>) {
        Interface::<A>::trunc(self)
    }

    open spec fn prefix_len_result(&self, r: PrefixLength<A>) -> bool {
        &&& r@ == self@.1
    }

    fn prefix_len(&self) -> (r: PrefixLength<A>) {
        Interface::<A>::prefix_len(self)
    }

    open spec fn broadcast_result(&self, r: Address<A>) -> bool {
        &&& r@ == truncate(width::<A>(), self@.0, self@.1).0 | hmask(width::<A>(), self@.1 as u128)
    }

    fn broadcast(&self) -> (r: Address<A>) {
        Interface::<A>::broadcast(self)
    }
}

} // verus!
