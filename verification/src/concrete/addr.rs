use vstd::prelude::*;

use core::marker::PhantomData;

use crate::afi::{width, Afi};
use crate::bits::{be_bytes, ones, valid_width};

verus! {

/// An IP address of address family `A`.
#[derive(Copy, Debug, Hash)]
pub struct Address<A: Afi> {
    inner: u128,
    afi: PhantomData<A>,
}

impl<A: Afi> View for Address<A> {
    type V = u128;

    closed spec fn view(&self) -> u128 {
        self.inner
    }
}

impl<A: Afi> Address<A> {
    /// Every address value fits in the width of its family.
    #[verifier::type_invariant]
    pub open spec fn fits(self) -> bool {
        self@ <= ones(width::<A>())
    }
}

impl<A: Afi> Address<A> {
    /// Construct a new [`Address<A>`] from its integer value, which must fit
    /// in the address width of `A`.
    pub fn new(inner: u128) -> (r: Self)
        requires
            inner <= ones(width::<A>()),
        ensures
            r@ == inner,
    {
        Address { inner, afi: PhantomData }
    }

    /// Construct an address from its integer value.
    pub fn from_value(v: u128) -> (r: Self)
        requires
            v <= ones(width::<A>()),
        ensures
            r@ == v,
    {
        Address { inner: v, afi: PhantomData }
    }

    /// Get the integer value, consuming `self`.
    pub fn into_primitive(self) -> (r: u128)
        ensures
            r == self@,
            r <= ones(width::<A>()),
    {
        proof {
            use_type_invariant(&self);
            A::lemma_afi();
        }
        self.inner
    }

    /// The integer value of the address.
    pub fn value(&self) -> (r: u128)
        ensures
            r == self@,
            r <= ones(width::<A>()),
    {
        proof {
            use_type_invariant(self);
            A::lemma_afi();
        }
        self.inner
    }

    /// The big-endian octets of the address.
    pub fn octets(&self) -> (r: A::Octets)
        ensures
            A::spec_octets(r) == be_bytes(self@, width::<A>()),
    {
        proof {
            use_type_invariant(self);
            A::lemma_afi();
        }
        A::octets_of(self.value())
    }

    /// Construct an address from its big-endian octets.
    pub fn from_octets(octets: A::Octets) -> (r: Self)
        ensures
            be_bytes(r@, width::<A>()) == A::spec_octets(octets),
    {
        Self::from_value(A::value_of(octets))
    }

    /// Returns `true` if both addresses are equal.
    pub fn equals(&self, other: &Self) -> (r: bool)
        ensures
            r == (self@ == other@),
    {
        self.value() == other.value()
    }
}

impl<A: Afi> Clone for Address<A> {
    fn clone(&self) -> (r: Self)
        ensures
            r == *self,
    {
        *self
    }
}

impl<A: Afi> PartialEq for Address<A> {
    fn eq(&self, other: &Self) -> (r: bool) {
        self.value() == other.value()
    }
}

impl<A: Afi> vstd::std_specs::cmp::PartialEqSpecImpl for Address<A> {
    open spec fn obeys_eq_spec() -> bool {
        true
    }

    open spec fn eq_spec(&self, other: &Self) -> bool {
        self@ == other@
    }
}

impl<A: Afi> Eq for Address<A> {
}

} // verus!
