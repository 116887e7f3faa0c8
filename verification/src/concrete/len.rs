use vstd::prelude::*;

use core::marker::PhantomData;

use crate::afi::{width, Afi};
use crate::error::{Error, Kind};

verus! {

/// An IP prefix length guaranteed to be within appropriate bounds for
/// address family `A`.
#[derive(Copy, Debug, Hash)]
pub struct PrefixLength<A: Afi> {
    len: u8,
    afi: PhantomData<A>,
}

impl<A: Afi> View for PrefixLength<A> {
    type V = u8;

    closed spec fn view(&self) -> u8 {
        self.len
    }
}

impl<A: Afi> PrefixLength<A> {
    /// The bound that every prefix length of family `A` satisfies.
    #[verifier::type_invariant]
    pub open spec fn wf(self) -> bool {
        self@ as u128 <= width::<A>()
    }

    /// Construct a prefix length whose bound is known.
    pub fn new_unchecked(n: u8) -> (r: Self)
        requires
            n as u128 <= width::<A>(),
        ensures
            r@ == n,
    {
        PrefixLength { len: n, afi: PhantomData }
    }

    /// Minimum valid value of [`PrefixLength<A>`] (zero).
    pub fn minimum() -> (r: Self)
        ensures
            r@ == 0,
    {
        PrefixLength { len: 0, afi: PhantomData }
    }

    /// Maximum valid value of [`PrefixLength<A>`] (the address width).
    pub fn maximum() -> (r: Self)
        ensures
            r@ as u128 == width::<A>(),
    {
        PrefixLength { len: A::max_length(), afi: PhantomData }
    }

    /// Construct a new [`PrefixLength<A>`] from an integer primitive.
    ///
    /// # Errors
    ///
    /// Fails with [`Kind::PrefixLength`] if `n` is greater than the address
    /// width of `A`.
    pub fn from_primitive(n: u8) -> (r: Result<Self, Error>)
        ensures
            r is Ok <==> n as u128 <= width::<A>(),
            r matches Ok(l) ==> l@ == n,
            r matches Err(e) ==> e.spec_kind() == Kind::PrefixLength,
    {
        if n <= A::max_length() {
            Ok(PrefixLength { len: n, afi: PhantomData })
        } else {
            Err(Error::of_kind(Kind::PrefixLength))
        }
    }

    /// Get the inner integer value, consuming `self`.
    pub fn into_primitive(self) -> (r: u8)
        ensures
            r == self@,
    {
        self.len
    }

    /// Borrow the inner integer value.
    pub fn as_u8(&self) -> (r: &u8)
        ensures
            *r == self@,
    {
        &self.len
    }

    /// Construct a prefix length from a `usize`.
    ///
    /// # Errors
    ///
    /// Fails with [`Kind::PrefixLength`] if `value` exceeds the address width.
    pub fn try_from_usize(value: usize) -> (r: Result<Self, Error>)
        ensures
            r is Ok <==> value as u128 <= width::<A>(),
            r matches Ok(l) ==> l@ as usize == value,
            r matches Err(e) ==> e.spec_kind() == Kind::PrefixLength,
    {
        if value <= 255 {
            Self::from_primitive(value as u8)
        } else {
            proof {
                A::lemma_afi();
            }
            Err(Error::of_kind(Kind::PrefixLength))
        }
    }

    /// The next longer prefix length.
    ///
    /// # Errors
    ///
    /// Fails with [`Kind::PrefixLength`] if `self` is already the maximum.
    pub fn increment(self) -> (r: Result<Self, Error>)
        ensures
            r is Ok <==> (self@ as u128) < width::<A>(),
            r matches Ok(l) ==> l@ == self@ + 1,
            r matches Err(e) ==> e.spec_kind() == Kind::PrefixLength,
    {
        proof {
            use_type_invariant(&self);
            A::lemma_afi();
        }
        if self.len < A::max_length() {
            Self::from_primitive(self.len + 1)
        } else {
            Err(Error::of_kind(Kind::PrefixLength))
        }
    }

    /// The next shorter prefix length.
    ///
    /// # Errors
    ///
    /// Fails with [`Kind::PrefixLength`] if `self` is zero.
    pub fn decrement(self) -> (r: Result<Self, Error>)
        ensures
            r is Ok <==> self@ > 0,
            r matches Ok(l) ==> l@ == self@ - 1,
            r matches Err(e) ==> e.spec_kind() == Kind::PrefixLength,
    {
        proof {
            use_type_invariant(&self);
        }
        if self.len > 0 {
            Self::from_primitive(self.len - 1)
        } else {
            Err(Error::of_kind(Kind::PrefixLength))
        }
    }

    /// The complementary length `width - self`.
    pub fn complement(self) -> (r: Self)
        ensures
            r@ as u128 == width::<A>() - self@ as u128,
    {
        proof {
            use_type_invariant(&self);
        }
        PrefixLength { len: A::max_length() - self.len, afi: PhantomData }
    }

    /// Returns `true` if both lengths are equal.
    pub fn equals(&self, other: &Self) -> (r: bool)
        ensures
            r == (self@ == other@),
    {
        self.len == other.len
    }
}

impl<A: Afi> Clone for PrefixLength<A> {
    fn clone(&self) -> (r: Self)
        ensures
            r == *self,
    {
        *self
    }
}

impl<A: Afi> PartialEq for PrefixLength<A> {
    fn eq(&self, other: &Self) -> (r: bool) {
        self.len == other.len
    }
}

impl<A: Afi> vstd::std_specs::cmp::PartialEqSpecImpl for PrefixLength<A> {
    open spec fn obeys_eq_spec() -> bool {
        true
    }

    open spec fn eq_spec(&self, other: &Self) -> bool {
        self@ == other@
    }
}

impl<A: Afi> Eq for PrefixLength<A> {
}

impl<A: Afi> core::ops::Neg for PrefixLength<A> {
    type Output = Self;

    fn neg(self) -> (r: Self)
        ensures
            r@ as u128 == width::<A>() - self@ as u128,
    {
        proof {
            use_type_invariant(&self);
            A::lemma_afi();
        }
        self.complement()
    }
}

impl<A: Afi> vstd::std_specs::ops::NegSpecImpl for PrefixLength<A> {
    open spec fn obeys_neg_spec() -> bool {
        true
    }

    open spec fn neg_req(self) -> bool {
        true
    }

    closed spec fn neg_spec(self) -> Self {
        PrefixLength { len: (width::<A>() - self.len) as u8, afi: PhantomData }
    }
}

} // verus!

verus! {

impl<A: Afi> crate::traits::PrefixLength for PrefixLength<A> {
    open spec fn increment_result(self, r: Result<Self, Error>) -> bool {
        &&& r is Ok <==> (self@ as u128) < width::<A>()
        &&& r matches Ok(l) ==> l@ == self@ + 1
        &&& r matches Err(e) ==> e.spec_kind() == Kind::PrefixLength
    }

    fn increment(self) -> (r: Result<Self, Error>) {
        PrefixLength::<A>::increment(self)
    }

    open spec fn decrement_result(self, r: Result<Self, Error>) -> bool {
        &&& r is Ok <==> self@ > 0
        &&& r matches Ok(l) ==> l@ == self@ - 1
        &&& r matches Err(e) ==> e.spec_kind() == Kind::PrefixLength
    }

    fn decrement(self) -> (r: Result<Self, Error>) {
        PrefixLength::<A>::decrement(self)
    }
}

} // verus!
