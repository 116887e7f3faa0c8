use vstd::prelude::*;

use crate::afi::{width, Afi};
use crate::bits::{lemma_bitops_bound, ones};
use super::addr::Address;
use super::mask::{Mask, Type};

verus! {

impl<A: Afi> Address<A> {
    /// Bitwise and with a mask.
    pub fn and_mask<T: Type>(self, mask: Mask<T, A>) -> (r: Self)
        ensures
            r@ == self@ & mask@,
    {
        proof {
            use_type_invariant(&self);
            A::lemma_afi();
            use_type_invariant(&mask);
            A::lemma_afi();
            lemma_bitops_bound(width::<A>(), self@, mask@);
        }
        Self::from_value(self.value() & mask.value())
    }

    /// Bitwise or with a mask.
    pub fn or_mask<T: Type>(self, mask: Mask<T, A>) -> (r: Self)
        ensures
            r@ == self@ | mask@,
    {
        proof {
            use_type_invariant(&self);
            A::lemma_afi();
            use_type_invariant(&mask);
            A::lemma_afi();
            lemma_bitops_bound(width::<A>(), self@, mask@);
        }
        Self::from_value(self.value() | mask.value())
    }

    /// Add the value of a mask to the address, or `None` if the sum does not
    /// fit in the address width.
    pub fn checked_add_mask<T: Type>(self, mask: Mask<T, A>) -> (r: Option<Self>)
        ensures
            r is Some <==> self@ + mask@ <= ones(width::<A>()),
            r matches Some(a) ==> a@ == self@ + mask@,
    {
        proof {
            use_type_invariant(&self);
            A::lemma_afi();
        }
        match self.value().checked_add(mask.value()) {
            Some(v) => {
                if v <= Mask::<T, A>::ones().value() {
                    Some(Self::from_value(v))
                } else {
                    None
                }
            },
            None => None,
        }
    }

    /// Bitwise exclusive-or of two addresses.
    pub fn xor(self, other: Self) -> (r: u128)
        ensures
            r == self@ ^ other@,
    {
        proof {
            use_type_invariant(&self);
            A::lemma_afi();
            use_type_invariant(&other);
            A::lemma_afi();
            lemma_bitops_bound(width::<A>(), self@, other@);
        }
        self.value() ^ other.value()
    }
}

} // verus!
