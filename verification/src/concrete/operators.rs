use vstd::prelude::*;

use crate::afi::{width, Afi};
use crate::bits::ones;
use super::addr::Address;
use super::len::PrefixLength;
use super::mask::{Bitmask, Mask, Type};

verus! {

impl<T: Type, A: Afi> core::ops::Shl<PrefixLength<A>> for Mask<T, A> {
    type Output = Self;

    fn shl(self, rhs: PrefixLength<A>) -> (r: Self)
        ensures
            r@ == (if rhs@ as u128 == width::<A>() {
                0
            } else {
                (self@ << (rhs@ as u128)) & ones(width::<A>())
            }),
    {
        self.shl_length(rhs)
    }
}

impl<T: Type, A: Afi> vstd::std_specs::ops::ShlSpecImpl<PrefixLength<A>> for Mask<T, A> {
    /// Not claimed: the operation states its result through the view, which is
    /// all that the value chosen below is known to share with it.
    open spec fn obeys_shl_spec() -> bool {
        false
    }

    open spec fn shl_req(self, rhs: PrefixLength<A>) -> bool {
        true
    }

    open spec fn shl_spec(self, rhs: PrefixLength<A>) -> Self {
        choose|r: Self| (r@ == (if rhs@ as u128 == width::<A>() { 0 } else { (self@ << (rhs@ as u128)) & ones(width::<A>()) }))
    }
}

impl<T: Type, A: Afi> core::ops::Shr<PrefixLength<A>> for Mask<T, A> {
    type Output = Self;

    fn shr(self, rhs: PrefixLength<A>) -> (r: Self)
        ensures
            r@ == (if rhs@ as u128 == width::<A>() {
                0
            } else {
                self@ >> (rhs@ as u128)
            }),
    {
        self.shr_length(rhs)
    }
}

impl<T: Type, A: Afi> vstd::std_specs::ops::ShrSpecImpl<PrefixLength<A>> for Mask<T, A> {
    /// Not claimed: the operation states its result through the view, which is
    /// all that the value chosen below is known to share with it.
    open spec fn obeys_shr_spec() -> bool {
        false
    }

    open spec fn shr_req(self, rhs: PrefixLength<A>) -> bool {
        true
    }

    open spec fn shr_spec(self, rhs: PrefixLength<A>) -> Self {
        choose|r: Self| (r@ == (if rhs@ as u128 == width::<A>() { 0 } else { self@ >> (rhs@ as u128) }))
    }
}

impl<T1: Type, T2: Type, A: Afi> core::ops::BitAnd<Mask<T2, A>> for Mask<T1, A> {
    type Output = Bitmask<A>;

    fn bitand(self, rhs: Mask<T2, A>) -> (r: Bitmask<A>)
        ensures
            r@ == self@ & rhs@,
    {
        self.and_mask(rhs)
    }
}

impl<T1: Type, T2: Type, A: Afi> vstd::std_specs::ops::BitAndSpecImpl<Mask<T2, A>> for Mask<T1, A> {
    /// Not claimed: the operation states its result through the view, which is
    /// all that the value chosen below is known to share with it.
    open spec fn obeys_bitand_spec() -> bool {
        false
    }

    open spec fn bitand_req(self, rhs: Mask<T2, A>) -> bool {
        true
    }

    open spec fn bitand_spec(self, rhs: Mask<T2, A>) -> Bitmask<A> {
        choose|r: Bitmask<A>| (r@ == self@ & rhs@)
    }
}

impl<T: Type, A: Afi> core::ops::BitAnd<Mask<T, A>> for Address<A> {
    type Output = Self;

    fn bitand(self, mask: Mask<T, A>) -> (r: Self)
        ensures
            r@ == self@ & mask@,
    {
        self.and_mask(mask)
    }
}

impl<T: Type, A: Afi> vstd::std_specs::ops::BitAndSpecImpl<Mask<T, A>> for Address<A> {
    /// Not claimed: the operation states its result through the view, which is
    /// all that the value chosen below is known to share with it.
    open spec fn obeys_bitand_spec() -> bool {
        false
    }

    open spec fn bitand_req(self, mask: Mask<T, A>) -> bool {
        true
    }

    open spec fn bitand_spec(self, mask: Mask<T, A>) -> Self {
        choose|r: Self| (r@ == self@ & mask@)
    }
}

impl<T: Type, A: Afi> core::ops::BitOr<Mask<T, A>> for Address<A> {
    type Output = Self;

    fn bitor(self, mask: Mask<T, A>) -> (r: Self)
        ensures
            r@ == self@ | mask@,
    {
        self.or_mask(mask)
    }
}

impl<T: Type, A: Afi> vstd::std_specs::ops::BitOrSpecImpl<Mask<T, A>> for Address<A> {
    /// Not claimed: the operation states its result through the view, which is
    /// all that the value chosen below is known to share with it.
    open spec fn obeys_bitor_spec() -> bool {
        false
    }

    open spec fn bitor_req(self, mask: Mask<T, A>) -> bool {
        true
    }

    open spec fn bitor_spec(self, mask: Mask<T, A>) -> Self {
        choose|r: Self| (r@ == self@ | mask@)
    }
}

impl<T: Type, A: Afi> core::ops::Add<Mask<T, A>> for Address<A> {
    type Output = Option<Self>;

    fn add(self, mask: Mask<T, A>) -> (r: Option<Self>)
        ensures
            r is Some <==> self@ + mask@ <= ones(width::<A>()),
            r matches Some(a) ==> a@ == self@ + mask@,
    {
        self.checked_add_mask(mask)
    }
}

impl<T: Type, A: Afi> vstd::std_specs::ops::AddSpecImpl<Mask<T, A>> for Address<A> {
    /// Not claimed: the operation states its result through the view, which is
    /// all that the value chosen below is known to share with it.
    open spec fn obeys_add_spec() -> bool {
        false
    }

    open spec fn add_req(self, mask: Mask<T, A>) -> bool {
        true
    }

    open spec fn add_spec(self, mask: Mask<T, A>) -> Option<Self> {
        if self@ + mask@ <= ones(width::<A>()) {
            Some(choose|a: Self| a@ == self@ + mask@)
        } else {
            None
        }
    }
}

impl<A: Afi> core::ops::BitXor<Address<A>> for Address<A> {
    type Output = u128;

    fn bitxor(self, rhs: Address<A>) -> (r: u128)
        ensures
            r == self@ ^ rhs@,
    {
        self.xor(rhs)
    }
}

impl<A: Afi> vstd::std_specs::ops::BitXorSpecImpl<Address<A>> for Address<A> {
    open spec fn obeys_bitxor_spec() -> bool {
        true
    }

    open spec fn bitxor_req(self, rhs: Address<A>) -> bool {
        true
    }

    open spec fn bitxor_spec(self, rhs: Address<A>) -> u128 {
        self@ ^ rhs@
    }
}

} // verus!
