use vstd::prelude::*;

use core::marker::PhantomData;

use crate::afi::{width, Afi};
use crate::bits::{hmask, lemma_bitops_bound, lemma_mask_ends, lemma_netmask_shift, lemma_shifts_bound, nmask, ones};
use super::len::PrefixLength;

verus! {

/// Marker trait for types of IP address mask.
pub trait Type: Copy {
}

/// A "net"-mask, used to mask the network identifier bits of an IP address.
#[derive(Clone, Copy, Debug, Hash, PartialEq, Eq)]
pub struct Net;

impl Type for Net {
}

/// A "host"-mask, used to mask the host identifier bits of an IP address.
#[derive(Clone, Copy, Debug, Hash, PartialEq, Eq)]
pub struct Host;

impl Type for Host {
}

/// An arbitrary bit-mask.
#[derive(Clone, Copy, Debug, Hash, PartialEq, Eq)]
pub struct Bit;

impl Type for Bit {
}

/// An IP mask of address family `A`.
#[derive(Copy, Debug, Hash)]
pub struct Mask<T: Type, A: Afi> {
    bits: u128,
    kind: PhantomData<T>,
    afi: PhantomData<A>,
}

/// An IP Netmask.
pub type Netmask<A> = Mask<Net, A>;

/// An IP Hostmask.
pub type Hostmask<A> = Mask<Host, A>;

/// An address bit-mask.
pub type Bitmask<A> = Mask<Bit, A>;

impl<T: Type, A: Afi> View for Mask<T, A> {
    type V = u128;

    closed spec fn view(&self) -> u128 {
        self.bits
    }
}

impl<T: Type, A: Afi> Mask<T, A> {
    /// Every mask value fits in the width of its family.
    #[verifier::type_invariant]
    pub open spec fn fits(self) -> bool {
        self@ <= ones(width::<A>())
    }

    /// Construct a new [`Mask<T, A>`] from its integer value, which must fit
    /// in the address width of `A`.
    pub fn new(bits: u128) -> (r: Self)
        requires
            bits <= ones(width::<A>()),
        ensures
            r@ == bits,
    {
        Mask { bits, kind: PhantomData, afi: PhantomData }
    }

    /// Construct a mask from its value widened to `u128`.
    pub fn from_value(v: u128) -> (r: Self)
        requires
            v <= ones(width::<A>()),
        ensures
            r@ == v,
    {
        Mask { bits: v, kind: PhantomData, afi: PhantomData }
    }

    /// Get the integer value, consuming `self`.
    pub fn into_primitive(self) -> (r: u128)
        ensures
            r == self@,
            r <= ones(width::<A>()),
    {
        proof {
            use_type_invariant(&self);
            A::lemma_afi();
        }
        self.bits
    }

    /// The integer value of the mask.
    pub fn value(&self) -> (r: u128)
        ensures
            r == self@,
            r <= ones(width::<A>()),
    {
        proof {
            use_type_invariant(self);
            A::lemma_afi();
        }
        self.bits
    }

    /// The "all-zeros" mask.
    pub fn zeros() -> (r: Self)
        ensures
            r@ == 0,
    {
        Self::from_value(0)
    }

    /// The "all-ones" mask.
    pub fn ones() -> (r: Self)
        ensures
            r@ == ones(width::<A>()),
    {
        proof {
            A::lemma_afi();
        }
        if A::max_length() == 32 {
            Self::from_value(0xffff_ffff)
        } else {
            Self::from_value(u128::MAX)
        }
    }

    /// Shift the mask left by a prefix-length, dropping bits shifted out of
    /// the address width.
    pub fn shl_length(self, rhs: PrefixLength<A>) -> (r: Self)
        ensures
            r@ == (if rhs@ as u128 == width::<A>() {
                0
            } else {
                (self@ << (rhs@ as u128)) & ones(width::<A>())
            }),
    {
        proof {
            use_type_invariant(&rhs);
            A::lemma_afi();
            use_type_invariant(&self);
            A::lemma_afi();
        }
        let n = rhs.into_primitive();
        if n == A::max_length() {
            Self::zeros()
        } else {
            let all = Self::ones().value();
            proof {
                lemma_shifts_bound(width::<A>(), self@, n as u128);
            }
            Self::from_value((self.value() << n as u32) & all)
        }
    }

    /// Shift the mask right by a prefix-length.
    pub fn shr_length(self, rhs: PrefixLength<A>) -> (r: Self)
        ensures
            r@ == (if rhs@ as u128 == width::<A>() {
                0
            } else {
                self@ >> (rhs@ as u128)
            }),
    {
        proof {
            use_type_invariant(&rhs);
            A::lemma_afi();
            use_type_invariant(&self);
            A::lemma_afi();
        }
        let n = rhs.into_primitive();
        if n == A::max_length() {
            Self::zeros()
        } else {
            proof {
                lemma_shifts_bound(width::<A>(), self@, n as u128);
            }
            Self::from_value(self.value() >> n as u32)
        }
    }

    /// Bitwise and of two masks of any type.
    pub fn and_mask<T2: Type>(self, rhs: Mask<T2, A>) -> (r: Bitmask<A>)
        ensures
            r@ == self@ & rhs@,
    {
        proof {
            use_type_invariant(&self);
            A::lemma_afi();
            use_type_invariant(&rhs);
            A::lemma_afi();
            A::lemma_afi();
            lemma_bitops_bound(width::<A>(), self@, rhs@);
        }
        Mask::from_value(self.value() & rhs.value())
    }

    /// Returns `true` if both masks are equal.
    pub fn equals(&self, other: &Self) -> (r: bool)
        ensures
            r == (self@ == other@),
    {
        self.value() == other.value()
    }
}

impl<A: Afi> Mask<Net, A> {
    /// The netmask of a prefix-length: the `length` most significant bits set.
    pub fn from_length(length: PrefixLength<A>) -> (r: Self)
        ensures
            r@ == nmask(width::<A>(), length@ as u128),
    {
        proof {
            use_type_invariant(&length);
            A::lemma_afi();
            lemma_mask_ends(width::<A>());
        }
        let r = Self::ones().shl_length(length.complement());
        proof {
            if length@ > 0 {
                lemma_netmask_shift(width::<A>(), length@ as u128);
            }
        }
        r
    }
}

impl<A: Afi> Mask<Host, A> {
    /// The hostmask of a prefix-length: all bits but the `length` most
    /// significant set.
    pub fn from_length(length: PrefixLength<A>) -> (r: Self)
        ensures
            r@ == hmask(width::<A>(), length@ as u128),
    {
        proof {
            use_type_invariant(&length);
            A::lemma_afi();
            lemma_mask_ends(width::<A>());
        }
        let r = Self::ones().shr_length(length);
        proof {
            if (length@ as u128) < width::<A>() {
                lemma_shifts_bound(width::<A>(), 0, length@ as u128);
            }
        }
        r
    }
}

impl<A: Afi> Mask<Bit, A> {
    /// Bitwise or with a mask of any type.
    pub fn or_mask<T: Type>(self, rhs: Mask<T, A>) -> (r: Self)
        ensures
            r@ == self@ | rhs@,
    {
        proof {
            use_type_invariant(&self);
            A::lemma_afi();
            use_type_invariant(&rhs);
            A::lemma_afi();
            A::lemma_afi();
            lemma_bitops_bound(width::<A>(), self@, rhs@);
        }
        Mask::from_value(self.value() | rhs.value())
    }

    /// Bitwise exclusive-or with a mask of any type.
    pub fn xor_mask<T: Type>(self, rhs: Mask<T, A>) -> (r: Self)
        ensures
            r@ == self@ ^ rhs@,
    {
        proof {
            use_type_invariant(&self);
            A::lemma_afi();
            use_type_invariant(&rhs);
            A::lemma_afi();
            A::lemma_afi();
            lemma_bitops_bound(width::<A>(), self@, rhs@);
        }
        Mask::from_value(self.value() ^ rhs.value())
    }

    /// Bitwise complement within the address width.
    pub fn not_mask(self) -> (r: Self)
        ensures
            r@ == !self@ & ones(width::<A>()),
    {
        proof {
            use_type_invariant(&self);
            A::lemma_afi();
            A::lemma_afi();
            lemma_bitops_bound(width::<A>(), self@, self@);
        }
        let all = Self::ones().value();
        Mask::from_value(!self.value() & all)
    }

    /// A bit-mask holding the bits of an address.
    pub fn from_address(addr: super::addr::Address<A>) -> (r: Self)
        ensures
            r@ == addr@,
    {
        proof {
            use_type_invariant(&addr);
            A::lemma_afi();
        }
        Mask::from_value(addr.value())
    }
}

impl<T: Type, A: Afi> Clone for Mask<T, A> {
    fn clone(&self) -> (r: Self)
        ensures
            r == *self,
    {
        *self
    }
}

impl<T: Type, A: Afi> PartialEq for Mask<T, A> {
    fn eq(&self, other: &Self) -> (r: bool) {
        self.value() == other.value()
    }
}

impl<T: Type, A: Afi> vstd::std_specs::cmp::PartialEqSpecImpl for Mask<T, A> {
    open spec fn obeys_eq_spec() -> bool {
        true
    }

    open spec fn eq_spec(&self, other: &Self) -> bool {
        self@ == other@
    }
}

impl<T: Type, A: Afi> Eq for Mask<T, A> {
}

} // verus!

verus! {

impl<T: Type, A: Afi> crate::traits::Mask for Mask<T, A> {
}

impl<A: Afi> crate::traits::Netmask for Netmask<A> {
}

impl<A: Afi> crate::traits::Hostmask for Hostmask<A> {
}

impl<A: Afi> crate::traits::Bitmask for Bitmask<A> {
}

} // verus!
