use vstd::prelude::*;

use core::ops::{Add, BitAnd, BitOr, BitXor, Mul, Not, Sub};

use crate::afi::{width, Afi};
use crate::model::PrefixModel;
use super::prefix_set::{all_prefixes, PrefixSet};

verus! {

impl<A: Afi> PrefixSet<A> {
    /// The empty set, the identity of union.
    pub fn zero() -> (r: Self)
        ensures
            r@ == Set::<PrefixModel>::empty(),
    {
        Self::new()
    }

    /// Returns [`true`] if the set is empty.
    pub fn is_zero(&self) -> (r: bool)
        ensures
            r == (self@ == Set::<PrefixModel>::empty()),
    {
        self.is_empty()
    }
}

impl<A: Afi> Clone for PrefixSet<A> {
    fn clone(&self) -> (r: Self)
        ensures
            r@ == self@,
    {
        self.copy()
    }
}

impl<A: Afi> Default for PrefixSet<A> {
    fn default() -> (r: Self)
        ensures
            r@ == Set::<PrefixModel>::empty(),
    {
        Self::new()
    }
}

impl<A: Afi> PartialEq for PrefixSet<A> {
    fn eq(&self, other: &Self) -> (r: bool) {
        self.equals(other)
    }
}

impl<A: Afi> vstd::std_specs::cmp::PartialEqSpecImpl for PrefixSet<A> {
    open spec fn obeys_eq_spec() -> bool {
        true
    }

    open spec fn eq_spec(&self, other: &Self) -> bool {
        self@ == other@
    }
}

impl<A: Afi> Eq for PrefixSet<A> {
}

impl<A: Afi> BitAnd for PrefixSet<A> {
    type Output = Self;

    fn bitand(self, rhs: Self) -> (r: Self)
        ensures
            r@ == self@.intersect(rhs@),
    {
        self.intersection(&rhs)
    }
}

impl<A: Afi> vstd::std_specs::ops::BitAndSpecImpl for PrefixSet<A> {
    /// Not claimed: the operation states its result through the view, which is
    /// all that the value chosen below is known to share with it.
    open spec fn obeys_bitand_spec() -> bool {
        false
    }

    open spec fn bitand_req(self, rhs: Self) -> bool {
        true
    }

    open spec fn bitand_spec(self, rhs: Self) -> Self {
        choose|r: Self| (r@ == self@.intersect(rhs@))
    }
}

impl<A: Afi> BitOr for PrefixSet<A> {
    type Output = Self;

    fn bitor(self, rhs: Self) -> (r: Self)
        ensures
            r@ == self@.union(rhs@),
    {
        self.union(&rhs)
    }
}

impl<A: Afi> vstd::std_specs::ops::BitOrSpecImpl for PrefixSet<A> {
    /// Not claimed: the operation states its result through the view, which is
    /// all that the value chosen below is known to share with it.
    open spec fn obeys_bitor_spec() -> bool {
        false
    }

    open spec fn bitor_req(self, rhs: Self) -> bool {
        true
    }

    open spec fn bitor_spec(self, rhs: Self) -> Self {
        choose|r: Self| (r@ == self@.union(rhs@))
    }
}

impl<A: Afi> BitXor for PrefixSet<A> {
    type Output = Self;

    fn bitxor(self, rhs: Self) -> (r: Self)
        ensures
            r@ == self@.union(rhs@).difference(self@.intersect(rhs@)),
    {
        self.symmetric_difference(&rhs)
    }
}

impl<A: Afi> vstd::std_specs::ops::BitXorSpecImpl for PrefixSet<A> {
    /// Not claimed: the operation states its result through the view, which is
    /// all that the value chosen below is known to share with it.
    open spec fn obeys_bitxor_spec() -> bool {
        false
    }

    open spec fn bitxor_req(self, rhs: Self) -> bool {
        true
    }

    open spec fn bitxor_spec(self, rhs: Self) -> Self {
        choose|r: Self| (r@ == self@.union(rhs@).difference(self@.intersect(rhs@)))
    }
}

impl<A: Afi> Sub for PrefixSet<A> {
    type Output = Self;

    fn sub(self, rhs: Self) -> (r: Self)
        ensures
            r@ == self@.difference(rhs@),
    {
        self.difference(&rhs)
    }
}

impl<A: Afi> vstd::std_specs::ops::SubSpecImpl for PrefixSet<A> {
    /// Not claimed: the operation states its result through the view, which is
    /// all that the value chosen below is known to share with it.
    open spec fn obeys_sub_spec() -> bool {
        false
    }

    open spec fn sub_req(self, rhs: Self) -> bool {
        true
    }

    open spec fn sub_spec(self, rhs: Self) -> Self {
        choose|r: Self| (r@ == self@.difference(rhs@))
    }
}

impl<A: Afi> Add for PrefixSet<A> {
    type Output = Self;

    fn add(self, rhs: Self) -> (r: Self)
        ensures
            r@ == self@.union(rhs@),
    {
        self.union(&rhs)
    }
}

impl<A: Afi> vstd::std_specs::ops::AddSpecImpl for PrefixSet<A> {
    /// Not claimed: the operation states its result through the view, which is
    /// all that the value chosen below is known to share with it.
    open spec fn obeys_add_spec() -> bool {
        false
    }

    open spec fn add_req(self, rhs: Self) -> bool {
        true
    }

    open spec fn add_spec(self, rhs: Self) -> Self {
        choose|r: Self| (r@ == self@.union(rhs@))
    }
}

impl<A: Afi> Mul for PrefixSet<A> {
    type Output = Self;

    fn mul(self, rhs: Self) -> (r: Self)
        ensures
            r@ == self@.intersect(rhs@),
    {
        self.intersection(&rhs)
    }
}

impl<A: Afi> vstd::std_specs::ops::MulSpecImpl for PrefixSet<A> {
    /// Not claimed: the operation states its result through the view, which is
    /// all that the value chosen below is known to share with it.
    open spec fn obeys_mul_spec() -> bool {
        false
    }

    open spec fn mul_req(self, rhs: Self) -> bool {
        true
    }

    open spec fn mul_spec(self, rhs: Self) -> Self {
        choose|r: Self| (r@ == self@.intersect(rhs@))
    }
}

impl<A: Afi> Not for PrefixSet<A> {
    type Output = Self;

    fn not(self) -> (r: Self)
        ensures
            r@ == all_prefixes(width::<A>()).difference(self@),
    {
        self.complement()
    }
}

impl<A: Afi> vstd::std_specs::ops::NotSpecImpl for PrefixSet<A> {
    /// Not claimed: the operation states its result through the view, which is
    /// all that the value chosen below is known to share with it.
    open spec fn obeys_not_spec() -> bool {
        false
    }

    open spec fn not_req(self) -> bool {
        true
    }

    open spec fn not_spec(self) -> Self {
        choose|r: Self| (r@ == all_prefixes(width::<A>()).difference(self@))
    }
}

} // verus!
