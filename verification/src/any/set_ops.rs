use vstd::prelude::*;

use super::set::PrefixSet;
use crate::concrete::set::prefix_set::all_prefixes;

verus! {

impl core::ops::BitAnd for PrefixSet {
    type Output = Self;

    fn bitand(self, rhs: Self) -> (r: Self)
        ensures
            r@ == (self@.0.intersect(rhs@.0), self@.1.intersect(rhs@.1)),
    {
        self.intersection(&rhs)
    }
}

impl vstd::std_specs::ops::BitAndSpecImpl for PrefixSet {
    /// Not claimed: the operation states its result through the view, which is
    /// all that the value chosen below is known to share with it.
    open spec fn obeys_bitand_spec() -> bool {
        false
    }

    open spec fn bitand_req(self, rhs: Self) -> bool {
        true
    }

    open spec fn bitand_spec(self, rhs: Self) -> Self {
        choose|r: Self| (r@ == (self@.0.intersect(rhs@.0), self@.1.intersect(rhs@.1)))
    }
}

impl core::ops::Mul for PrefixSet {
    type Output = Self;

    fn mul(self, rhs: Self) -> (r: Self)
        ensures
            r@ == (self@.0.intersect(rhs@.0), self@.1.intersect(rhs@.1)),
    {
        self.intersection(&rhs)
    }
}

impl vstd::std_specs::ops::MulSpecImpl for PrefixSet {
    /// Not claimed: the operation states its result through the view, which is
    /// all that the value chosen below is known to share with it.
    open spec fn obeys_mul_spec() -> bool {
        false
    }

    open spec fn mul_req(self, rhs: Self) -> bool {
        true
    }

    open spec fn mul_spec(self, rhs: Self) -> Self {
        choose|r: Self| (r@ == (self@.0.intersect(rhs@.0), self@.1.intersect(rhs@.1)))
    }
}

impl core::ops::BitOr for PrefixSet {
    type Output = Self;

    fn bitor(self, rhs: Self) -> (r: Self)
        ensures
            r@ == (self@.0.union(rhs@.0), self@.1.union(rhs@.1)),
    {
        self.union(&rhs)
    }
}

impl vstd::std_specs::ops::BitOrSpecImpl for PrefixSet {
    /// Not claimed: the operation states its result through the view, which is
    /// all that the value chosen below is known to share with it.
    open spec fn obeys_bitor_spec() -> bool {
        false
    }

    open spec fn bitor_req(self, rhs: Self) -> bool {
        true
    }

    open spec fn bitor_spec(self, rhs: Self) -> Self {
        choose|r: Self| (r@ == (self@.0.union(rhs@.0), self@.1.union(rhs@.1)))
    }
}

impl core::ops::Add for PrefixSet {
    type Output = Self;

    fn add(self, rhs: Self) -> (r: Self)
        ensures
            r@ == (self@.0.union(rhs@.0), self@.1.union(rhs@.1)),
    {
        self.union(&rhs)
    }
}

impl vstd::std_specs::ops::AddSpecImpl for PrefixSet {
    /// Not claimed: the operation states its result through the view, which is
    /// all that the value chosen below is known to share with it.
    open spec fn obeys_add_spec() -> bool {
        false
    }

    open spec fn add_req(self, rhs: Self) -> bool {
        true
    }

    open spec fn add_spec(self, rhs: Self) -> Self {
        choose|r: Self| (r@ == (self@.0.union(rhs@.0), self@.1.union(rhs@.1)))
    }
}

impl core::ops::Sub for PrefixSet {
    type Output = Self;

    fn sub(self, rhs: Self) -> (r: Self)
        ensures
            r@ == (self@.0.difference(rhs@.0), self@.1.difference(rhs@.1)),
    {
        self.difference(&rhs)
    }
}

impl vstd::std_specs::ops::SubSpecImpl for PrefixSet {
    /// Not claimed: the operation states its result through the view, which is
    /// all that the value chosen below is known to share with it.
    open spec fn obeys_sub_spec() -> bool {
        false
    }

    open spec fn sub_req(self, rhs: Self) -> bool {
        true
    }

    open spec fn sub_spec(self, rhs: Self) -> Self {
        choose|r: Self| (r@ == (self@.0.difference(rhs@.0), self@.1.difference(rhs@.1)))
    }
}

impl core::ops::BitXor for PrefixSet {
    type Output = Self;

    fn bitxor(self, rhs: Self) -> (r: Self)
        ensures
            r@ == (self@.0.union(rhs@.0).difference(self@.0.intersect(rhs@.0)), self@.1.union(rhs@.1).difference(
                self@.1.intersect(rhs@.1),
            )),
    {
        self.symmetric_difference(&rhs)
    }
}

impl vstd::std_specs::ops::BitXorSpecImpl for PrefixSet {
    /// Not claimed: the operation states its result through the view, which is
    /// all that the value chosen below is known to share with it.
    open spec fn obeys_bitxor_spec() -> bool {
        false
    }

    open spec fn bitxor_req(self, rhs: Self) -> bool {
        true
    }

    open spec fn bitxor_spec(self, rhs: Self) -> Self {
        choose|r: Self| (r@ == (self@.0.union(rhs@.0).difference(self@.0.intersect(rhs@.0)), self@.1.union(rhs@.1).difference(self@.1.intersect(rhs@.1),)))
    }
}

impl core::ops::Not for PrefixSet {
    type Output = Self;

    fn not(self) -> (r: Self)
        ensures
            r@ == (all_prefixes(32).difference(self@.0), all_prefixes(128).difference(self@.1)),
    {
        self.complement()
    }
}

impl vstd::std_specs::ops::NotSpecImpl for PrefixSet {
    /// Not claimed: the operation states its result through the view, which is
    /// all that the value chosen below is known to share with it.
    open spec fn obeys_not_spec() -> bool {
        false
    }

    open spec fn not_req(self) -> bool {
        true
    }

    open spec fn not_spec(self) -> Self {
        choose|r: Self| (r@ == (all_prefixes(32).difference(self@.0), all_prefixes(128).difference(self@.1)))
    }
}

} // verus!
