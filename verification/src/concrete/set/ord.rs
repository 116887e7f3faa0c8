use vstd::prelude::*;

use core::cmp::Ordering;

use crate::afi::Afi;
use super::prefix_set::PrefixSet;

verus! {

impl<A: Afi> PrefixSet<A> {
    /// The order of inclusion: `Less` for a proper subset, `Greater` for a
    /// proper superset, `Equal` for the same prefixes, and [`None`] where
    /// neither set includes the other.
    pub fn inclusion(&self, other: &Self) -> (r: Option<Ordering>)
        ensures
            r == inclusion_order(self@, other@),
    {
        if self.equals(other) {
            Some(Ordering::Equal)
        } else if self.is_subset(other) {
            Some(Ordering::Less)
        } else if other.is_subset(self) {
            Some(Ordering::Greater)
        } else {
            None
        }
    }
}

/// The order of inclusion between two sets of prefixes.
pub open spec fn inclusion_order(a: Set<(u128, u8)>, b: Set<(u128, u8)>) -> Option<Ordering> {
    if a == b {
        Some(Ordering::Equal)
    } else if a.subset_of(b) {
        Some(Ordering::Less)
    } else if b.subset_of(a) {
        Some(Ordering::Greater)
    } else {
        None
    }
}

impl<A: Afi> PartialOrd for PrefixSet<A> {
    fn partial_cmp(&self, other: &Self) -> (r: Option<Ordering>) {
        self.inclusion(other)
    }
}

impl<A: Afi> vstd::std_specs::cmp::PartialOrdSpecImpl for PrefixSet<A> {
    open spec fn obeys_partial_cmp_spec() -> bool {
        true
    }

    open spec fn partial_cmp_spec(&self, other: &Self) -> Option<Ordering> {
        inclusion_order(self@, other@)
    }
}

} // verus!

verus! {

/// Sets of prefixes are ordered by inclusion: one set is less than another
/// exactly when it is a proper subset of it, greater exactly when it is a
/// proper superset, equal exactly when both hold the same prefixes, and
/// unordered exactly when neither includes the other.
pub proof fn lemma_inclusion_meaning(a: Set<(u128, u8)>, b: Set<(u128, u8)>)
    ensures
        (inclusion_order(a, b) == Some(Ordering::Less)) == (a.subset_of(b) && a != b),
        (inclusion_order(a, b) == Some(Ordering::Greater)) == (b.subset_of(a) && a != b),
        (inclusion_order(a, b) == Some(Ordering::Equal)) == (a == b),
        (inclusion_order(a, b) is None) == (!a.subset_of(b) && !b.subset_of(a)),
{
    if a.subset_of(b) && b.subset_of(a) {
        assert(a =~= b);
    }
}

} // verus!
