use vstd::prelude::*;

use crate::afi::{afi_width, AfiEnum, Ipv4, Ipv6};
use crate::concrete;
use crate::concrete::set::prefix_set::{
    aggregated, all_prefixes, comes_after, is_next_member, none_after, range_members, range_views, ranges_members,
};
use crate::model::{in_range, PrefixModel, RangeModel};
use super::prefix::Prefix;
use super::range::Range;

verus! {

/// A set of IP prefixes of either address family.
#[derive(Debug)]
pub struct PrefixSet {
    ipv4: concrete::PrefixSet<Ipv4>,
    ipv6: concrete::PrefixSet<Ipv6>,
}

impl View for PrefixSet {
    type V = (Set<PrefixModel>, Set<PrefixModel>);

    closed spec fn view(&self) -> (Set<PrefixModel>, Set<PrefixModel>) {
        (self.ipv4@, self.ipv6@)
    }
}

/// The prefixes of family `afi` in a pair of sets of IPv4 and IPv6
/// prefixes.
pub open spec fn family_part(s: (Set<PrefixModel>, Set<PrefixModel>), afi: AfiEnum) -> Set<PrefixModel> {
    match afi {
        AfiEnum::Ipv4 => s.0,
        AfiEnum::Ipv6 => s.1,
    }
}

/// Some range of `rs` of family `afi` holds `q`.
pub open spec fn any_ranges_hold(rs: Seq<(AfiEnum, RangeModel)>, afi: AfiEnum, q: PrefixModel) -> bool {
    exists|i: int| 0 <= i < rs.len() && (#[trigger] rs[i]).0 == afi && in_range(afi_width(afi), rs[i].1, q)
}

/// The single-family values of the ranges `from..to` of `rs`.
pub open spec fn family_ranges(rs: Seq<(AfiEnum, RangeModel)>, from: int, to: int) -> Seq<RangeModel> {
    rs.subrange(from, to).map_values(|x: (AfiEnum, RangeModel)| x.1)
}

/// The abstract values of a sequence of ranges of either family.
pub open spec fn any_range_views(rs: Seq<Range>) -> Seq<(AfiEnum, RangeModel)> {
    rs.map_values(|r: Range| r@)
}

impl PrefixSet {
    /// Construct a new, empty set.
    pub fn new() -> (r: Self)
        ensures
            r@ == (Set::<PrefixModel>::empty(), Set::<PrefixModel>::empty()),
    {
        PrefixSet { ipv4: concrete::PrefixSet::new(), ipv6: concrete::PrefixSet::new() }
    }

    /// The empty set.
    pub fn zero() -> (r: Self)
        ensures
            r@ == (Set::<PrefixModel>::empty(), Set::<PrefixModel>::empty()),
    {
        Self::new()
    }

    /// The set of every prefix of either family.
    pub fn one() -> (r: Self)
        ensures
            r@ == (all_prefixes(32), all_prefixes(128)),
    {
        PrefixSet { ipv4: concrete::PrefixSet::one(), ipv6: concrete::PrefixSet::one() }
    }

    /// The set holding the IPv4 prefixes of `s`.
    pub fn from_ipv4(s: concrete::PrefixSet<Ipv4>) -> (r: Self)
        ensures
            r@ == (s@, Set::<PrefixModel>::empty()),
    {
        PrefixSet { ipv4: s, ipv6: concrete::PrefixSet::new() }
    }

    /// The set holding the IPv6 prefixes of `s`.
    pub fn from_ipv6(s: concrete::PrefixSet<Ipv6>) -> (r: Self)
        ensures
            r@ == (Set::<PrefixModel>::empty(), s@),
    {
        PrefixSet { ipv4: concrete::PrefixSet::new(), ipv6: s }
    }

    /// Split the set into its IPv4 and IPv6 parts.
    pub fn partition(self) -> (r: (concrete::PrefixSet<Ipv4>, concrete::PrefixSet<Ipv6>))
        ensures
            (r.0@, r.1@) == self@,
    {
        (self.ipv4, self.ipv6)
    }

    /// Borrow the IPv4 and IPv6 parts of the set.
    pub fn parts(&self) -> (r: (&concrete::PrefixSet<Ipv4>, &concrete::PrefixSet<Ipv6>))
        ensures
            (r.0@, r.1@) == self@,
    {
        (&self.ipv4, &self.ipv6)
    }

    /// Returns [`true`] if the set holds no prefix.
    pub fn is_zero(&self) -> (r: bool)
        ensures
            r == (self@.0 == Set::<PrefixModel>::empty() && self@.1 == Set::<PrefixModel>::empty()),
    {
        self.ipv4.is_empty() && self.ipv6.is_empty()
    }

    /// The number of prefixes in the set, of both families, where it fits a
    /// `usize`.
    pub fn len(&self) -> (r: usize)
        requires
            self@.0.len() + self@.1.len() <= usize::MAX,
        ensures
            self@.0.finite(),
            self@.1.finite(),
            r == self@.0.len() + self@.1.len(),
    {
        let a = self.ipv4.len();
        let b = self.ipv6.len();
        a + b
    }

    /// Returns [`true`] if the set holds no prefix of either family.
    pub fn is_empty(&self) -> (r: bool)
        ensures
            r == (self@.0 == Set::<PrefixModel>::empty() && self@.1 == Set::<PrefixModel>::empty()),
    {
        self.ipv4.is_empty() && self.ipv6.is_empty()
    }

    /// Returns [`true`] if `prefix` is a member of the set.
    pub fn contains(&self, prefix: Prefix) -> (r: bool)
        ensures
            r == family_part(self@, prefix@.0).contains(prefix@.1),
    {
        match prefix {
            Prefix::Ipv4(p) => self.ipv4.contains(p),
            Prefix::Ipv6(p) => self.ipv6.contains(p),
        }
    }

    /// Insert every member of `item` (a prefix or a prefix range of either
    /// family) into the set, and return the set for chaining.
    pub fn insert<T: AnySetItem>(&mut self, item: T) -> (r: &mut Self)
        ensures
            *final(self) == *final(r),
            family_part((*r)@, item.item_range().0) == family_part(old(self)@, item.item_range().0).union(
                range_members(afi_width(item.item_range().0), item.item_range().1),
            ),
            item.item_range().0 == AfiEnum::Ipv4 ==> (*r)@.1 == old(self)@.1,
            item.item_range().0 == AfiEnum::Ipv6 ==> (*r)@.0 == old(self)@.0,
    {
        match item.to_range() {
            Range::Ipv4(r) => self.ipv4.insert_range(r),
            Range::Ipv6(r) => self.ipv6.insert_range(r),
        }
        self
    }

    /// Remove every member of `item` (a prefix or a prefix range of either
    /// family) from the set, and return the set for chaining.
    pub fn remove<T: AnySetItem>(&mut self, item: T) -> (r: &mut Self)
        ensures
            *final(self) == *final(r),
            family_part((*r)@, item.item_range().0) == family_part(old(self)@, item.item_range().0).difference(
                range_members(afi_width(item.item_range().0), item.item_range().1),
            ),
            item.item_range().0 == AfiEnum::Ipv4 ==> (*r)@.1 == old(self)@.1,
            item.item_range().0 == AfiEnum::Ipv6 ==> (*r)@.0 == old(self)@.0,
    {
        match item.to_range() {
            Range::Ipv4(r) => self.ipv4.remove_range(r),
            Range::Ipv6(r) => self.ipv6.remove_range(r),
        }
        self
    }

    /// The prefixes in `self` or in `other`.
    pub fn union(&self, other: &Self) -> (r: Self)
        ensures
            r@ == (self@.0.union(other@.0), self@.1.union(other@.1)),
    {
        PrefixSet { ipv4: self.ipv4.union(&other.ipv4), ipv6: self.ipv6.union(&other.ipv6) }
    }

    /// The prefixes in both `self` and `other`.
    pub fn intersection(&self, other: &Self) -> (r: Self)
        ensures
            r@ == (self@.0.intersect(other@.0), self@.1.intersect(other@.1)),
    {
        PrefixSet {
            ipv4: self.ipv4.intersection(&other.ipv4),
            ipv6: self.ipv6.intersection(&other.ipv6),
        }
    }

    /// The prefixes in `self` but not in `other`.
    pub fn difference(&self, other: &Self) -> (r: Self)
        ensures
            r@ == (self@.0.difference(other@.0), self@.1.difference(other@.1)),
    {
        PrefixSet {
            ipv4: self.ipv4.difference(&other.ipv4),
            ipv6: self.ipv6.difference(&other.ipv6),
        }
    }

    /// The prefixes in exactly one of `self` and `other`.
    pub fn symmetric_difference(&self, other: &Self) -> (r: Self)
        ensures
            r@ == (self@.0.union(other@.0).difference(self@.0.intersect(other@.0)), self@.1.union(
                other@.1,
            ).difference(self@.1.intersect(other@.1))),
    {
        PrefixSet {
            ipv4: self.ipv4.symmetric_difference(&other.ipv4),
            ipv6: self.ipv6.symmetric_difference(&other.ipv6),
        }
    }

    /// The prefixes of either family not in `self`.
    pub fn complement(&self) -> (r: Self)
        ensures
            r@ == (all_prefixes(32).difference(self@.0), all_prefixes(128).difference(self@.1)),
    {
        PrefixSet { ipv4: self.ipv4.complement(), ipv6: self.ipv6.complement() }
    }

    /// Returns [`true`] if `self` and `other` hold the same prefixes.
    pub fn equals(&self, other: &Self) -> (r: bool)
        ensures
            r == (self@ == other@),
    {
        self.ipv4.equals(&other.ipv4) && self.ipv6.equals(&other.ipv6)
    }

    /// A copy of `self`.
    pub fn copy(&self) -> (r: Self)
        ensures
            r@ == self@,
    {
        PrefixSet { ipv4: self.ipv4.copy(), ipv6: self.ipv6.copy() }
    }

    /// An iterator over the prefixes of the set: the IPv4 prefixes, then
    /// the IPv6 prefixes, each by length and then by address.
    pub fn prefixes(&self) -> (r: Prefixes)
        ensures
            r.wf(),
            r@ == (self@.0, None::<PrefixModel>, self@.1, None::<PrefixModel>),
    {
        Prefixes { ipv4: self.ipv4.prefixes(), ipv6: self.ipv6.prefixes() }
    }

    /// The prefix ranges whose members are exactly the prefixes of the set:
    /// the aggregated IPv4 ranges, then the aggregated IPv6 ranges.
    pub fn ranges(&self) -> (r: Vec<Range>)
        ensures
            forall|q: PrefixModel|
                self@.0.contains(q) == any_ranges_hold(any_range_views(r@), AfiEnum::Ipv4, q),
            forall|q: PrefixModel|
                self@.1.contains(q) == any_ranges_hold(any_range_views(r@), AfiEnum::Ipv6, q),
            exists|n: int|
                #![trigger family_ranges(any_range_views(r@), 0, n)]
                0 <= n <= r@.len() && (forall|k: int|
                    0 <= k < n ==> (#[trigger] any_range_views(r@)[k]).0 == AfiEnum::Ipv4) && (forall|k: int|
                    n <= k < r@.len() ==> (#[trigger] any_range_views(r@)[k]).0 == AfiEnum::Ipv6) && aggregated(
                    32,
                    self@.0,
                    family_ranges(any_range_views(r@), 0, n),
                ) && aggregated(128, self@.1, family_ranges(any_range_views(r@), n, r@.len() as int)),
    {
        let v4 = self.ipv4.ranges();
        let v6 = self.ipv6.ranges();
        let mut out: Vec<Range> = Vec::new();
        let mut i: usize = 0;
        while i < v4.len()
            invariant
                i <= v4@.len(),
                out@.len() == i,
                forall|k: int| 0 <= k < i ==> (#[trigger] out@[k])@ == (AfiEnum::Ipv4, v4@[k]@),
            decreases v4@.len() - i,
        {
            out.push(Range::Ipv4(v4[i]));
            i = i + 1;
        }
        let mut j: usize = 0;
        while j < v6.len()
            invariant
                j <= v6@.len(),
                out@.len() == v4@.len() + j,
                forall|k: int| 0 <= k < v4@.len() ==> (#[trigger] out@[k])@ == (AfiEnum::Ipv4, v4@[k]@),
                forall|k: int| 0 <= k < j ==> (#[trigger] out@[v4@.len() + k])@ == (AfiEnum::Ipv6, v6@[k]@),
            decreases v6@.len() - j,
        {
            out.push(Range::Ipv6(v6[j]));
            j = j + 1;
        }
        proof {
            let rs = any_range_views(out@);
            let n = v4@.len() as int;
            assert(family_ranges(rs, 0, n) =~= range_views(v4@)) by {
                assert forall|k: int| 0 <= k < n implies family_ranges(rs, 0, n)[k] == range_views(v4@)[k] by {
                    assert(rs[k] == out@[k]@);
                }
            }
            assert(family_ranges(rs, n, rs.len() as int) =~= range_views(v6@)) by {
                assert forall|k: int| 0 <= k < v6@.len() implies family_ranges(rs, n, rs.len() as int)[k]
                    == range_views(v6@)[k] by {
                    assert(rs[n + k] == out@[n + k]@);
                }
            }
            assert forall|k: int| 0 <= k < n implies (#[trigger] rs[k]).0 == AfiEnum::Ipv4 by {
                assert(rs[k] == out@[k]@);
            }
            assert forall|k: int| n <= k < rs.len() implies (#[trigger] rs[k]).0 == AfiEnum::Ipv6 by {
                assert(rs[k] == out@[n + (k - n)]@);
            }
            assert forall|q: PrefixModel| self@.0.contains(q) == any_ranges_hold(rs, AfiEnum::Ipv4, q) by {
                assert(ranges_members(32, range_views(v4@)).contains(q) == self@.0.contains(q));
                if self@.0.contains(q) {
                    let k = choose|k: int| 0 <= k < v4@.len() && in_range(32, #[trigger] range_views(v4@)[k], q);
                    assert(rs[k] == out@[k]@);
                }
                if any_ranges_hold(rs, AfiEnum::Ipv4, q) {
                    let k = choose|k: int| 0 <= k < rs.len() && (#[trigger] rs[k]).0 == AfiEnum::Ipv4 && in_range(32, rs[k].1, q);
                    if k >= v4@.len() {
                        assert(out@[v4@.len() + (k - v4@.len())]@.0 == AfiEnum::Ipv6);
                    }
                    assert(range_views(v4@)[k] == v4@[k]@);
                }
            }
            assert forall|q: PrefixModel| self@.1.contains(q) == any_ranges_hold(rs, AfiEnum::Ipv6, q) by {
                assert(ranges_members(128, range_views(v6@)).contains(q) == self@.1.contains(q));
                if self@.1.contains(q) {
                    let k = choose|k: int| 0 <= k < v6@.len() && in_range(128, #[trigger] range_views(v6@)[k], q);
                    assert(rs[v4@.len() + k] == out@[v4@.len() + k]@);
                }
                if any_ranges_hold(rs, AfiEnum::Ipv6, q) {
                    let k = choose|k: int| 0 <= k < rs.len() && (#[trigger] rs[k]).0 == AfiEnum::Ipv6 && in_range(128, rs[k].1, q);
                    assert(k >= v4@.len());
                    let m = k - v4@.len();
                    assert(out@[v4@.len() + m]@ == (AfiEnum::Ipv6, v6@[m]@));
                    assert(range_views(v6@)[m] == v6@[m]@);
                }
            }
        }
        out
    }
}

/// Something that can be inserted into or removed from a [`PrefixSet`]: a
/// prefix or a prefix range of either family.
pub trait AnySetItem {
    /// The family and the prefix range of the members of the item.
    spec fn item_range(&self) -> (AfiEnum, RangeModel);

    /// The item as a prefix range.
    fn to_range(&self) -> (r: Range)
        ensures
            r@ == self.item_range(),
    ;
}

impl AnySetItem for Prefix {
    open spec fn item_range(&self) -> (AfiEnum, RangeModel) {
        (self@.0, (self@.1, self@.1.1, self@.1.1))
    }

    fn to_range(&self) -> (r: Range) {
        Range::from_prefix(*self)
    }
}

impl AnySetItem for Range {
    open spec fn item_range(&self) -> (AfiEnum, RangeModel) {
        self@
    }

    fn to_range(&self) -> (r: Range) {
        *self
    }
}

impl Clone for PrefixSet {
    fn clone(&self) -> (r: Self)
        ensures
            r@ == self@,
    {
        self.copy()
    }
}

impl Default for PrefixSet {
    fn default() -> (r: Self)
        ensures
            r@ == (Set::<PrefixModel>::empty(), Set::<PrefixModel>::empty()),
    {
        Self::new()
    }
}

impl PartialEq for PrefixSet {
    fn eq(&self, other: &Self) -> (r: bool) {
        self.equals(other)
    }
}

impl vstd::std_specs::cmp::PartialEqSpecImpl for PrefixSet {
    open spec fn obeys_eq_spec() -> bool {
        true
    }

    open spec fn eq_spec(&self, other: &Self) -> bool {
        self@ == other@
    }
}

impl Eq for PrefixSet {
}

/// An iterator over the prefixes of a [`PrefixSet`] of either family: the
/// IPv4 prefixes, then the IPv6 prefixes.
pub struct Prefixes {
    ipv4: concrete::Prefixes<Ipv4>,
    ipv6: concrete::Prefixes<Ipv6>,
}

impl View for Prefixes {
    type V = (Set<PrefixModel>, Option<PrefixModel>, Set<PrefixModel>, Option<PrefixModel>);

    closed spec fn view(&self) -> (Set<PrefixModel>, Option<PrefixModel>, Set<PrefixModel>, Option<PrefixModel>) {
        (self.ipv4.members(), self.ipv4.last(), self.ipv6.members(), self.ipv6.last())
    }
}

impl Prefixes {
    /// Both iterators stand at their next members.
    pub closed spec fn wf(&self) -> bool {
        self.ipv4.wf() && self.ipv6.wf()
    }

    /// The next prefix: the next IPv4 member, or once they are exhausted,
    /// the next IPv6 member; [`None`] after the last.
    pub fn next(&mut self) -> (r: Option<Prefix>)
        requires
            old(self).wf(),
        ensures
            final(self).wf(),
            final(self)@.0 == old(self)@.0,
            final(self)@.2 == old(self)@.2,
            match r {
                Some(Prefix::Ipv4(p)) => is_next_member(old(self)@.0, old(self)@.1, p@)
                    && final(self)@.1 == Some(p@) && final(self)@.3 == old(self)@.3,
                Some(Prefix::Ipv6(p)) => none_after(old(self)@.0, old(self)@.1)
                    && is_next_member(old(self)@.2, old(self)@.3, p@) && final(self)@.3 == Some(p@),
                None => none_after(old(self)@.0, old(self)@.1) && none_after(old(self)@.2, old(self)@.3)
                    && final(self)@ == old(self)@,
            },
    {
        match self.ipv4.next() {
            Some(p) => Some(Prefix::Ipv4(p)),
            None => match self.ipv6.next() {
                Some(p) => Some(Prefix::Ipv6(p)),
                None => None,
            },
        }
    }
}

} // verus!

verus! {

impl crate::traits::PrefixSet for PrefixSet {
    type Prefix = Prefix;

    type Range = Range;

    type Prefixes = Prefixes;

    open spec fn contains_result(&self, prefix: Prefix, r: bool) -> bool {
        &&& r == family_part(self@, prefix@.0).contains(prefix@.1)
    }

    fn contains(&self, prefix: Prefix) -> (r: bool) {
        PrefixSet::contains(self, prefix)
    }

    open spec fn prefixes_result(&self, r: Prefixes) -> bool {
        &&& r.wf()
        &&& r@ == (self@.0, None::<PrefixModel>, self@.1, None::<PrefixModel>)
    }

    fn prefixes(&self) -> (r: Prefixes) {
        PrefixSet::prefixes(self)
    }

    open spec fn ranges_result(&self, r: Vec<Range>) -> bool {
        &&& forall|q: PrefixModel| self@.0.contains(q) == any_ranges_hold(any_range_views(r@), AfiEnum::Ipv4, q)
        &&& forall|q: PrefixModel| self@.1.contains(q) == any_ranges_hold(any_range_views(r@), AfiEnum::Ipv6, q)
        &&& exists|n: int| #![trigger family_ranges(any_range_views(r@), 0, n)] 0 <= n <= r@.len() && (forall|k: int| 0 <= k < n ==> (#[trigger] any_range_views(r@)[k]).0 == AfiEnum::Ipv4) && (forall|k: int| n <= k < r@.len() ==> (#[trigger] any_range_views(r@)[k]).0 == AfiEnum::Ipv6) && aggregated(32, self@.0, family_ranges(any_range_views(r@), 0, n)) && aggregated(128, self@.1, family_ranges(any_range_views(r@), n, r@.len() as int))
    }

    fn ranges(&self) -> (r: Vec<Range>) {
        PrefixSet::ranges(self)
    }

    open spec fn len_result(&self, r: usize) -> bool {
        &&& self@.0.finite()
        &&& self@.1.finite()
        &&& r == self@.0.len() + self@.1.len()
    }

    open spec fn len_pre(&self) -> bool {
        &&& self@.0.len() + self@.1.len() <= usize::MAX
    }

    fn len(&self) -> (r: usize) {
        PrefixSet::len(self)
    }

    open spec fn is_empty_result(&self, r: bool) -> bool {
        &&& r == (self@.0 == Set::<PrefixModel>::empty() && self@.1 == Set::<PrefixModel>::empty())
    }

    fn is_empty(&self) -> (r: bool) {
        PrefixSet::is_empty(self)
    }
}

} // verus!
