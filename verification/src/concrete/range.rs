use vstd::prelude::*;

use core::ops::RangeInclusive;

use crate::afi::{width, Afi};
use crate::error::{Error, Kind};
use crate::model::{covers, lemma_truncate_covered, range_succ, truncate, valid_range, RangeModel};
use super::len::PrefixLength;
use super::prefix::Prefix;
use super::subprefixes::opt_view;

verus! {

/// Calls `RangeInclusive::start`, which std documents as returning the lower
/// bound of the range; the contract claims that this is the `start` of the
/// range's view (for a range made by `a..=b`, the bound `a`).
#[verifier::external_body]
pub(crate) fn range_start<T: Copy>(r: &RangeInclusive<T>) -> (s: T)
    ensures
        s == r@.start,
{
    *r.start()
}

/// Calls `RangeInclusive::end`, which std documents as returning the upper
/// bound of the range; the contract claims that this is the `end` of the
/// range's view (for a range made by `a..=b`, the bound `b`).
#[verifier::external_body]
pub(crate) fn range_end<T: Copy>(r: &RangeInclusive<T>) -> (e: T)
    ensures
        e == r@.end,
{
    *r.end()
}

/// A set of [`Prefix<A>`] covered by a common super-prefix, each having a
/// prefix-length within a contiguous range.
#[derive(Copy, Debug, Hash)]
pub struct Range<A: Afi> {
    prefix: Prefix<A>,
    lower: PrefixLength<A>,
    upper: PrefixLength<A>,
}

impl<A: Afi> View for Range<A> {
    type V = RangeModel;

    closed spec fn view(&self) -> RangeModel {
        (self.prefix@, self.lower@, self.upper@)
    }
}

impl<A: Afi> Range<A> {
    /// The covering prefix is no longer than the lower bound, which is no
    /// greater than the upper bound.
    #[verifier::type_invariant]
    pub open spec fn wf(self) -> bool {
        valid_range(width::<A>(), self@)
    }

    /// Construct a range from a covering prefix and the bounds of the
    /// lengths of its members.
    ///
    /// # Errors
    ///
    /// Fails with [`Kind::PrefixLengthRange`] if `prefix` is longer than
    /// `lower`, or `lower` is greater than `upper`.
    pub fn from_bounds(prefix: Prefix<A>, lower: PrefixLength<A>, upper: PrefixLength<A>) -> (r:
        Result<Self, Error>)
        ensures
            r is Ok <==> prefix@.1 <= lower@ && lower@ <= upper@,
            r matches Ok(g) ==> g@ == (prefix@, lower@, upper@),
            r matches Err(e) ==> e.spec_kind() == Kind::PrefixLengthRange,
    {
        proof {
            use_type_invariant(&prefix);
            use_type_invariant(&upper);
        }
        if prefix.length().into_primitive() <= lower.into_primitive() && lower.into_primitive()
            <= upper.into_primitive() {
            Ok(Range { prefix, lower, upper })
        } else {
            Err(Error::of_kind(Kind::PrefixLengthRange))
        }
    }

    /// Construct a new range from a covering [`Prefix<A>`] and an inclusive
    /// range of [`PrefixLength`].
    ///
    /// # Errors
    ///
    /// Fails with [`Kind::PrefixLengthRange`] if either
    /// `prefix.length() > len_range.start()` or
    /// `len_range.start() > len_range.end()`.
    pub fn new(prefix: Prefix<A>, len_range: RangeInclusive<PrefixLength<A>>) -> (r: Result<
        Self,
        Error,
    >)
        ensures
            r is Ok <==> prefix@.1 <= len_range@.start@ && len_range@.start@ <= len_range@.end@,
            r matches Ok(g) ==> g@ == (prefix@, len_range@.start@, len_range@.end@),
            r matches Err(e) ==> e.spec_kind() == Kind::PrefixLengthRange,
    {
        Self::from_bounds(prefix, range_start(&len_range), range_end(&len_range))
    }

    /// The range containing all prefixes of address family `A`.
    pub fn all() -> (r: Self)
        ensures
            r@.0 == (0u128, 0u8),
            r@.1 == 0,
            r@.2 as u128 == width::<A>(),
    {
        let prefix = Prefix::default_route();
        proof {
            use_type_invariant(&prefix);
        }
        Range {
            prefix,
            lower: PrefixLength::minimum(),
            upper: PrefixLength::maximum(),
        }
    }

    /// The range of the subprefixes of `prefix` of lengths `lower` to
    /// `upper`, where these bounds are known to be in order.
    pub fn from_parts(prefix: Prefix<A>, lower: u8, upper: u8) -> (r: Self)
        requires
            prefix@.1 <= lower <= upper,
            upper as u128 <= width::<A>(),
        ensures
            r@ == (prefix@, lower, upper),
    {
        proof {
            use_type_invariant(&prefix);
        }
        Range {
            prefix,
            lower: PrefixLength::new_unchecked(lower),
            upper: PrefixLength::new_unchecked(upper),
        }
    }

    /// The range holding only `prefix`.
    pub fn from_prefix(prefix: Prefix<A>) -> (r: Self)
        ensures
            r@ == (prefix@, prefix@.1, prefix@.1),
    {
        proof {
            use_type_invariant(&prefix);
        }
        Range { prefix, lower: prefix.length(), upper: prefix.length() }
    }

    /// Return the covering super-prefix of `self`.
    pub fn prefix(&self) -> (r: Prefix<A>)
        ensures
            r@ == self@.0,
    {
        self.prefix
    }

    /// Return the lower bound [`PrefixLength`] of `self`.
    pub fn lower(&self) -> (r: PrefixLength<A>)
        ensures
            r@ == self@.1,
    {
        self.lower
    }

    /// Return the upper bound [`PrefixLength`] of `self`.
    pub fn upper(&self) -> (r: PrefixLength<A>)
        ensures
            r@ == self@.2,
    {
        self.upper
    }

    /// Restrict the lengths of the range to those also in `len_range`, or
    /// `None` if no length remains.
    pub fn with_intersection(self, len_range: RangeInclusive<PrefixLength<A>>) -> (r: Option<Self>)
        ensures
            ({
                let lo = if self@.1 >= len_range@.start@ {
                    self@.1
                } else {
                    len_range@.start@
                };
                let hi = if self@.2 <= len_range@.end@ {
                    self@.2
                } else {
                    len_range@.end@
                };
                &&& r is Some <==> lo <= hi
                &&& r matches Some(g) ==> g@ == (self@.0, lo, hi)
            }),
    {
        proof {
            use_type_invariant(&self);
        }
        let start = range_start(&len_range);
        let end = range_end(&len_range);
        let lower = if self.lower.into_primitive() >= start.into_primitive() {
            self.lower
        } else {
            start
        };
        let upper = if self.upper.into_primitive() <= end.into_primitive() {
            self.upper
        } else {
            end
        };
        match Self::from_bounds(self.prefix, lower, upper) {
            Ok(g) => Some(g),
            Err(_) => None,
        }
    }

    /// Replace the upper bound of the range's lengths by the end of
    /// `len_range`, and raise the lower bound to its start, or `None` if no
    /// length remains.
    pub fn with_length_range(self, len_range: RangeInclusive<PrefixLength<A>>) -> (r: Option<Self>)
        ensures
            ({
                let lo = if self@.1 >= len_range@.start@ {
                    self@.1
                } else {
                    len_range@.start@
                };
                let hi = len_range@.end@;
                &&& r is Some <==> lo <= hi
                &&& r matches Some(g) ==> g@ == (self@.0, lo, hi)
            }),
    {
        proof {
            use_type_invariant(&self);
        }
        let start = range_start(&len_range);
        let end = range_end(&len_range);
        let lower = if self.lower.into_primitive() >= start.into_primitive() {
            self.lower
        } else {
            start
        };
        match Self::from_bounds(self.prefix, lower, end) {
            Ok(g) => Some(g),
            Err(_) => None,
        }
    }

    /// Returns `true` if both ranges are equal.
    pub fn equals(&self, other: &Self) -> (r: bool)
        ensures
            r == (self@ == other@),
    {
        self.prefix.equals(&other.prefix) && self.lower.equals(&other.lower) && self.upper.equals(
            &other.upper,
        )
    }

    /// Returns `true` if `prefix` is a member of the range.
    pub fn contains_prefix(&self, prefix: &Prefix<A>) -> (r: bool)
        ensures
            r == crate::model::in_range(width::<A>(), self@, prefix@),
    {
        proof {
            use_type_invariant(prefix);
        }
        self.prefix.covers(prefix) && self.lower.into_primitive() <= prefix.length().into_primitive()
            && prefix.length().into_primitive() <= self.upper.into_primitive()
    }

    /// Iterate over the members of the range, by increasing length and then
    /// by address.
    pub fn into_iter(self) -> (r: IntoIter<A>)
        ensures
            r@ == (self@, Some(truncate(width::<A>(), self@.0.0, self@.1))),
    {
        proof {
            use_type_invariant(&self);
            A::lemma_afi();
            lemma_truncate_covered(width::<A>(), self@.0, self@.1);
        }
        let first = Prefix::new(self.prefix.prefix(), self.lower);
        IntoIter { range: self, next: Some(first) }
    }
}

impl<A: Afi> Clone for Range<A> {
    fn clone(&self) -> (r: Self)
        ensures
            r == *self,
    {
        *self
    }
}

impl<A: Afi> PartialEq for Range<A> {
    fn eq(&self, other: &Self) -> (r: bool) {
        self.equals(other)
    }
}

impl<A: Afi> vstd::std_specs::cmp::PartialEqSpecImpl for Range<A> {
    open spec fn obeys_eq_spec() -> bool {
        true
    }

    open spec fn eq_spec(&self, other: &Self) -> bool {
        self@ == other@
    }
}

impl<A: Afi> Eq for Range<A> {
}

/// The members of a [`Range<A>`], produced by [`IntoIter::next`].
#[derive(Copy, Debug)]
pub struct IntoIter<A: Afi> {
    range: Range<A>,
    next: Option<Prefix<A>>,
}

impl<A: Afi> Clone for IntoIter<A> {
    fn clone(&self) -> (r: Self)
        ensures
            r == *self,
    {
        *self
    }
}

impl<A: Afi> View for IntoIter<A> {
    type V = (RangeModel, Option<crate::model::PrefixModel>);

    closed spec fn view(&self) -> (RangeModel, Option<crate::model::PrefixModel>) {
        (self.range@, opt_view(self.next))
    }
}

impl<A: Afi> IntoIter<A> {
    /// The pending prefix, if any, is a member of the range.
    #[verifier::type_invariant]
    pub open spec fn wf(self) -> bool {
        self@.1 matches Some(q) ==> crate::model::in_range(width::<A>(), self@.0, q)
    }

    /// Produce the next member of the range.
    pub fn next(&mut self) -> (r: Option<Prefix<A>>)
        ensures
            opt_view(r) == old(self)@.1,
            final(self)@.0 == old(self)@.0,
            final(self)@.1 == (match old(self)@.1 {
                Some(q) => range_succ(width::<A>(), old(self)@.0, q),
                None => None,
            }),
    {
        proof {
            use_type_invariant(&*self);
            use_type_invariant(&self.range);
        }
        match self.next {
            Some(cur) => {
                proof {
                    use_type_invariant(&cur);
                    A::lemma_afi();
                    crate::model::lemma_range_succ_member(width::<A>(), self.range@, cur@);
                }
                let base = self.range.prefix();
                let following = match cur.next_within(&base) {
                    Some(s) => Some(s),
                    None => {
                        match cur.length().increment() {
                            Ok(longer) => {
                                if longer.into_primitive() <= self.range.upper().into_primitive() {
                                    Some(Prefix::new(base.prefix(), longer))
                                } else {
                                    None
                                }
                            },
                            Err(_) => None,
                        }
                    },
                };
                self.next = following;
                Some(cur)
            },
            None => None,
        }
    }
}

} // verus!

verus! {

impl<A: Afi> crate::traits::PrefixRange for Range<A> {
    type Prefix = Prefix<A>;

    type Length = PrefixLength<A>;

    open spec fn prefix_result(&self, r: Prefix<A>) -> bool {
        &&& r@ == self@.0
    }

    fn prefix(&self) -> (r: Prefix<A>) {
        Range::<A>::prefix(self)
    }

    open spec fn lower_result(&self, r: PrefixLength<A>) -> bool {
        &&& r@ == self@.1
    }

    fn lower(&self) -> (r: PrefixLength<A>) {
        Range::<A>::lower(self)
    }

    open spec fn upper_result(&self, r: PrefixLength<A>) -> bool {
        &&& r@ == self@.2
    }

    fn upper(&self) -> (r: PrefixLength<A>) {
        Range::<A>::upper(self)
    }

    open spec fn with_intersection_result(self, len_range: RangeInclusive<PrefixLength<A>>, r: Option<Self>) -> bool {
        &&& ({ let lo = if self@.1 >= len_range@.start@ { self@.1 } else { len_range@.start@ }; let hi = if self@.2 <= len_range@.end@ { self@.2 } else { len_range@.end@ }; &&& r is Some <==> lo <= hi &&& r matches Some(g) ==> g@ == (self@.0, lo, hi) })
    }

    fn with_intersection(self, len_range: RangeInclusive<PrefixLength<A>>) -> (r: Option<Self>) {
        Range::<A>::with_intersection(self, len_range)
    }

    open spec fn with_length_range_result(self, len_range: RangeInclusive<PrefixLength<A>>, r: Option<Self>) -> bool {
        &&& ({ let lo = if self@.1 >= len_range@.start@ { self@.1 } else { len_range@.start@ }; let hi = len_range@.end@; &&& r is Some <==> lo <= hi &&& r matches Some(g) ==> g@ == (self@.0, lo, hi) })
    }

    fn with_length_range(self, len_range: RangeInclusive<PrefixLength<A>>) -> (r: Option<Self>) {
        Range::<A>::with_length_range(self, len_range)
    }
}

} // verus!
