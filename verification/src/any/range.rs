use vstd::prelude::*;
use vstd::string::StringSliceAdditionalSpecFns;

use core::ops::RangeInclusive;
use core::str::FromStr;

use crate::afi::{afi_width, AfiEnum, Ipv4, Ipv6};
use crate::concrete;
use crate::concrete::range::{range_end, range_start};
use crate::error::{Error, Kind};
use crate::model::{range_succ, truncate, PrefixModel, RangeModel};
use crate::parser::ipv4::ipv4_range;
use crate::parser::ipv6::ipv6_range;
use super::prefix::{opt_any_view, Length, Prefix};

verus! {

/// A prefix range of either address family.
#[derive(Copy, Debug, Hash)]
pub enum Range {
    /// A range of IPv4 prefixes.
    Ipv4(concrete::PrefixRange<Ipv4>),
    /// A range of IPv6 prefixes.
    Ipv6(concrete::PrefixRange<Ipv6>),
}

impl View for Range {
    type V = (AfiEnum, RangeModel);

    open spec fn view(&self) -> (AfiEnum, RangeModel) {
        match self {
            Range::Ipv4(r) => (AfiEnum::Ipv4, r@),
            Range::Ipv6(r) => (AfiEnum::Ipv6, r@),
        }
    }
}

impl Range {
    /// The range holding only `prefix`.
    pub fn from_prefix(prefix: Prefix) -> (r: Self)
        ensures
            r@ == (prefix@.0, (prefix@.1, prefix@.1.1, prefix@.1.1)),
    {
        match prefix {
            Prefix::Ipv4(p) => Range::Ipv4(concrete::PrefixRange::from_prefix(p)),
            Prefix::Ipv6(p) => Range::Ipv6(concrete::PrefixRange::from_prefix(p)),
        }
    }

    /// The covering prefix of the range.
    pub fn prefix(&self) -> (r: Prefix)
        ensures
            r@ == (self@.0, self@.1.0),
    {
        match self {
            Range::Ipv4(r) => Prefix::Ipv4(r.prefix()),
            Range::Ipv6(r) => Prefix::Ipv6(r.prefix()),
        }
    }

    /// The lower bound of the lengths of the members.
    pub fn lower(&self) -> (r: Length)
        ensures
            r@ == (self@.0, self@.1.1),
    {
        match self {
            Range::Ipv4(r) => Length::Ipv4(r.lower()),
            Range::Ipv6(r) => Length::Ipv6(r.lower()),
        }
    }

    /// The upper bound of the lengths of the members.
    pub fn upper(&self) -> (r: Length)
        ensures
            r@ == (self@.0, self@.1.2),
    {
        match self {
            Range::Ipv4(r) => Length::Ipv4(r.upper()),
            Range::Ipv6(r) => Length::Ipv6(r.upper()),
        }
    }

    /// Restrict the lengths of the range to those also in `len_range`, or
    /// [`None`] if no length remains or the lengths are of the other family.
    pub fn with_intersection(self, len_range: RangeInclusive<Length>) -> (r: Option<Self>)
        ensures
            ({
                let (s, e) = (len_range@.start@, len_range@.end@);
                let lo = if self@.1.1 >= s.1 { self@.1.1 } else { s.1 };
                let hi = if self@.1.2 <= e.1 { self@.1.2 } else { e.1 };
                &&& r is Some <==> (s.0 == self@.0 && e.0 == self@.0 && lo <= hi)
                &&& r matches Some(g) ==> g@ == (self@.0, (self@.1.0, lo, hi))
            }),
    {
        let start = range_start(&len_range);
        let end = range_end(&len_range);
        match (self, start, end) {
            (Range::Ipv4(r), Length::Ipv4(s), Length::Ipv4(e)) => match r.with_intersection(s..=e) {
                Some(g) => Some(Range::Ipv4(g)),
                None => None,
            },
            (Range::Ipv6(r), Length::Ipv6(s), Length::Ipv6(e)) => match r.with_intersection(s..=e) {
                Some(g) => Some(Range::Ipv6(g)),
                None => None,
            },
            _ => None,
        }
    }

    /// Replace the upper bound of the lengths by the end of `len_range` and
    /// raise the lower bound to its start, or [`None`] if no length remains
    /// or the lengths are of the other family.
    pub fn with_length_range(self, len_range: RangeInclusive<Length>) -> (r: Option<Self>)
        ensures
            ({
                let (s, e) = (len_range@.start@, len_range@.end@);
                let lo = if self@.1.1 >= s.1 { self@.1.1 } else { s.1 };
                let hi = e.1;
                &&& r is Some <==> (s.0 == self@.0 && e.0 == self@.0 && lo <= hi)
                &&& r matches Some(g) ==> g@ == (self@.0, (self@.1.0, lo, hi))
            }),
    {
        let start = range_start(&len_range);
        let end = range_end(&len_range);
        match (self, start, end) {
            (Range::Ipv4(r), Length::Ipv4(s), Length::Ipv4(e)) => match r.with_length_range(s..=e) {
                Some(g) => Some(Range::Ipv4(g)),
                None => None,
            },
            (Range::Ipv6(r), Length::Ipv6(s), Length::Ipv6(e)) => match r.with_length_range(s..=e) {
                Some(g) => Some(Range::Ipv6(g)),
                None => None,
            },
            _ => None,
        }
    }

    /// The members of the range, by length and then by address.
    pub fn into_iter(self) -> (r: IntoIter)
        ensures
            r@.0 == self@.0,
            r@.1 == self@.1,
            r@.2 == Some(truncate(afi_width(self@.0), self@.1.0.0, self@.1.1)),
    {
        match self {
            Range::Ipv4(r) => IntoIter::Ipv4(r.into_iter()),
            Range::Ipv6(r) => IntoIter::Ipv6(r.into_iter()),
        }
    }

    /// Parse the text of a prefix range: as an IPv4 range, and failing
    /// that, as an IPv6 range.
    ///
    /// # Errors
    ///
    /// Fails with the error of the IPv6 attempt where both attempts fail.
    pub fn parse(s: &str) -> (r: Result<Self, Error>)
        ensures
            match ipv4_range(s.spec_bytes()) {
                Some((v, l, lo, hi)) if l <= 32 && lo <= 32 && hi <= 32 && l <= lo && lo <= hi => r matches Ok(
                    g,
                ) && g@ == (AfiEnum::Ipv4, (truncate(32, v, l), lo, hi)),
                _ => match ipv6_range(s.spec_bytes()) {
                    Some((v, l, lo, hi)) => if l > 128 || lo > 128 || hi > 128 {
                        r matches Err(e) && e.spec_kind() == Kind::PrefixLength
                    } else if l <= lo && lo <= hi {
                        r matches Ok(g) && g@ == (AfiEnum::Ipv6, (truncate(128, v, l), lo, hi))
                    } else {
                        r matches Err(e) && e.spec_kind() == Kind::PrefixLengthRange
                    },
                    None => r matches Err(e) && e.spec_kind() == Kind::ParserError,
                },
            },
    {
        match concrete::PrefixRange::<Ipv4>::parse(s) {
            Ok(g) => Ok(Range::Ipv4(g)),
            Err(_) => match concrete::PrefixRange::<Ipv6>::parse(s) {
                Ok(g) => Ok(Range::Ipv6(g)),
                Err(e) => Err(e),
            },
        }
    }

    /// Returns [`true`] if both ranges are equal.
    pub fn equals(&self, other: &Self) -> (r: bool)
        ensures
            r == (self@ == other@),
    {
        match (self, other) {
            (Range::Ipv4(a), Range::Ipv4(b)) => a.equals(b),
            (Range::Ipv6(a), Range::Ipv6(b)) => a.equals(b),
            _ => false,
        }
    }

    /// The text of the range.
    pub fn to_string(&self) -> (r: String)
        ensures
            r@ == (match self {
                Range::Ipv4(g) => crate::concrete::display::prefix_display::<Ipv4>(g@.0.0, g@.0.1)
                    + seq!['^'] + crate::text::dec_text(g@.1 as nat) + seq!['-']
                    + crate::text::dec_text(g@.2 as nat),
                Range::Ipv6(g) => crate::concrete::display::prefix_display::<Ipv6>(g@.0.0, g@.0.1)
                    + seq!['^'] + crate::text::dec_text(g@.1 as nat) + seq!['-']
                    + crate::text::dec_text(g@.2 as nat),
            }),
    {
        match self {
            Range::Ipv4(g) => g.to_string(),
            Range::Ipv6(g) => g.to_string(),
        }
    }
}

impl Clone for Range {
    fn clone(&self) -> (r: Self)
        ensures
            r == *self,
    {
        *self
    }
}

impl PartialEq for Range {
    fn eq(&self, other: &Self) -> (r: bool) {
        self.equals(other)
    }
}

impl vstd::std_specs::cmp::PartialEqSpecImpl for Range {
    open spec fn obeys_eq_spec() -> bool {
        true
    }

    open spec fn eq_spec(&self, other: &Self) -> bool {
        self@ == other@
    }
}

impl Eq for Range {
}

impl FromStr for Range {
    type Err = Error;

    fn from_str(s: &str) -> (r: Result<Self, Error>)
        ensures
            match ipv4_range(s.spec_bytes()) {
                Some((v, l, lo, hi)) if l <= 32 && lo <= 32 && hi <= 32 && l <= lo && lo <= hi => r matches Ok(
                    g,
                ) && g@ == (AfiEnum::Ipv4, (truncate(32, v, l), lo, hi)),
                _ => match ipv6_range(s.spec_bytes()) {
                    Some((v, l, lo, hi)) => if l > 128 || lo > 128 || hi > 128 {
                        r matches Err(e) && e.spec_kind() == Kind::PrefixLength
                    } else if l <= lo && lo <= hi {
                        r matches Ok(g) && g@ == (AfiEnum::Ipv6, (truncate(128, v, l), lo, hi))
                    } else {
                        r matches Err(e) && e.spec_kind() == Kind::PrefixLengthRange
                    },
                    None => r matches Err(e) && e.spec_kind() == Kind::ParserError,
                },
            },
    {
        Self::parse(s)
    }
}

/// The members of a prefix range of either address family.
#[derive(Copy, Debug)]
pub enum IntoIter {
    /// Members of an IPv4 range.
    Ipv4(concrete::IntoIter<Ipv4>),
    /// Members of an IPv6 range.
    Ipv6(concrete::IntoIter<Ipv6>),
}

impl View for IntoIter {
    type V = (AfiEnum, RangeModel, Option<PrefixModel>);

    open spec fn view(&self) -> (AfiEnum, RangeModel, Option<PrefixModel>) {
        match self {
            IntoIter::Ipv4(i) => (AfiEnum::Ipv4, i@.0, i@.1),
            IntoIter::Ipv6(i) => (AfiEnum::Ipv6, i@.0, i@.1),
        }
    }
}

impl IntoIter {
    /// Produce the next member of the range.
    pub fn next(&mut self) -> (r: Option<Prefix>)
        ensures
            opt_any_view(r) == (match old(self)@.2 {
                Some(q) => Some((old(self)@.0, q)),
                None => None,
            }),
            final(self)@.0 == old(self)@.0,
            final(self)@.1 == old(self)@.1,
            final(self)@.2 == (match old(self)@.2 {
                Some(q) => range_succ(afi_width(old(self)@.0), old(self)@.1, q),
                None => None,
            }),
    {
        match self {
            IntoIter::Ipv4(i) => match i.next() {
                Some(p) => Some(Prefix::Ipv4(p)),
                None => None,
            },
            IntoIter::Ipv6(i) => match i.next() {
                Some(p) => Some(Prefix::Ipv6(p)),
                None => None,
            },
        }
    }
}

impl Clone for IntoIter {
    fn clone(&self) -> (r: Self)
        ensures
            r == *self,
    {
        *self
    }
}

} // verus!

verus! {

impl crate::traits::PrefixRange for Range {
    type Prefix = Prefix;

    type Length = Length;

    open spec fn prefix_result(&self, r: Prefix) -> bool {
        &&& r@ == (self@.0, self@.1.0)
    }

    fn prefix(&self) -> (r: Prefix) {
        Range::prefix(self)
    }

    open spec fn lower_result(&self, r: Length) -> bool {
        &&& r@ == (self@.0, self@.1.1)
    }

    fn lower(&self) -> (r: Length) {
        Range::lower(self)
    }

    open spec fn upper_result(&self, r: Length) -> bool {
        &&& r@ == (self@.0, self@.1.2)
    }

    fn upper(&self) -> (r: Length) {
        Range::upper(self)
    }

    open spec fn with_intersection_result(self, len_range: RangeInclusive<Length>, r: Option<Self>) -> bool {
        &&& ({ let (s, e) = (len_range@.start@, len_range@.end@); let lo = if self@.1.1 >= s.1 { self@.1.1 } else { s.1 }; let hi = if self@.1.2 <= e.1 { self@.1.2 } else { e.1 }; &&& r is Some <==> (s.0 == self@.0 && e.0 == self@.0 && lo <= hi) &&& r matches Some(g) ==> g@ == (self@.0, (self@.1.0, lo, hi)) })
    }

    fn with_intersection(self, len_range: RangeInclusive<Length>) -> (r: Option<Self>) {
        Range::with_intersection(self, len_range)
    }

    open spec fn with_length_range_result(self, len_range: RangeInclusive<Length>, r: Option<Self>) -> bool {
        &&& ({ let (s, e) = (len_range@.start@, len_range@.end@); let lo = if self@.1.1 >= s.1 { self@.1.1 } else { s.1 }; let hi = e.1; &&& r is Some <==> (s.0 == self@.0 && e.0 == self@.0 && lo <= hi) &&& r matches Some(g) ==> g@ == (self@.0, (self@.1.0, lo, hi)) })
    }

    fn with_length_range(self, len_range: RangeInclusive<Length>) -> (r: Option<Self>) {
        Range::with_length_range(self, len_range)
    }
}

} // verus!
