use vstd::prelude::*;

use core::cmp::Ordering;

use crate::afi::{width, Afi};
use crate::bits::lemma_network_fixed;
use crate::model::{
    common_prefix_len, covers, is_common_length, is_longest_common, lemma_compare, lemma_covers_antisym,
    lemma_covers_refl, lemma_longest_common_unique, truncate, valid_prefix, PrefixModel,
};
use super::addr::Address;
use super::interface::host_prefix;
use super::len::PrefixLength;
use super::prefix::{common_length, Prefix};
use super::range::Range;
use crate::model::{lemma_covers_trans, valid_range, RangeModel};
use super::set::prefix_set::{lemma_range_members_subset, range_members};

verus! {

/// Ordering relationship between a pair of [`Prefix<A>`] `P` and `Q`.
#[derive(Clone, Copy, Debug, Hash, PartialEq, Eq)]
pub enum PrefixOrdering<A: Afi> {
    /// `Q` is equal to `P`.
    Equal,
    /// `Q` is a subprefix of `P`.
    Subprefix(Prefix<A>),
    /// `Q` is a superprefix of `P`.
    Superprefix(Prefix<A>),
    /// Neither `P` nor `Q` is a subprefix of the other.
    Divergent(Prefix<A>),
}

/// The relationship of `q` to `p`, with the longest common prefix where
/// they differ.
pub open spec fn spec_compare<A: Afi>(p: PrefixModel, q: PrefixModel, r: PrefixOrdering<A>) -> bool {
    match r {
        PrefixOrdering::Equal => p == q,
        PrefixOrdering::Subprefix(c) => c@ == p && p != q && covers(width::<A>(), p, q),
        PrefixOrdering::Superprefix(c) => c@ == q && p != q && covers(width::<A>(), q, p),
        PrefixOrdering::Divergent(c) => !covers(width::<A>(), p, q) && !covers(width::<A>(), q, p)
            && is_longest_common(width::<A>(), c@, p, q),
    }
}

/// The partial order of prefixes by covering: a prefix is greater than the
/// prefixes it covers.
pub open spec fn prefix_order<A: Afi>(p: PrefixModel, q: PrefixModel) -> Option<Ordering> {
    if p == q {
        Some(Ordering::Equal)
    } else if covers(width::<A>(), p, q) {
        Some(Ordering::Greater)
    } else if covers(width::<A>(), q, p) {
        Some(Ordering::Less)
    } else {
        None
    }
}

impl<A: Afi> Prefix<A> {
    /// Perform ordinal comparison with another [`Prefix<A>`], calculating the
    /// longest common prefix in the process.
    pub fn compare(&self, other: &Self) -> (r: PrefixOrdering<A>)
        ensures
            spec_compare(self@, other@, r),
    {
        proof {
            use_type_invariant(self);
            use_type_invariant(other);
            A::lemma_afi();
        }
        let cl = common_length(self.prefix(), other.prefix());
        let l1 = self.length();
        let l2 = other.length();
        let min_length = if l1.into_primitive() <= l2.into_primitive() {
            l1
        } else {
            l2
        };
        let length = if min_length.into_primitive() <= cl.into_primitive() {
            min_length
        } else {
            cl
        };
        let common = Self::new(self.prefix(), length);
        proof {
            lemma_compare(width::<A>(), self@, other@, cl@);
        }
        let c = common.length().into_primitive();
        let l1 = l1.into_primitive();
        let l2 = l2.into_primitive();
        if c == l1 && c == l2 {
            PrefixOrdering::Equal
        } else if c == l1 {
            PrefixOrdering::Subprefix(common)
        } else if c == l2 {
            PrefixOrdering::Superprefix(common)
        } else {
            PrefixOrdering::Divergent(common)
        }
    }

    /// Partial comparison by covering.
    pub fn prefix_cmp(&self, other: &Self) -> (r: Option<Ordering>)
        ensures
            r == prefix_order::<A>(self@, other@),
    {
        proof {
            use_type_invariant(self);
            use_type_invariant(other);
            A::lemma_afi();
            lemma_covers_refl(width::<A>(), self@);
            if covers(width::<A>(), self@, other@) && covers(width::<A>(), other@, self@) {
                lemma_covers_antisym(width::<A>(), self@, other@);
            }
        }
        match self.compare(other) {
            PrefixOrdering::Equal => Some(Ordering::Equal),
            PrefixOrdering::Subprefix(_) => Some(Ordering::Greater),
            PrefixOrdering::Superprefix(_) => Some(Ordering::Less),
            PrefixOrdering::Divergent(_) => None,
        }
    }

    /// Returns `true` if `self` covers `other`, i.e. `self >= other`.
    pub fn contains(&self, other: &Self) -> (r: bool)
        ensures
            r == covers(width::<A>(), self@, other@),
    {
        self.covers(other)
    }
}

impl<A: Afi> PartialOrd for Prefix<A> {
    fn partial_cmp(&self, other: &Self) -> (r: Option<Ordering>) {
        self.prefix_cmp(other)
    }
}

impl<A: Afi> vstd::std_specs::cmp::PartialOrdSpecImpl for Prefix<A> {
    open spec fn obeys_partial_cmp_spec() -> bool {
        true
    }

    open spec fn partial_cmp_spec(&self, other: &Self) -> Option<Ordering> {
        prefix_order::<A>(self@, other@)
    }
}

/// The order of address values.
pub open spec fn value_order(a: u128, b: u128) -> Option<Ordering> {
    if a < b {
        Some(Ordering::Less)
    } else if a == b {
        Some(Ordering::Equal)
    } else {
        Some(Ordering::Greater)
    }
}

/// The order of prefix lengths.
pub open spec fn length_order(a: u8, b: u8) -> Option<Ordering> {
    if a < b {
        Some(Ordering::Less)
    } else if a == b {
        Some(Ordering::Equal)
    } else {
        Some(Ordering::Greater)
    }
}

/// The order of prefix ranges: a range is less than another whose covering
/// prefix covers its own and whose lengths include its own.
pub open spec fn range_order<A: Afi>(a: RangeModel, b: RangeModel) -> Option<Ordering> {
    let po = prefix_order::<A>(a.0, b.0);
    if a == b {
        Some(Ordering::Equal)
    } else if (po == Some(Ordering::Less) || po == Some(Ordering::Equal)) && b.1 <= a.1 && a.2 <= b.2 {
        Some(Ordering::Less)
    } else if (po == Some(Ordering::Greater) || po == Some(Ordering::Equal)) && a.1 <= b.1 && b.2
        <= a.2 {
        Some(Ordering::Greater)
    } else {
        None
    }
}

impl<A: Afi> Address<A> {
    /// Compare addresses by their value.
    pub fn value_cmp(&self, other: &Self) -> (r: Option<Ordering>)
        ensures
            r == value_order(self@, other@),
    {
        let (a, b) = (self.value(), other.value());
        if a < b {
            Some(Ordering::Less)
        } else if a == b {
            Some(Ordering::Equal)
        } else {
            Some(Ordering::Greater)
        }
    }
}

impl<A: Afi> PartialOrd for Address<A> {
    fn partial_cmp(&self, other: &Self) -> (r: Option<Ordering>) {
        self.value_cmp(other)
    }
}

impl<A: Afi> vstd::std_specs::cmp::PartialOrdSpecImpl for Address<A> {
    open spec fn obeys_partial_cmp_spec() -> bool {
        true
    }

    open spec fn partial_cmp_spec(&self, other: &Self) -> Option<Ordering> {
        value_order(self@, other@)
    }
}

impl<A: Afi> PrefixLength<A> {
    /// Compare prefix lengths by their value.
    pub fn value_cmp(&self, other: &Self) -> (r: Option<Ordering>)
        ensures
            r == length_order(self@, other@),
    {
        let (a, b) = (self.into_primitive(), other.into_primitive());
        if a < b {
            Some(Ordering::Less)
        } else if a == b {
            Some(Ordering::Equal)
        } else {
            Some(Ordering::Greater)
        }
    }
}

impl<A: Afi> PartialOrd for PrefixLength<A> {
    fn partial_cmp(&self, other: &Self) -> (r: Option<Ordering>) {
        self.value_cmp(other)
    }
}

impl<A: Afi> vstd::std_specs::cmp::PartialOrdSpecImpl for PrefixLength<A> {
    open spec fn obeys_partial_cmp_spec() -> bool {
        true
    }

    open spec fn partial_cmp_spec(&self, other: &Self) -> Option<Ordering> {
        length_order(self@, other@)
    }
}

impl<A: Afi> Range<A> {
    /// Compare ranges: less where the other's covering prefix covers this
    /// one's and the other's lengths include this one's.
    pub fn range_cmp(&self, other: &Self) -> (r: Option<Ordering>)
        ensures
            r == range_order::<A>(self@, other@),
    {
        let po = self.prefix().prefix_cmp(&other.prefix());
        let (l1, u1) = (self.lower().into_primitive(), self.upper().into_primitive());
        let (l2, u2) = (other.lower().into_primitive(), other.upper().into_primitive());
        let le = match po {
            Some(Ordering::Less) => true,
            Some(Ordering::Equal) => true,
            _ => false,
        };
        let ge = match po {
            Some(Ordering::Greater) => true,
            Some(Ordering::Equal) => true,
            _ => false,
        };
        if self.equals(other) {
            Some(Ordering::Equal)
        } else if le && l2 <= l1 && u1 <= u2 {
            Some(Ordering::Less)
        } else if ge && l1 <= l2 && u2 <= u1 {
            Some(Ordering::Greater)
        } else {
            None
        }
    }
}

impl<A: Afi> PartialOrd for Range<A> {
    fn partial_cmp(&self, other: &Self) -> (r: Option<Ordering>) {
        self.range_cmp(other)
    }
}

impl<A: Afi> vstd::std_specs::cmp::PartialOrdSpecImpl for Range<A> {
    open spec fn obeys_partial_cmp_spec() -> bool {
        true
    }

    open spec fn partial_cmp_spec(&self, other: &Self) -> Option<Ordering> {
        range_order::<A>(self@, other@)
    }
}

impl<A: Afi> PartialEq<Address<A>> for Prefix<A> {
    fn eq(&self, other: &Address<A>) -> (r: bool) {
        self.equals(&Prefix::from_address(*other))
    }
}

impl<A: Afi> vstd::std_specs::cmp::PartialEqSpecImpl<Address<A>> for Prefix<A> {
    open spec fn obeys_eq_spec() -> bool {
        true
    }

    open spec fn eq_spec(&self, other: &Address<A>) -> bool {
        self@ == host_prefix::<A>(other@)
    }
}

impl<A: Afi> PartialOrd<Address<A>> for Prefix<A> {
    fn partial_cmp(&self, other: &Address<A>) -> (r: Option<Ordering>) {
        self.prefix_cmp(&Prefix::from_address(*other))
    }
}

impl<A: Afi> vstd::std_specs::cmp::PartialOrdSpecImpl<Address<A>> for Prefix<A> {
    open spec fn obeys_partial_cmp_spec() -> bool {
        true
    }

    open spec fn partial_cmp_spec(&self, other: &Address<A>) -> Option<Ordering> {
        prefix_order::<A>(self@, host_prefix::<A>(other@))
    }
}

} // verus!

verus! {

/// Comparing two prefixes has a single outcome: two results that both meet
/// the contract of [`Prefix::compare`] are the same variant, carrying the
/// same longest common prefix.
pub proof fn lemma_compare_unique<A: Afi>(
    p: PrefixModel,
    q: PrefixModel,
    r1: PrefixOrdering<A>,
    r2: PrefixOrdering<A>,
)
    requires
        valid_prefix(width::<A>(), p),
        valid_prefix(width::<A>(), q),
        spec_compare(p, q, r1),
        spec_compare(p, q, r2),
    ensures
        match (r1, r2) {
            (PrefixOrdering::Equal, PrefixOrdering::Equal) => true,
            (PrefixOrdering::Subprefix(a), PrefixOrdering::Subprefix(b)) => a@ == b@,
            (PrefixOrdering::Superprefix(a), PrefixOrdering::Superprefix(b)) => a@ == b@,
            (PrefixOrdering::Divergent(a), PrefixOrdering::Divergent(b)) => a@ == b@,
            _ => false,
        },
{
    let w = width::<A>();
    A::lemma_afi();
    lemma_covers_refl(w, p);
    lemma_covers_refl(w, q);
    if covers(w, p, q) && covers(w, q, p) {
        lemma_covers_antisym(w, p, q);
    }
    if let (PrefixOrdering::Divergent(a), PrefixOrdering::Divergent(b)) = (r1, r2) {
        lemma_longest_common_unique(w, a@, b@, p, q);
    }
}

/// The result of [`Prefix::compare`] in terms of [`common_length`]: with
/// `c` the prefix of `p`'s network at the least of the two lengths and the
/// common length `cl` of the two networks, the result is `Equal` when the
/// prefixes are equal, else `Subprefix(c)` when `c` is `p`, else
/// `Superprefix(c)` when `c` is `q`, and else `Divergent(c)`, with `c`
/// shorter than both.
pub proof fn lemma_compare_common_length<A: Afi>(p: PrefixModel, q: PrefixModel, cl: u8, r: PrefixOrdering<A>)
    requires
        valid_prefix(width::<A>(), p),
        valid_prefix(width::<A>(), q),
        is_common_length(width::<A>(), p.0, q.0, cl as u128),
        spec_compare(p, q, r),
    ensures
        ({
            let c = truncate(width::<A>(), p.0, common_prefix_len(p, q, cl));
            if p == q {
                r is Equal
            } else if c == p {
                r matches PrefixOrdering::Subprefix(x) && x@ == c
            } else if c == q {
                r matches PrefixOrdering::Superprefix(x) && x@ == c
            } else {
                r matches PrefixOrdering::Divergent(x) && x@ == c && c.1 < p.1 && c.1 < q.1
            }
        }),
{
    let w = width::<A>();
    A::lemma_afi();
    let l = common_prefix_len(p, q, cl);
    lemma_compare(w, p, q, cl);
    lemma_covers_refl(w, p);
    lemma_covers_refl(w, q);
    lemma_network_fixed(w, p.1 as u128, p.0);
    if covers(w, p, q) && covers(w, q, p) {
        lemma_covers_antisym(w, p, q);
    }
    if let PrefixOrdering::Divergent(x) = r {
        if l < p.1 && l < q.1 {
            lemma_longest_common_unique(w, x@, truncate(w, p.0, l), p, q);
        }
    }
}

} // verus!

verus! {

/// Prefix ranges are ordered by inclusion of their members: a range whose
/// covering prefix is covered by (or equal to) another's, and whose lengths
/// lie within the other's, is less than the other unless the two are
/// equal, and greater in the reverse case; and a range that is less than
/// another has only members of the other, a greater one all of them.
pub proof fn lemma_range_order_inclusion<A: Afi>(a: RangeModel, b: RangeModel)
    requires
        valid_range(width::<A>(), a),
        valid_range(width::<A>(), b),
    ensures
        covers(width::<A>(), b.0, a.0) && b.1 <= a.1 && a.2 <= b.2 && a != b ==> range_order::<A>(a, b) == Some(
            Ordering::Less,
        ),
        covers(width::<A>(), a.0, b.0) && a.1 <= b.1 && b.2 <= a.2 && a != b ==> range_order::<A>(a, b) == Some(
            Ordering::Greater,
        ),
        range_order::<A>(a, b) == Some(Ordering::Less) ==> a != b && range_members(width::<A>(), a).subset_of(
            range_members(width::<A>(), b),
        ),
        range_order::<A>(a, b) == Some(Ordering::Greater) ==> a != b && range_members(width::<A>(), b).subset_of(
            range_members(width::<A>(), a),
        ),
{
    let w = width::<A>();
    A::lemma_afi();
    if covers(w, a.0, b.0) && covers(w, b.0, a.0) {
        lemma_covers_antisym(w, a.0, b.0);
    }
    assert forall|q: PrefixModel| range_order::<A>(a, b) == Some(Ordering::Less) && range_members(w, a).contains(q)
        implies range_members(w, b).contains(q) by {
        if a.0 != b.0 {
            lemma_covers_trans(w, b.0, a.0, q);
        }
    }
    assert forall|q: PrefixModel| range_order::<A>(a, b) == Some(Ordering::Greater) && range_members(w, b).contains(q)
        implies range_members(w, a).contains(q) by {
        if a.0 != b.0 {
            lemma_covers_trans(w, a.0, b.0, q);
        }
    }
}

} // verus!

verus! {

/// The order of prefix ranges is the order of inclusion of their members:
/// a range is less than another exactly when its members are a proper part
/// of the other's, greater exactly when the other's are a proper part of
/// its own, equal exactly when the two are the same range, and unordered
/// exactly when neither holds all members of the other.
pub proof fn lemma_range_order_members<A: Afi>(a: RangeModel, b: RangeModel)
    requires
        valid_range(width::<A>(), a),
        valid_range(width::<A>(), b),
    ensures
        (range_order::<A>(a, b) == Some(Ordering::Less)) == (range_members(width::<A>(), a).subset_of(
            range_members(width::<A>(), b),
        ) && range_members(width::<A>(), a) != range_members(width::<A>(), b)),
        (range_order::<A>(a, b) == Some(Ordering::Greater)) == (range_members(width::<A>(), b).subset_of(
            range_members(width::<A>(), a),
        ) && range_members(width::<A>(), a) != range_members(width::<A>(), b)),
        (range_order::<A>(a, b) == Some(Ordering::Equal)) == (a == b),
        (range_order::<A>(a, b) is None) == (!range_members(width::<A>(), a).subset_of(
            range_members(width::<A>(), b),
        ) && !range_members(width::<A>(), b).subset_of(range_members(width::<A>(), a))),
{
    let w = width::<A>();
    A::lemma_afi();
    lemma_range_members_subset(w, a, b);
    lemma_range_members_subset(w, b, a);
    lemma_range_order_inclusion::<A>(a, b);
    if covers(w, a.0, b.0) && covers(w, b.0, a.0) {
        lemma_covers_antisym(w, a.0, b.0);
    }
    if range_members(w, a) == range_members(w, b) {
        assert(range_members(w, a).subset_of(range_members(w, b)));
        assert(range_members(w, b).subset_of(range_members(w, a)));
    }
}

} // verus!
