use vstd::prelude::*;

use core::cmp::Ordering;
use vstd::std_specs::cmp::{PartialEqSpec, PartialOrdSpec};

use crate::afi::{width, AfiEnum, Ipv4, Ipv6};
use crate::concrete;
use crate::concrete::ord::{length_order, prefix_order, range_order, value_order};
use crate::concrete::set::ord::inclusion_order;
use crate::model::{
    covers, lemma_covers_antisym, lemma_covers_trans, valid_prefix, PrefixModel, RangeModel,
};
use super::addr::Address;
use super::prefix::{Length, Prefix};
use super::range::Range;
use super::set::PrefixSet;

verus! {

/// An ordering seen from the other operand.
pub open spec fn reversed(o: Option<Ordering>) -> Option<Ordering> {
    match o {
        Some(Ordering::Less) => Some(Ordering::Greater),
        Some(Ordering::Greater) => Some(Ordering::Less),
        _ => o,
    }
}

/// The order of families: IPv4 objects before IPv6 objects.
pub open spec fn family_order(a: AfiEnum, b: AfiEnum) -> Option<Ordering> {
    if a == b {
        Some(Ordering::Equal)
    } else if a == AfiEnum::Ipv4 {
        Some(Ordering::Less)
    } else {
        Some(Ordering::Greater)
    }
}

/// Addresses of one family compare by value; others are incomparable.
pub open spec fn any_address_order(a: (AfiEnum, u128), b: (AfiEnum, u128)) -> Option<Ordering> {
    if a.0 == b.0 {
        value_order(a.1, b.1)
    } else {
        None
    }
}

/// Prefixes compare by family, then by covering.
pub open spec fn any_prefix_order(a: (AfiEnum, PrefixModel), b: (AfiEnum, PrefixModel)) -> Option<Ordering> {
    if a.0 != b.0 {
        family_order(a.0, b.0)
    } else {
        match a.0 {
            AfiEnum::Ipv4 => prefix_order::<Ipv4>(a.1, b.1),
            AfiEnum::Ipv6 => prefix_order::<Ipv6>(a.1, b.1),
        }
    }
}

/// Prefix lengths compare by family, then by value.
pub open spec fn any_length_order(a: (AfiEnum, u8), b: (AfiEnum, u8)) -> Option<Ordering> {
    if a.0 != b.0 {
        family_order(a.0, b.0)
    } else {
        length_order(a.1, b.1)
    }
}

/// Prefix ranges compare by family, then as ranges of one family.
pub open spec fn any_range_order(a: (AfiEnum, RangeModel), b: (AfiEnum, RangeModel)) -> Option<Ordering> {
    if a.0 != b.0 {
        family_order(a.0, b.0)
    } else {
        match a.0 {
            AfiEnum::Ipv4 => range_order::<Ipv4>(a.1, b.1),
            AfiEnum::Ipv6 => range_order::<Ipv6>(a.1, b.1),
        }
    }
}

/// Sets of both families compare by inclusion in both families.
pub open spec fn any_set_order(
    a: (Set<PrefixModel>, Set<PrefixModel>),
    b: (Set<PrefixModel>, Set<PrefixModel>),
) -> Option<Ordering> {
    let o4 = inclusion_order(a.0, b.0);
    let o6 = inclusion_order(a.1, b.1);
    if o4 == Some(Ordering::Equal) && o6 == Some(Ordering::Equal) {
        Some(Ordering::Equal)
    } else if (o4 == Some(Ordering::Less) || o4 == Some(Ordering::Equal)) && (o6 == Some(
        Ordering::Less,
    ) || o6 == Some(Ordering::Equal)) {
        Some(Ordering::Less)
    } else if (o4 == Some(Ordering::Greater) || o4 == Some(Ordering::Equal)) && (o6 == Some(
        Ordering::Greater,
    ) || o6 == Some(Ordering::Equal)) {
        Some(Ordering::Greater)
    } else {
        None
    }
}

impl PartialOrd for Address {
    fn partial_cmp(&self, other: &Self) -> (r: Option<Ordering>) {
        match (self, other) {
            (Address::Ipv4(a), Address::Ipv4(b)) => a.value_cmp(b),
            (Address::Ipv6(a), Address::Ipv6(b)) => a.value_cmp(b),
            _ => None,
        }
    }
}

impl vstd::std_specs::cmp::PartialOrdSpecImpl for Address {
    open spec fn obeys_partial_cmp_spec() -> bool {
        true
    }

    open spec fn partial_cmp_spec(&self, other: &Self) -> Option<Ordering> {
        any_address_order(self@, other@)
    }
}

impl PartialOrd for Prefix {
    fn partial_cmp(&self, other: &Self) -> (r: Option<Ordering>) {
        match (self, other) {
            (Prefix::Ipv4(a), Prefix::Ipv4(b)) => a.prefix_cmp(b),
            (Prefix::Ipv6(a), Prefix::Ipv6(b)) => a.prefix_cmp(b),
            (Prefix::Ipv4(_), Prefix::Ipv6(_)) => Some(Ordering::Less),
            (Prefix::Ipv6(_), Prefix::Ipv4(_)) => Some(Ordering::Greater),
        }
    }
}

impl vstd::std_specs::cmp::PartialOrdSpecImpl for Prefix {
    open spec fn obeys_partial_cmp_spec() -> bool {
        true
    }

    open spec fn partial_cmp_spec(&self, other: &Self) -> Option<Ordering> {
        any_prefix_order(self@, other@)
    }
}

impl PartialOrd for Length {
    fn partial_cmp(&self, other: &Self) -> (r: Option<Ordering>) {
        match (self, other) {
            (Length::Ipv4(a), Length::Ipv4(b)) => a.value_cmp(b),
            (Length::Ipv6(a), Length::Ipv6(b)) => a.value_cmp(b),
            (Length::Ipv4(_), Length::Ipv6(_)) => Some(Ordering::Less),
            (Length::Ipv6(_), Length::Ipv4(_)) => Some(Ordering::Greater),
        }
    }
}

impl vstd::std_specs::cmp::PartialOrdSpecImpl for Length {
    open spec fn obeys_partial_cmp_spec() -> bool {
        true
    }

    open spec fn partial_cmp_spec(&self, other: &Self) -> Option<Ordering> {
        any_length_order(self@, other@)
    }
}

impl PartialOrd for Range {
    fn partial_cmp(&self, other: &Self) -> (r: Option<Ordering>) {
        match (self, other) {
            (Range::Ipv4(a), Range::Ipv4(b)) => a.range_cmp(b),
            (Range::Ipv6(a), Range::Ipv6(b)) => a.range_cmp(b),
            (Range::Ipv4(_), Range::Ipv6(_)) => Some(Ordering::Less),
            (Range::Ipv6(_), Range::Ipv4(_)) => Some(Ordering::Greater),
        }
    }
}

impl vstd::std_specs::cmp::PartialOrdSpecImpl for Range {
    open spec fn obeys_partial_cmp_spec() -> bool {
        true
    }

    open spec fn partial_cmp_spec(&self, other: &Self) -> Option<Ordering> {
        any_range_order(self@, other@)
    }
}

impl PrefixSet {
    /// Compare sets by inclusion in both families.
    pub fn inclusion(&self, other: &Self) -> (r: Option<Ordering>)
        ensures
            r == any_set_order(self@, other@),
    {
        let (a4, a6) = self.parts();
        let (b4, b6) = other.parts();
        let o4 = a4.inclusion(b4);
        let o6 = a6.inclusion(b6);
        let le4 = match o4 {
            Some(Ordering::Less) => true,
            Some(Ordering::Equal) => true,
            _ => false,
        };
        let le6 = match o6 {
            Some(Ordering::Less) => true,
            Some(Ordering::Equal) => true,
            _ => false,
        };
        let ge4 = match o4 {
            Some(Ordering::Greater) => true,
            Some(Ordering::Equal) => true,
            _ => false,
        };
        let ge6 = match o6 {
            Some(Ordering::Greater) => true,
            Some(Ordering::Equal) => true,
            _ => false,
        };
        let eq4 = match o4 {
            Some(Ordering::Equal) => true,
            _ => false,
        };
        let eq6 = match o6 {
            Some(Ordering::Equal) => true,
            _ => false,
        };
        if eq4 && eq6 {
            Some(Ordering::Equal)
        } else if le4 && le6 {
            Some(Ordering::Less)
        } else if ge4 && ge6 {
            Some(Ordering::Greater)
        } else {
            None
        }
    }
}

impl PartialOrd for PrefixSet {
    fn partial_cmp(&self, other: &Self) -> (r: Option<Ordering>) {
        self.inclusion(other)
    }
}

impl vstd::std_specs::cmp::PartialOrdSpecImpl for PrefixSet {
    open spec fn obeys_partial_cmp_spec() -> bool {
        true
    }

    open spec fn partial_cmp_spec(&self, other: &Self) -> Option<Ordering> {
        any_set_order(self@, other@)
    }
}

impl PartialEq<concrete::Address<Ipv4>> for Address {
    fn eq(&self, other: &concrete::Address<Ipv4>) -> (r: bool) {
        match self {
            Address::Ipv4(a) => a.equals(other),
            Address::Ipv6(_) => false,
        }
    }
}

impl vstd::std_specs::cmp::PartialEqSpecImpl<concrete::Address<Ipv4>> for Address {
    open spec fn obeys_eq_spec() -> bool {
        true
    }

    open spec fn eq_spec(&self, other: &concrete::Address<Ipv4>) -> bool {
        self@ == (AfiEnum::Ipv4, other@)
    }
}

impl PartialEq<concrete::Address<Ipv6>> for Address {
    fn eq(&self, other: &concrete::Address<Ipv6>) -> (r: bool) {
        match self {
            Address::Ipv6(a) => a.equals(other),
            Address::Ipv4(_) => false,
        }
    }
}

impl vstd::std_specs::cmp::PartialEqSpecImpl<concrete::Address<Ipv6>> for Address {
    open spec fn obeys_eq_spec() -> bool {
        true
    }

    open spec fn eq_spec(&self, other: &concrete::Address<Ipv6>) -> bool {
        self@ == (AfiEnum::Ipv6, other@)
    }
}

impl PartialEq<Address> for concrete::Address<Ipv4> {
    fn eq(&self, other: &Address) -> (r: bool) {
        match other {
            Address::Ipv4(a) => a.equals(self),
            Address::Ipv6(_) => false,
        }
    }
}

impl vstd::std_specs::cmp::PartialEqSpecImpl<Address> for concrete::Address<Ipv4> {
    open spec fn obeys_eq_spec() -> bool {
        true
    }

    open spec fn eq_spec(&self, other: &Address) -> bool {
        other@ == (AfiEnum::Ipv4, self@)
    }
}

impl PartialEq<Address> for concrete::Address<Ipv6> {
    fn eq(&self, other: &Address) -> (r: bool) {
        match other {
            Address::Ipv6(a) => a.equals(self),
            Address::Ipv4(_) => false,
        }
    }
}

impl vstd::std_specs::cmp::PartialEqSpecImpl<Address> for concrete::Address<Ipv6> {
    open spec fn obeys_eq_spec() -> bool {
        true
    }

    open spec fn eq_spec(&self, other: &Address) -> bool {
        other@ == (AfiEnum::Ipv6, self@)
    }
}

impl PartialOrd<concrete::Address<Ipv4>> for Address {
    fn partial_cmp(&self, other: &concrete::Address<Ipv4>) -> (r: Option<Ordering>) {
        match self {
            Address::Ipv4(a) => a.value_cmp(other),
            Address::Ipv6(_) => None,
        }
    }
}

impl vstd::std_specs::cmp::PartialOrdSpecImpl<concrete::Address<Ipv4>> for Address {
    open spec fn obeys_partial_cmp_spec() -> bool {
        true
    }

    open spec fn partial_cmp_spec(&self, other: &concrete::Address<Ipv4>) -> Option<Ordering> {
        any_address_order(self@, (AfiEnum::Ipv4, other@))
    }
}

impl PartialOrd<concrete::Address<Ipv6>> for Address {
    fn partial_cmp(&self, other: &concrete::Address<Ipv6>) -> (r: Option<Ordering>) {
        match self {
            Address::Ipv6(a) => a.value_cmp(other),
            Address::Ipv4(_) => None,
        }
    }
}

impl vstd::std_specs::cmp::PartialOrdSpecImpl<concrete::Address<Ipv6>> for Address {
    open spec fn obeys_partial_cmp_spec() -> bool {
        true
    }

    open spec fn partial_cmp_spec(&self, other: &concrete::Address<Ipv6>) -> Option<Ordering> {
        any_address_order(self@, (AfiEnum::Ipv6, other@))
    }
}

impl PartialOrd<Address> for concrete::Address<Ipv4> {
    fn partial_cmp(&self, other: &Address) -> (r: Option<Ordering>) {
        match other {
            Address::Ipv4(a) => self.value_cmp(a),
            Address::Ipv6(_) => None,
        }
    }
}

impl vstd::std_specs::cmp::PartialOrdSpecImpl<Address> for concrete::Address<Ipv4> {
    open spec fn obeys_partial_cmp_spec() -> bool {
        true
    }

    open spec fn partial_cmp_spec(&self, other: &Address) -> Option<Ordering> {
        reversed(any_address_order(other@, (AfiEnum::Ipv4, self@)))
    }
}

impl PartialOrd<Address> for concrete::Address<Ipv6> {
    fn partial_cmp(&self, other: &Address) -> (r: Option<Ordering>) {
        match other {
            Address::Ipv6(a) => self.value_cmp(a),
            Address::Ipv4(_) => None,
        }
    }
}

impl vstd::std_specs::cmp::PartialOrdSpecImpl<Address> for concrete::Address<Ipv6> {
    open spec fn obeys_partial_cmp_spec() -> bool {
        true
    }

    open spec fn partial_cmp_spec(&self, other: &Address) -> Option<Ordering> {
        reversed(any_address_order(other@, (AfiEnum::Ipv6, self@)))
    }
}

/// Equality of addresses of either family is an equivalence: it is
/// reflexive, symmetric and transitive, and an address of either family
/// equals an address of one family exactly when that one equals it.
pub proof fn lemma_address_eq(a: Address, b: Address, c: Address, x: concrete::Address<Ipv4>, y: concrete::Address<Ipv6>)
    ensures
        a.eq_spec(&a),
        a.eq_spec(&b) == b.eq_spec(&a),
        a.eq_spec(&b) && b.eq_spec(&c) ==> a.eq_spec(&c),
        a.eq_spec(&x) == x.eq_spec(&a),
        a.eq_spec(&y) == y.eq_spec(&a),
        a.eq_spec(&x) && b.eq_spec(&x) ==> a.eq_spec(&b),
        a.eq_spec(&y) && b.eq_spec(&y) ==> a.eq_spec(&b),
{
}

/// Comparing addresses of either family: the order is the reverse with the
/// operands swapped, `Equal` means equal, and `<` and `>` are transitive;
/// comparisons with an address of one family agree with it.
pub proof fn lemma_address_order(a: Address, b: Address, c: Address, x: concrete::Address<Ipv4>, y: concrete::Address<Ipv6>)
    ensures
        a.partial_cmp_spec(&b) == reversed(b.partial_cmp_spec(&a)),
        (a.partial_cmp_spec(&b) == Some(Ordering::Equal)) == a.eq_spec(&b),
        a.partial_cmp_spec(&b) == Some(Ordering::Less) && b.partial_cmp_spec(&c) == Some(
            Ordering::Less,
        ) ==> a.partial_cmp_spec(&c) == Some(Ordering::Less),
        a.partial_cmp_spec(&b) == Some(Ordering::Greater) && b.partial_cmp_spec(&c) == Some(
            Ordering::Greater,
        ) ==> a.partial_cmp_spec(&c) == Some(Ordering::Greater),
        a.partial_cmp_spec(&x) == reversed(x.partial_cmp_spec(&a)),
        a.partial_cmp_spec(&y) == reversed(y.partial_cmp_spec(&a)),
        a.partial_cmp_spec(&x) == a.partial_cmp_spec(&Address::Ipv4(x)),
        a.partial_cmp_spec(&y) == a.partial_cmp_spec(&Address::Ipv6(y)),
{
}

/// The order of prefixes of one family by covering is a partial order:
/// `Equal` exactly for equal prefixes, the reverse with the operands swapped,
/// and transitive.
pub proof fn lemma_prefix_order<A: crate::afi::Afi>(p: concrete::Prefix<A>, q: concrete::Prefix<A>, r: concrete::Prefix<A>)
    requires
        valid_prefix(width::<A>(), p@),
        valid_prefix(width::<A>(), q@),
        valid_prefix(width::<A>(), r@),
    ensures
        (p.partial_cmp_spec(&q) == Some(Ordering::Equal)) == (p@ == q@),
        p.partial_cmp_spec(&q) == reversed(q.partial_cmp_spec(&p)),
        p.partial_cmp_spec(&q) == Some(Ordering::Less) && q.partial_cmp_spec(&r) == Some(
            Ordering::Less,
        ) ==> p.partial_cmp_spec(&r) == Some(Ordering::Less),
        p.partial_cmp_spec(&q) == Some(Ordering::Greater) && q.partial_cmp_spec(&r) == Some(
            Ordering::Greater,
        ) ==> p.partial_cmp_spec(&r) == Some(Ordering::Greater),
{
    let w = width::<A>();
    A::lemma_afi();
    if covers(w, p@, q@) && covers(w, q@, p@) {
        lemma_covers_antisym(w, p@, q@);
    }
    if covers(w, q@, r@) && covers(w, r@, q@) {
        lemma_covers_antisym(w, q@, r@);
    }
    if covers(w, p@, r@) && covers(w, r@, p@) {
        lemma_covers_antisym(w, p@, r@);
    }
    if covers(w, q@, p@) && covers(w, r@, q@) {
        lemma_covers_trans(w, r@, q@, p@);
    }
    if covers(w, p@, q@) && covers(w, q@, r@) {
        lemma_covers_trans(w, p@, q@, r@);
    }
}

/// The order of prefixes of either family is a partial order: `Equal`
/// exactly for equal prefixes, the reverse with the operands swapped, and
/// transitive.
pub proof fn lemma_any_prefix_order(p: Prefix, q: Prefix, r: Prefix)
    requires
        valid_prefix(crate::afi::afi_width(p@.0), p@.1),
        valid_prefix(crate::afi::afi_width(q@.0), q@.1),
        valid_prefix(crate::afi::afi_width(r@.0), r@.1),
    ensures
        (p.partial_cmp_spec(&q) == Some(Ordering::Equal)) == (p@ == q@),
        p.partial_cmp_spec(&q) == reversed(q.partial_cmp_spec(&p)),
        p.partial_cmp_spec(&q) == Some(Ordering::Less) && q.partial_cmp_spec(&r) == Some(
            Ordering::Less,
        ) ==> p.partial_cmp_spec(&r) == Some(Ordering::Less),
        p.partial_cmp_spec(&q) == Some(Ordering::Greater) && q.partial_cmp_spec(&r) == Some(
            Ordering::Greater,
        ) ==> p.partial_cmp_spec(&r) == Some(Ordering::Greater),
{
    match (p, q, r) {
        (Prefix::Ipv4(a), Prefix::Ipv4(b), Prefix::Ipv4(c)) => lemma_prefix_order(a, b, c),
        (Prefix::Ipv6(a), Prefix::Ipv6(b), Prefix::Ipv6(c)) => lemma_prefix_order(a, b, c),
        (Prefix::Ipv4(a), Prefix::Ipv4(b), _) => lemma_prefix_order(a, b, a),
        (Prefix::Ipv6(a), Prefix::Ipv6(b), _) => lemma_prefix_order(a, b, a),
        (_, Prefix::Ipv4(b), Prefix::Ipv4(c)) => lemma_prefix_order(b, c, b),
        (_, Prefix::Ipv6(b), Prefix::Ipv6(c)) => lemma_prefix_order(b, c, b),
        _ => {},
    }
}

/// The order of sets of prefixes by inclusion is a partial order: `Equal`
/// exactly for equal sets, the reverse with the operands swapped, and
/// transitive.
pub proof fn lemma_inclusion_order(a: Set<PrefixModel>, b: Set<PrefixModel>, c: Set<PrefixModel>)
    ensures
        (inclusion_order(a, b) == Some(Ordering::Equal)) == (a == b),
        inclusion_order(a, b) == reversed(inclusion_order(b, a)),
        inclusion_order(a, b) == Some(Ordering::Less) && inclusion_order(b, c) == Some(Ordering::Less)
            ==> inclusion_order(a, c) == Some(Ordering::Less),
        inclusion_order(a, b) == Some(Ordering::Greater) && inclusion_order(b, c) == Some(
            Ordering::Greater,
        ) ==> inclusion_order(a, c) == Some(Ordering::Greater),
{
    if a.subset_of(b) && b.subset_of(a) {
        assert(a =~= b);
    }
    if a.subset_of(b) && b.subset_of(c) && c.subset_of(a) {
        assert(a =~= b);
    }
    if b.subset_of(a) && c.subset_of(b) && a.subset_of(c) {
        assert(a =~= b);
    }
}

/// The order of classes of address families by inclusion is a partial
/// order: `Equal` exactly for the same class, the reverse with the operands
/// swapped, and transitive.
pub proof fn lemma_class_order(a: super::af::AfiClass, b: super::af::AfiClass, c: super::af::AfiClass)
    ensures
        (super::af::class_order(a, b) == Some(Ordering::Equal)) == (a == b),
        super::af::class_order(a, b) == reversed(super::af::class_order(b, a)),
        super::af::class_order(a, b) == Some(Ordering::Less) && super::af::class_order(b, c) == Some(
            Ordering::Less,
        ) ==> super::af::class_order(a, c) == Some(Ordering::Less),
        super::af::class_order(a, b) == Some(Ordering::Greater) && super::af::class_order(b, c)
            == Some(Ordering::Greater) ==> super::af::class_order(a, c) == Some(Ordering::Greater),
{
}

} // verus!
