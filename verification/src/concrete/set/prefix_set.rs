use vstd::prelude::*;

use core::marker::PhantomData;

use crate::afi::{width, Afi, AfiEnum};
use crate::bits::{hmask, ones, valid_width};
use crate::intervals::{self, iv_mem, iv_wf, Interval};
use crate::model::{
    covers, in_range, lemma_covers_common, lemma_range_iteration, range_nth, truncate, valid_prefix, valid_range,
    PrefixModel, RangeModel,
};
use super::index::{
    block_start, index_of, last_index, lemma_block_start, lemma_block_step, lemma_block_within, lemma_index,
    lemma_last_low, lemma_low_sub, lemma_network, lemma_span_at, low_bits, network_at, span_at,
};
use super::super::prefix::Prefix;
use super::super::range::Range;

verus! {

/// The intervals of one length are canonical and name only prefixes of
/// that length.
pub open spec fn level_wf(w: u128, l: u8, s: Seq<Interval>) -> bool {
    &&& iv_wf(s)
    &&& forall|x: u128| #[trigger] iv_mem(s, x) ==> x <= last_index(w, l)
}

/// One canonical list of positions for each prefix length `0..=w`.
pub open spec fn levels_wf(w: u128, ls: Seq<Vec<Interval>>) -> bool {
    &&& valid_width(w)
    &&& ls.len() == w + 1
    &&& forall|l: int| 0 <= l <= w ==> level_wf(w, l as u8, #[trigger] ls[l]@)
}

/// The prefixes named by the positions held at their length.
pub open spec fn levels_view(w: u128, ls: Seq<Vec<Interval>>) -> Set<PrefixModel> {
    Set::new(
        |p: PrefixModel|
            valid_prefix(w, p) && iv_mem(ls[p.1 as int]@, index_of(w, p.0, p.1)),
    )
}

/// Every prefix of width `w`.
pub open spec fn all_prefixes(w: u128) -> Set<PrefixModel> {
    Set::new(|p: PrefixModel| valid_prefix(w, p))
}

/// The members of the prefix range `r`.
pub open spec fn range_members(w: u128, r: RangeModel) -> Set<PrefixModel> {
    Set::new(|p: PrefixModel| in_range(w, r, p))
}

/// A set of IP prefixes of address family `A`, with set-theoretic
/// arithmetic.
///
/// The prefixes of each length are held as a canonical list of intervals of
/// their positions in address order.
#[derive(Debug)]
pub struct PrefixSet<A: Afi> {
    levels: Vec<Vec<Interval>>,
    afi: PhantomData<A>,
}

impl<A: Afi> View for PrefixSet<A> {
    type V = Set<PrefixModel>;

    closed spec fn view(&self) -> Set<PrefixModel> {
        levels_view(width::<A>(), self.levels@)
    }
}

/// The all-ones value of the width of `A`.
pub fn all_ones<A: Afi>() -> (r: u128)
    ensures
        r == ones(width::<A>()),
{
    proof {
        A::lemma_afi();
    }
    match A::as_afi() {
        AfiEnum::Ipv4 => 0xffff_ffff,
        AfiEnum::Ipv6 => u128::MAX,
    }
}

/// The position of the network `n` among the prefixes of length `l`.
pub fn index_at<A: Afi>(n: u128, l: u8) -> (r: u128)
    requires
        l as u128 <= width::<A>(),
    ensures
        r == index_of(width::<A>(), n, l),
{
    proof {
        A::lemma_afi();
    }
    if l == 0 {
        0
    } else {
        let w = A::max_length();
        n >> ((w - l) as u32)
    }
}

/// The position of the last prefix of length `l`.
pub fn last_at<A: Afi>(l: u8) -> (r: u128)
    requires
        l as u128 <= width::<A>(),
    ensures
        r == last_index(width::<A>(), l),
{
    proof {
        A::lemma_afi();
    }
    if l == 0 {
        0
    } else {
        let w = A::max_length();
        all_ones::<A>() >> ((w - l) as u32)
    }
}

/// Two sets are equal when their lists agree on membership at every length.
pub proof fn lemma_view_ext(w: u128, a: Seq<Vec<Interval>>, b: Seq<Vec<Interval>>)
    requires
        a.len() == w + 1,
        b.len() == w + 1,
        forall|l: int, x: u128| 0 <= l <= w ==> #[trigger] iv_mem(a[l]@, x) == iv_mem(b[l]@, x),
    ensures
        levels_view(w, a) == levels_view(w, b),
{
    assert(levels_view(w, a) =~= levels_view(w, b)) by {
        assert forall|p: PrefixModel| levels_view(w, a).contains(p) == levels_view(w, b).contains(p) by {
            if valid_prefix(w, p) {
                assert(iv_mem(a[p.1 as int]@, index_of(w, p.0, p.1)) == iv_mem(
                    b[p.1 as int]@,
                    index_of(w, p.0, p.1),
                ));
            }
        }
    }
}

/// The prefixes of length `l` at positions `a ..= b`.
pub open spec fn block_members(w: u128, l: u8, a: u128, b: u128) -> Set<PrefixModel> {
    Set::new(|q: PrefixModel| valid_prefix(w, q) && q.1 == l && a <= index_of(w, q.0, q.1) <= b)
}

/// There are `b - a + 1` prefixes of length `l` at positions `a ..= b`.
proof fn lemma_block_members_len(w: u128, l: u8, a: u128, b: u128)
    requires
        valid_width(w),
        l as u128 <= w,
        a <= b <= last_index(w, l),
    ensures
        block_members(w, l, a, b).finite(),
        block_members(w, l, a, b).len() == b - a + 1,
{
    let x = vstd::set_lib::set_int_range(a as int, b + 1);
    let f = |i: int| (network_at(w, i as u128, l), l);
    let y = block_members(w, l, a, b);
    vstd::set_lib::lemma_int_range(a as int, b + 1);
    assert forall|i: int, j: int| x.contains(i) && x.contains(j) && #[trigger] f(i) == #[trigger] f(j) implies i == j by {
        lemma_network(w, i as u128, l);
        lemma_network(w, j as u128, l);
    }
    assert(vstd::relations::injective_on(f, x));
    assert forall|q: PrefixModel| #[trigger] y.contains(q) == x.map(f).contains(q) by {
        if y.contains(q) {
            lemma_index(w, q.0, q.1);
            let i = index_of(w, q.0, q.1) as int;
            assert(x.contains(i) && f(i) == q);
        }
        if x.map(f).contains(q) {
            let i = choose|i: int| x.contains(i) && f(i) == q;
            lemma_network(w, i as u128, l);
        }
    }
    assert(x.map(f) =~= y);
    vstd::set_lib::lemma_map_size(x, y, f);
}

/// The prefixes of width `w` shorter than `l` are finitely many.
proof fn lemma_shorter_finite(w: u128, l: int)
    requires
        valid_width(w),
        0 <= l <= w + 1,
    ensures
        Set::new(|q: PrefixModel| valid_prefix(w, q) && (q.1 as int) < l).finite(),
    decreases l,
{
    let u = Set::new(|q: PrefixModel| valid_prefix(w, q) && (q.1 as int) < l);
    if l == 0 {
        assert(u =~= Set::empty());
    } else {
        let m = (l - 1) as u8;
        lemma_shorter_finite(w, l - 1);
        let v = Set::new(|q: PrefixModel| valid_prefix(w, q) && (q.1 as int) < l - 1);
        let blk = block_members(w, m, 0, last_index(w, m));
        lemma_block_members_len(w, m, 0, last_index(w, m));
        assert forall|q: PrefixModel| #[trigger] u.contains(q) == v.union(blk).contains(q) by {
            if valid_prefix(w, q) && q.1 == m {
                lemma_index(w, q.0, q.1);
            }
        }
        assert(u =~= v.union(blk));
    }
}

/// Every set of prefixes of width `w` is finite.
pub proof fn lemma_prefixes_finite(w: u128, s: Set<PrefixModel>)
    requires
        valid_width(w),
        forall|q: PrefixModel| #[trigger] s.contains(q) ==> valid_prefix(w, q),
    ensures
        s.finite(),
{
    lemma_shorter_finite(w, w + 1);
    let u = Set::new(|q: PrefixModel| valid_prefix(w, q) && (q.1 as int) < w + 1);
    assert(s.subset_of(u));
    vstd::set_lib::lemma_len_subset(s, u);
}

impl<A: Afi> PrefixSet<A> {
    #[verifier::type_invariant]
    spec fn wf(self) -> bool {
        levels_wf(width::<A>(), self.levels@)
    }

    /// Construct a new, empty set.
    pub fn new() -> (r: Self)
        ensures
            r@ == Set::<PrefixModel>::empty(),
    {
        proof {
            A::lemma_afi();
        }
        let n = A::max_length() as usize + 1;
        let mut levels: Vec<Vec<Interval>> = Vec::new();
        let mut l: usize = 0;
        while l < n
            invariant
                n == width::<A>() + 1,
                l <= n,
                levels@.len() == l,
                forall|k: int| 0 <= k < l ==> (#[trigger] levels@[k])@ == Seq::<Interval>::empty(),
            decreases n - l,
        {
            levels.push(Vec::new());
            l = l + 1;
        }
        let r = PrefixSet { levels, afi: PhantomData };
        assert(r@ =~= Set::<PrefixModel>::empty());
        r
    }

    /// The set of every prefix of the address family.
    pub fn one() -> (r: Self)
        ensures
            r@ == all_prefixes(width::<A>()),
    {
        proof {
            A::lemma_afi();
        }
        let n = A::max_length() as usize + 1;
        let mut levels: Vec<Vec<Interval>> = Vec::new();
        let mut l: usize = 0;
        while l < n
            invariant
                n == width::<A>() + 1,
                valid_width(width::<A>()),
                l <= n,
                levels@.len() == l,
                forall|k: int| 0 <= k < l ==> (#[trigger] levels@[k])@ == seq![(0u128, last_index(width::<A>(), k as u8))],
            decreases n - l,
        {
            let top = last_at::<A>(l as u8);
            levels.push(vec![(0u128, top)]);
            l = l + 1;
        }
        let r = PrefixSet { levels, afi: PhantomData };
        proof {
            let w = width::<A>();
            assert forall|p: PrefixModel| r@.contains(p) == valid_prefix(w, p) by {
                if valid_prefix(w, p) {
                    lemma_index(w, p.0, p.1);
                    assert(levels@[p.1 as int]@[0] == (0u128, last_index(w, p.1)));
                }
            }
            assert(r@ =~= all_prefixes(w));
        }
        r
    }

    /// Remove every prefix from `self`.
    pub fn clear(&mut self)
        ensures
            final(self)@ == Set::<PrefixModel>::empty(),
    {
        *self = Self::new();
    }

    /// Returns [`true`] if `prefix` is a member of the set.
    pub fn contains(&self, prefix: Prefix<A>) -> (r: bool)
        ensures
            r == self@.contains(prefix@),
    {
        proof {
            use_type_invariant(self);
            use_type_invariant(&prefix);
        }
        let l = prefix.length().into_primitive();
        let k = index_at::<A>(prefix.network().value(), l);
        intervals::contains(&self.levels[l as usize], k)
    }

    /// The number of prefixes in the set, where it fits a `usize`.
    pub fn len(&self) -> (r: usize)
        requires
            self@.len() <= usize::MAX,
        ensures
            self@.finite(),
            r == self@.len(),
    {
        proof {
            use_type_invariant(self);
        }
        let ghost w = width::<A>();
        let ghost me = self@;
        proof {
            lemma_prefixes_finite(w, me);
            assert(Set::new(|q: PrefixModel| me.contains(q) && (q.1 as int) < 0) =~= Set::<PrefixModel>::empty());
        }
        let mut total: usize = 0;
        let n = self.levels.len();
        let mut l: usize = 0;
        while l < n
            invariant
                w == width::<A>(),
                me == self@,
                me.finite(),
                me.len() <= usize::MAX,
                levels_wf(w, self.levels@),
                n == self.levels@.len(),
                l <= n,
                Set::new(|q: PrefixModel| me.contains(q) && (q.1 as int) < l).finite(),
                total == Set::new(|q: PrefixModel| me.contains(q) && (q.1 as int) < l).len(),
            decreases n - l,
        {
            let level = &self.levels[l];
            let ghost s = level@;
            assert(level_wf(w, l as u8, s));
            proof {
                let outer = Set::new(|q: PrefixModel| me.contains(q) && (q.1 as int) < l);
                let inner = Set::new(
                    |q: PrefixModel|
                        me.contains(q) && ((q.1 as int) < l || (q.1 == l && iv_mem(
                            s.subrange(0, 0),
                            index_of(w, q.0, q.1),
                        ))),
                );
                assert(inner =~= outer);
            }
            let mut i: usize = 0;
            while i < level.len()
                invariant
                    w == width::<A>(),
                    me == self@,
                    me.finite(),
                    me.len() <= usize::MAX,
                    levels_wf(w, self.levels@),
                    n == self.levels@.len(),
                    l < n,
                    s == self.levels@[l as int]@,
                    level@ == s,
                    level_wf(w, l as u8, s),
                    i <= s.len(),
                    Set::new(
                        |q: PrefixModel|
                            me.contains(q) && ((q.1 as int) < l || (q.1 == l && iv_mem(
                                s.subrange(0, i as int),
                                index_of(w, q.0, q.1),
                            ))),
                    ).finite(),
                    total == Set::new(
                        |q: PrefixModel|
                            me.contains(q) && ((q.1 as int) < l || (q.1 == l && iv_mem(
                                s.subrange(0, i as int),
                                index_of(w, q.0, q.1),
                            ))),
                    ).len(),
                decreases s.len() - i,
            {
                let (a, b) = level[i];
                let ghost before = Set::new(
                    |q: PrefixModel|
                        me.contains(q) && ((q.1 as int) < l || (q.1 == l && iv_mem(
                            s.subrange(0, i as int),
                            index_of(w, q.0, q.1),
                        ))),
                );
                let ghost after = Set::new(
                    |q: PrefixModel|
                        me.contains(q) && ((q.1 as int) < l || (q.1 == l && iv_mem(
                            s.subrange(0, i + 1),
                            index_of(w, q.0, q.1),
                        ))),
                );
                let ghost blk = block_members(w, l as u8, a, b);
                proof {
                    assert(iv_mem(s, b)) by {
                        assert(s[i as int].0 <= b <= s[i as int].1);
                    }
                    lemma_block_members_len(w, l as u8, a, b);
                    assert forall|q: PrefixModel| #[trigger] after.contains(q) == before.union(blk).contains(q) by {
                        intervals::lemma_mem_extend(s, i as int, index_of(w, q.0, q.1));
                        if blk.contains(q) {
                            assert(s[i as int].0 <= index_of(w, q.0, q.1) <= s[i as int].1);
                        }
                    }
                    assert(after =~= before.union(blk));
                    assert forall|q: PrefixModel| before.contains(q) implies !blk.contains(q) by {
                        if q.1 == l && blk.contains(q) {
                            let x = index_of(w, q.0, q.1);
                            let j = choose|j: int|
                                0 <= j < s.subrange(0, i as int).len() && (#[trigger] s.subrange(
                                    0,
                                    i as int,
                                )[j]).0 <= x <= s.subrange(0, i as int)[j].1;
                            assert(s[j].1 + 1 < s[i as int].0);
                        }
                    }
                    assert(before.disjoint(blk));
                    vstd::set_lib::lemma_set_disjoint_lens(before, blk);
                    assert(after.subset_of(me));
                    vstd::set_lib::lemma_len_subset(after, me);
                }
                let d = b - a;
                total = total + (d as usize) + 1;
                i = i + 1;
            }
            proof {
                let lhs = Set::new(
                    |q: PrefixModel|
                        me.contains(q) && ((q.1 as int) < l || (q.1 == l && iv_mem(
                            s.subrange(0, s.len() as int),
                            index_of(w, q.0, q.1),
                        ))),
                );
                let rhs = Set::new(|q: PrefixModel| me.contains(q) && (q.1 as int) < l + 1);
                assert(s.subrange(0, s.len() as int) =~= s);
                assert(lhs =~= rhs);
            }
            l = l + 1;
        }
        proof {
            let all = Set::new(|q: PrefixModel| me.contains(q) && (q.1 as int) < l);
            assert forall|q: PrefixModel| #[trigger] all.contains(q) == me.contains(q) by {
                if me.contains(q) {
                    lemma_member_at(w, self.levels@, q);
                }
            }
            assert(all =~= me);
        }
        total
    }

    /// Returns [`true`] if the set holds no prefix.
    pub fn is_empty(&self) -> (r: bool)
        ensures
            r == (self@ == Set::<PrefixModel>::empty()),
    {
        proof {
            use_type_invariant(self);
        }
        let w = A::max_length() as usize;
        let mut l: usize = 0;
        while l <= w
            invariant
                w == width::<A>(),
                levels_wf(width::<A>(), self.levels@),
                l <= w + 1,
                forall|k: int| 0 <= k < l ==> (#[trigger] self.levels@[k])@.len() == 0,
            decreases w + 1 - l,
        {
            if self.levels[l].len() > 0 {
                proof {
                    let s = self.levels@[l as int]@;
                    let x = s[0].0;
                    assert(iv_mem(s, x));
                    super::index::lemma_network(width::<A>(), x, l as u8);
                    let n = super::index::network_at(width::<A>(), x, l as u8);
                    assert(self@.contains((n, l as u8)));
                }
                return false;
            }
            l = l + 1;
        }
        proof {
            assert(self@ =~= Set::<PrefixModel>::empty()) by {
                assert forall|p: PrefixModel| !self@.contains(p) by {
                    if valid_prefix(width::<A>(), p) {
                        assert(self.levels@[p.1 as int]@.len() == 0);
                    }
                }
            }
        }
        true
    }

    /// The lists of a set in which the members of `range` are added to
    /// (`add`) or taken from (`!add`) those of `self`.
    fn with_range(&self, range: Range<A>, add: bool) -> (r: Vec<Vec<Interval>>)
        ensures
            levels_wf(width::<A>(), r@),
            forall|k: int, x: u128|
                0 <= k <= width::<A>() ==> #[trigger] iv_mem(r@[k]@, x) == if add {
                    iv_mem(self.levels@[k]@, x) || (range@.1 <= k <= range@.2 && span_at(
                        width::<A>(),
                        range@.0,
                        k as u8,
                    ).0 <= x <= span_at(width::<A>(), range@.0, k as u8).1)
                } else {
                    iv_mem(self.levels@[k]@, x) && !(range@.1 <= k <= range@.2 && span_at(
                        width::<A>(),
                        range@.0,
                        k as u8,
                    ).0 <= x <= span_at(width::<A>(), range@.0, k as u8).1)
                },
    {
        proof {
            use_type_invariant(self);
            use_type_invariant(&range);
        }
        let ghost w = width::<A>();
        let p = range.prefix();
        proof {
            use_type_invariant(&p);
        }
        let net = p.network().value();
        let top = p.broadcast().value();
        let lo = range.lower().into_primitive();
        let hi = range.upper().into_primitive();
        let n = self.levels.len();
        let mut levels: Vec<Vec<Interval>> = Vec::new();
        let mut l: usize = 0;
        while l < n
            invariant
                w == width::<A>(),
                levels_wf(w, self.levels@),
                n == self.levels@.len(),
                l <= n,
                levels@.len() == l,
                valid_range(w, range@),
                p@ == range@.0,
                net == p@.0,
                top == p@.0 | hmask(w, p@.1 as u128),
                lo == range@.1,
                hi == range@.2,
                forall|k: int| 0 <= k < l ==> level_wf(w, k as u8, #[trigger] levels@[k]@),
                forall|k: int, x: u128|
                    0 <= k < l ==> #[trigger] iv_mem(levels@[k]@, x) == if add {
                        iv_mem(self.levels@[k]@, x) || (lo <= k <= hi && span_at(w, p@, k as u8).0
                            <= x <= span_at(w, p@, k as u8).1)
                    } else {
                        iv_mem(self.levels@[k]@, x) && !(lo <= k <= hi && span_at(w, p@, k as u8).0
                            <= x <= span_at(w, p@, k as u8).1)
                    },
            decreases n - l,
        {
            let ghost old_level = self.levels@[l as int]@;
            assert(level_wf(w, l as u8, old_level));
            let level = if lo as usize <= l && l <= hi as usize {
                let a = index_at::<A>(net, l as u8);
                let b = index_at::<A>(top, l as u8);
                proof {
                    crate::model::lemma_truncate_covered(w, p@, l as u8);
                    lemma_span_at(w, p@, p@.0 & crate::bits::nmask(w, l as u128), l as u8);
                }
                if add {
                    intervals::insert_interval(&self.levels[l], a, b)
                } else {
                    intervals::remove_interval(&self.levels[l], a, b)
                }
            } else {
                intervals::copy_list(&self.levels[l])
            };
            levels.push(level);
            l = l + 1;
        }
        levels
    }

    /// Insert every member of `range` into `self`.
    pub fn insert_range(&mut self, range: Range<A>)
        ensures
            final(self)@ == old(self)@.union(range_members(width::<A>(), range@)),
    {
        proof {
            use_type_invariant(&*self);
            use_type_invariant(&range);
        }
        let levels = self.with_range(range, true);
        let ghost w = width::<A>();
        let ghost before = self.levels@;
        self.levels = levels;
        proof {
            assert(self@ =~= old(self)@.union(range_members(w, range@))) by {
                assert forall|q: PrefixModel|
                    self@.contains(q) == (old(self)@.contains(q) || range_members(w, range@).contains(q)) by {
                    if valid_prefix(w, q) && range@.0.1 <= q.1 {
                        lemma_span_at(w, range@.0, q.0, q.1);
                        assert(iv_mem(levels@[q.1 as int]@, index_of(w, q.0, q.1)) == (iv_mem(
                            before[q.1 as int]@,
                            index_of(w, q.0, q.1),
                        ) || (range@.1 <= q.1 <= range@.2 && span_at(w, range@.0, q.1).0 <= index_of(w, q.0, q.1)
                            <= span_at(w, range@.0, q.1).1)));
                    }
                }
            }
        }
    }

    /// Remove every member of `range` from `self`.
    pub fn remove_range(&mut self, range: Range<A>)
        ensures
            final(self)@ == old(self)@.difference(range_members(width::<A>(), range@)),
    {
        proof {
            use_type_invariant(&*self);
            use_type_invariant(&range);
        }
        let levels = self.with_range(range, false);
        let ghost w = width::<A>();
        let ghost before = self.levels@;
        self.levels = levels;
        proof {
            assert(self@ =~= old(self)@.difference(range_members(w, range@))) by {
                assert forall|q: PrefixModel|
                    self@.contains(q) == (old(self)@.contains(q) && !range_members(w, range@).contains(q)) by {
                    if valid_prefix(w, q) && range@.0.1 <= q.1 {
                        lemma_span_at(w, range@.0, q.0, q.1);
                        assert(iv_mem(levels@[q.1 as int]@, index_of(w, q.0, q.1)) == (iv_mem(
                            before[q.1 as int]@,
                            index_of(w, q.0, q.1),
                        ) && !(range@.1 <= q.1 <= range@.2 && span_at(w, range@.0, q.1).0 <= index_of(w, q.0, q.1)
                            <= span_at(w, range@.0, q.1).1)));
                    }
                }
            }
        }
    }

    /// Insert `item` (a prefix or a prefix range) into `self`, and return
    /// `self` for chaining.
    pub fn insert<T: SetItem<A>>(&mut self, item: T) -> (r: &mut Self)
        ensures
            (*r)@ == old(self)@.union(range_members(width::<A>(), item.item_range())),
            *final(self) == *final(r),
    {
        self.insert_range(item.to_range());
        self
    }

    /// Remove `item` (a prefix or a prefix range) from `self`, and return
    /// `self` for chaining.
    pub fn remove<T: SetItem<A>>(&mut self, item: T) -> (r: &mut Self)
        ensures
            (*r)@ == old(self)@.difference(range_members(width::<A>(), item.item_range())),
            *final(self) == *final(r),
    {
        self.remove_range(item.to_range());
        self
    }

    /// Insert each of `items` into `self`, and return `self` for chaining.
    pub fn insert_from<T: SetItem<A>>(&mut self, items: Vec<T>) -> (r: &mut Self)
        ensures
            (*r)@ == old(self)@.union(items_members(width::<A>(), items@)),
            *final(self) == *final(r),
    {
        let mut i: usize = 0;
        while i < items.len()
            invariant
                i <= items@.len(),
                self@ == old(self)@.union(items_members(width::<A>(), items@.subrange(0, i as int))),
            decreases items@.len() - i,
        {
            let r = items[i].to_range();
            self.insert_range(r);
            proof {
                lemma_items_members_extend(width::<A>(), items@, i as int);
                assert(self@ =~= old(self)@.union(items_members(width::<A>(), items@.subrange(0, i + 1))));
            }
            i = i + 1;
        }
        proof {
            assert(items@.subrange(0, items@.len() as int) =~= items@);
        }
        self
    }

    /// Remove each of `items` from `self`, and return `self` for chaining.
    pub fn remove_from<T: SetItem<A>>(&mut self, items: Vec<T>) -> (r: &mut Self)
        ensures
            (*r)@ == old(self)@.difference(items_members(width::<A>(), items@)),
            *final(self) == *final(r),
    {
        let mut i: usize = 0;
        while i < items.len()
            invariant
                i <= items@.len(),
                self@ == old(self)@.difference(items_members(width::<A>(), items@.subrange(0, i as int))),
            decreases items@.len() - i,
        {
            let r = items[i].to_range();
            self.remove_range(r);
            proof {
                lemma_items_members_extend(width::<A>(), items@, i as int);
                assert(self@ =~= old(self)@.difference(items_members(width::<A>(), items@.subrange(0, i + 1))));
            }
            i = i + 1;
        }
        proof {
            assert(items@.subrange(0, items@.len() as int) =~= items@);
        }
        self
    }

    /// The lists of the members of `self` and `other` combined by `op`.
    fn combine(&self, other: &Self, op: Combine) -> (r: Vec<Vec<Interval>>)
        ensures
            levels_wf(width::<A>(), r@),
            forall|k: int, x: u128|
                0 <= k <= width::<A>() ==> #[trigger] iv_mem(r@[k]@, x) == match op {
                    Combine::Union => iv_mem(self.levels@[k]@, x) || iv_mem(other.levels@[k]@, x),
                    Combine::Intersection => iv_mem(self.levels@[k]@, x) && iv_mem(other.levels@[k]@, x),
                    Combine::Difference => iv_mem(self.levels@[k]@, x) && !iv_mem(other.levels@[k]@, x),
                },
    {
        proof {
            use_type_invariant(self);
            use_type_invariant(other);
        }
        let ghost w = width::<A>();
        let n = self.levels.len();
        let mut levels: Vec<Vec<Interval>> = Vec::new();
        let mut l: usize = 0;
        while l < n
            invariant
                w == width::<A>(),
                levels_wf(w, self.levels@),
                levels_wf(w, other.levels@),
                n == self.levels@.len(),
                l <= n,
                levels@.len() == l,
                forall|k: int| 0 <= k < l ==> level_wf(w, k as u8, #[trigger] levels@[k]@),
                forall|k: int, x: u128|
                    0 <= k < l ==> #[trigger] iv_mem(levels@[k]@, x) == match op {
                        Combine::Union => iv_mem(self.levels@[k]@, x) || iv_mem(other.levels@[k]@, x),
                        Combine::Intersection => iv_mem(self.levels@[k]@, x) && iv_mem(
                            other.levels@[k]@,
                            x,
                        ),
                        Combine::Difference => iv_mem(self.levels@[k]@, x) && !iv_mem(
                            other.levels@[k]@,
                            x,
                        ),
                    },
            decreases n - l,
        {
            assert(level_wf(w, l as u8, self.levels@[l as int]@));
            assert(level_wf(w, l as u8, other.levels@[l as int]@));
            let level = match op {
                Combine::Union => intervals::union(&self.levels[l], &other.levels[l]),
                Combine::Intersection => intervals::intersection(&self.levels[l], &other.levels[l]),
                Combine::Difference => intervals::difference(&self.levels[l], &other.levels[l]),
            };
            levels.push(level);
            l = l + 1;
        }
        levels
    }

    /// The prefixes in `self` or in `other`.
    pub fn union(&self, other: &Self) -> (r: Self)
        ensures
            r@ == self@.union(other@),
    {
        let levels = self.combine(other, Combine::Union);
        let r = PrefixSet { levels, afi: PhantomData };
        assert(r@ =~= self@.union(other@));
        r
    }

    /// The prefixes in both `self` and `other`.
    pub fn intersection(&self, other: &Self) -> (r: Self)
        ensures
            r@ == self@.intersect(other@),
    {
        let levels = self.combine(other, Combine::Intersection);
        let r = PrefixSet { levels, afi: PhantomData };
        assert(r@ =~= self@.intersect(other@));
        r
    }

    /// The prefixes in `self` but not in `other`.
    pub fn difference(&self, other: &Self) -> (r: Self)
        ensures
            r@ == self@.difference(other@),
    {
        let levels = self.combine(other, Combine::Difference);
        let r = PrefixSet { levels, afi: PhantomData };
        assert(r@ =~= self@.difference(other@));
        r
    }

    /// The prefixes in exactly one of `self` and `other`.
    pub fn symmetric_difference(&self, other: &Self) -> (r: Self)
        ensures
            r@ == self@.union(other@).difference(self@.intersect(other@)),
    {
        self.union(other).difference(&self.intersection(other))
    }

    /// The prefixes of the address family not in `self`.
    pub fn complement(&self) -> (r: Self)
        ensures
            r@ == all_prefixes(width::<A>()).difference(self@),
    {
        Self::one().difference(self)
    }

    /// A copy of `self`.
    pub fn copy(&self) -> (r: Self)
        ensures
            r@ == self@,
    {
        proof {
            use_type_invariant(self);
        }
        let levels = self.copy_levels();
        proof {
            assert forall|k: int| 0 <= k <= width::<A>() implies level_wf(width::<A>(), k as u8, #[trigger] levels@[k]@) by {
                assert(level_wf(width::<A>(), k as u8, self.levels@[k]@));
            }
        }
        let r = PrefixSet { levels, afi: PhantomData };
        proof {
            lemma_view_ext(width::<A>(), r.levels@, self.levels@);
        }
        r
    }

    /// Returns [`true`] if `self` and `other` hold the same prefixes.
    pub fn equals(&self, other: &Self) -> (r: bool)
        ensures
            r == (self@ == other@),
    {
        proof {
            use_type_invariant(self);
            use_type_invariant(other);
        }
        let ghost w = width::<A>();
        let n = self.levels.len();
        let mut l: usize = 0;
        while l < n
            invariant
                w == width::<A>(),
                levels_wf(w, self.levels@),
                levels_wf(w, other.levels@),
                n == self.levels@.len(),
                l <= n,
                forall|k: int| 0 <= k < l ==> (#[trigger] self.levels@[k])@ == other.levels@[k]@,
            decreases n - l,
        {
            if !intervals::equal(&self.levels[l], &other.levels[l]) {
                proof {
                    if self@ == other@ {
                        lemma_level_determined(w, self.levels@, other.levels@, l as int);
                    }
                }
                return false;
            }
            l = l + 1;
        }
        proof {
            lemma_view_ext(w, self.levels@, other.levels@);
        }
        true
    }

    /// Returns [`true`] if every prefix of `self` is in `other`.
    pub fn is_subset(&self, other: &Self) -> (r: bool)
        ensures
            r == self@.subset_of(other@),
    {
        let d = self.difference(other);
        let r = d.is_empty();
        proof {
            if r {
                assert forall|p: PrefixModel| self@.contains(p) implies other@.contains(p) by {
                    assert(!d@.contains(p));
                }
            } else if self@.subset_of(other@) {
                assert(d@ =~= Set::<PrefixModel>::empty());
            }
        }
        r
    }
}

/// How [`PrefixSet::combine`] combines two sets.
enum Combine {
    Union,
    Intersection,
    Difference,
}

/// The lists at each length of two sets with equal members are equal.
proof fn lemma_level_determined(w: u128, a: Seq<Vec<Interval>>, b: Seq<Vec<Interval>>, l: int)
    requires
        levels_wf(w, a),
        levels_wf(w, b),
        levels_view(w, a) == levels_view(w, b),
        0 <= l <= w,
    ensures
        a[l]@ == b[l]@,
{
    assert(level_wf(w, l as u8, a[l]@));
    assert(level_wf(w, l as u8, b[l]@));
    assert((l as u8) as int == l);
    assert forall|x: u128| iv_mem(a[l]@, x) == iv_mem(b[l]@, x) by {
        if x <= last_index(w, l as u8) {
            super::index::lemma_network(w, x, l as u8);
            let n = super::index::network_at(w, x, l as u8);
            let q = (n, l as u8);
            assert(valid_prefix(w, q));
            assert(index_of(w, q.0, q.1) == x);
            assert(levels_view(w, a).contains(q) == iv_mem(a[l]@, x));
            assert(levels_view(w, b).contains(q) == iv_mem(b[l]@, x));
        } else {
            assert(!iv_mem(a[l]@, x));
            assert(!iv_mem(b[l]@, x));
        }
    }
    intervals::lemma_canonical(a[l]@, b[l]@);
}

/// The members of the range of a single prefix are that prefix alone. So
/// inserting a prefix into a set adds that prefix and no other, after which
/// the set contains it; removing it takes away that prefix and no other,
/// after which the set does not contain it.
pub proof fn lemma_prefix_item<A: Afi>(s: Set<PrefixModel>, p: Prefix<A>, q: PrefixModel)
    requires
        valid_prefix(width::<A>(), p@),
    ensures
        range_members(width::<A>(), p.item_range()) == set![p@],
        s.union(range_members(width::<A>(), p.item_range())).contains(p@),
        !s.difference(range_members(width::<A>(), p.item_range())).contains(p@),
        q != p@ ==> (s.union(range_members(width::<A>(), p.item_range())).contains(q) == s.contains(q)),
        q != p@ ==> (s.difference(range_members(width::<A>(), p.item_range())).contains(q)
            == s.contains(q)),
{
    let w = width::<A>();
    A::lemma_afi();
    crate::model::lemma_covers_refl(w, p@);
    assert forall|x: PrefixModel| #[trigger] in_range(w, p.item_range(), x) implies x == p@ by {
        crate::bits::lemma_network_fixed(w, x.1 as u128, x.0);
    }
    assert(range_members(w, p.item_range()) =~= set![p@]);
}

/// The members of a prefix range are the prefixes that its iteration
/// yields. So inserting a range into a set adds exactly the prefixes that
/// iterating the range yields, and removing it takes away exactly those.
pub proof fn lemma_range_item<A: Afi>(s: Set<PrefixModel>, r: Range<A>, q: PrefixModel)
    requires
        valid_range(width::<A>(), r@),
    ensures
        range_members(width::<A>(), r.item_range()).contains(q) == exists|k: nat|
            range_nth(width::<A>(), r@, k) == Some(q),
        s.union(range_members(width::<A>(), r.item_range())).contains(q) == (s.contains(q) || exists|k: nat|
            range_nth(width::<A>(), r@, k) == Some(q)),
        s.difference(range_members(width::<A>(), r.item_range())).contains(q) == (s.contains(q) && !exists|
            k: nat,
        | range_nth(width::<A>(), r@, k) == Some(q)),
{
    A::lemma_afi();
    lemma_range_iteration(width::<A>(), r@, q);
}

/// Something that can be inserted into or removed from a [`PrefixSet`]:
/// a prefix or a prefix range.
pub trait SetItem<A: Afi> {
    /// The prefix range of the members of the item.
    spec fn item_range(&self) -> RangeModel;

    /// The item as a prefix range.
    fn to_range(&self) -> (r: Range<A>)
        ensures
            r@ == self.item_range(),
    ;
}

impl<A: Afi> SetItem<A> for Prefix<A> {
    open spec fn item_range(&self) -> RangeModel {
        (self@, self@.1, self@.1)
    }

    fn to_range(&self) -> (r: Range<A>) {
        Range::from_prefix(*self)
    }
}

impl<A: Afi> SetItem<A> for Range<A> {
    open spec fn item_range(&self) -> RangeModel {
        self@
    }

    fn to_range(&self) -> (r: Range<A>) {
        *self
    }
}

/// The members of any of the items `s`.
pub open spec fn items_members<A: Afi, T: SetItem<A>>(w: u128, s: Seq<T>) -> Set<PrefixModel> {
    Set::new(|p: PrefixModel| exists|i: int| 0 <= i < s.len() && in_range(w, #[trigger] s[i].item_range(), p))
}

proof fn lemma_items_members_extend<A: Afi, T: SetItem<A>>(w: u128, s: Seq<T>, i: int)
    requires
        0 <= i < s.len(),
    ensures
        items_members::<A, T>(w, s.subrange(0, i + 1)) == items_members::<A, T>(w, s.subrange(0, i)).union(
            range_members(w, s[i].item_range()),
        ),
{
    let a = items_members::<A, T>(w, s.subrange(0, i + 1));
    let b = items_members::<A, T>(w, s.subrange(0, i)).union(range_members(w, s[i].item_range()));
    assert forall|p: PrefixModel| a.contains(p) == b.contains(p) by {
        if a.contains(p) {
            let j = choose|j: int| 0 <= j < i + 1 && in_range(w, #[trigger] s.subrange(0, i + 1)[j].item_range(), p);
            if j < i {
                assert(s.subrange(0, i)[j] == s.subrange(0, i + 1)[j]);
            }
        }
        if items_members::<A, T>(w, s.subrange(0, i)).contains(p) {
            let j = choose|j: int| 0 <= j < i && in_range(w, #[trigger] s.subrange(0, i)[j].item_range(), p);
            assert(s.subrange(0, i)[j] == s.subrange(0, i + 1)[j]);
        }
        if range_members(w, s[i].item_range()).contains(p) {
            assert(s.subrange(0, i + 1)[i] == s[i]);
        }
    }
    assert(a =~= b);
}

/// `p` comes before `q` in the order of iteration: by length, then by
/// network address.
pub open spec fn prefix_lt(p: PrefixModel, q: PrefixModel) -> bool {
    p.1 < q.1 || (p.1 == q.1 && p.0 < q.0)
}

/// `q` comes after `last`, where `None` stands before every prefix.
pub open spec fn comes_after(last: Option<PrefixModel>, q: PrefixModel) -> bool {
    match last {
        None => true,
        Some(p) => prefix_lt(p, q),
    }
}

/// `p` is the first member of `s` after `last`.
pub open spec fn is_next_member(s: Set<PrefixModel>, last: Option<PrefixModel>, p: PrefixModel) -> bool {
    &&& s.contains(p)
    &&& comes_after(last, p)
    &&& forall|q: PrefixModel| #[trigger] s.contains(q) && comes_after(last, q) ==> !prefix_lt(q, p)
}

/// No member of `s` comes after `last`.
pub open spec fn none_after(s: Set<PrefixModel>, last: Option<PrefixModel>) -> bool {
    forall|q: PrefixModel| #[trigger] s.contains(q) ==> !comes_after(last, q)
}

/// A member beyond interval `i` of a canonical list lies in a later
/// interval.
proof fn lemma_iv_beyond(s: Seq<Interval>, i: int, x: u128)
    requires
        iv_wf(s),
        0 <= i < s.len(),
        iv_mem(s, x),
        x > s[i].1,
    ensures
        i + 1 < s.len(),
        x >= s[i + 1].0,
{
    let j = choose|j: int| 0 <= j < s.len() && (#[trigger] s[j]).0 <= x <= s[j].1;
    if j <= i {
        if j < i {
            assert(s[j].1 + 1 < s[i].0);
        }
        assert(false);
    }
    if j > i + 1 {
        assert(s[i + 1].1 + 1 < s[j].0);
    }
}

/// No member of a canonical list lies before its first interval.
proof fn lemma_iv_first(s: Seq<Interval>, x: u128)
    requires
        iv_wf(s),
        iv_mem(s, x),
    ensures
        s.len() > 0,
        x >= s[0].0,
{
    let j = choose|j: int| 0 <= j < s.len() && (#[trigger] s[j]).0 <= x <= s[j].1;
    if j > 0 {
        assert(s[0].1 + 1 < s[j].0);
    }
}

/// The members of a set of lists at length `l` are the prefixes named by
/// the positions held there.
proof fn lemma_member_at(w: u128, ls: Seq<Vec<Interval>>, q: PrefixModel)
    requires
        levels_wf(w, ls),
        levels_view(w, ls).contains(q),
    ensures
        valid_prefix(w, q),
        iv_mem(ls[q.1 as int]@, index_of(w, q.0, q.1)),
        network_at_index(w, q),
{
    lemma_index(w, q.0, q.1);
}

/// A prefix is the network at its own position.
pub open spec fn network_at_index(w: u128, q: PrefixModel) -> bool {
    super::index::network_at(w, index_of(w, q.0, q.1), q.1) == q.0
}

/// The prefix at position `k` of length `l`.
pub open spec fn prefix_at(w: u128, k: u128, l: u8) -> PrefixModel {
    (super::index::network_at(w, k, l), l)
}

/// An iterator over the prefixes of a [`PrefixSet`], by length and then by
/// network address.
pub struct Prefixes<A: Afi> {
    levels: Vec<Vec<Interval>>,
    level: usize,
    pos: usize,
    next: u128,
    done: bool,
    last: Ghost<Option<PrefixModel>>,
    afi: PhantomData<A>,
}

impl<A: Afi> Prefixes<A> {
    /// The prefixes iterated over.
    pub closed spec fn members(&self) -> Set<PrefixModel> {
        levels_view(width::<A>(), self.levels@)
    }

    /// The prefix returned last, if any.
    pub closed spec fn last(&self) -> Option<PrefixModel> {
        self.last@
    }

    /// The iterator stands at the first member after the prefix returned
    /// last, or knows that there is none.
    pub closed spec fn wf(&self) -> bool {
        let w = width::<A>();
        let ls = self.levels@;
        &&& levels_wf(w, ls)
        &&& !self.done ==> {
            &&& self.level <= w
            &&& self.pos < ls[self.level as int]@.len()
            &&& ls[self.level as int]@[self.pos as int].0 <= self.next <= ls[self.level as int]@[self.pos as int].1
            &&& is_next_member(levels_view(w, ls), self.last@, prefix_at(w, self.next, self.level as u8))
        }
        &&& self.done ==> none_after(levels_view(w, ls), self.last@)
    }

    /// Move to the first member of length `from` or longer.
    fn seek(&mut self, from: usize)
        requires
            levels_wf(width::<A>(), old(self).levels@),
            from <= width::<A>() + 1,
            forall|q: PrefixModel|
                #[trigger] levels_view(width::<A>(), old(self).levels@).contains(q) && comes_after(
                    old(self).last@,
                    q,
                ) ==> q.1 >= from,
            forall|q: PrefixModel|
                #[trigger] levels_view(width::<A>(), old(self).levels@).contains(q) && q.1 >= from
                    ==> comes_after(old(self).last@, q),
        ensures
            final(self).levels@ == old(self).levels@,
            final(self).last@ == old(self).last@,
            final(self).wf(),
    {
        let ghost w = width::<A>();
        let n = self.levels.len();
        let mut l = from;
        while l < n && self.levels[l].len() == 0
            invariant
                w == width::<A>(),
                levels_wf(w, self.levels@),
                n == self.levels@.len(),
                from <= l <= n,
                forall|k: int| from <= k < l ==> (#[trigger] self.levels@[k])@.len() == 0,
            decreases n - l,
        {
            l = l + 1;
        }
        let ghost ls = self.levels@;
        let ghost view = levels_view(w, ls);
        let ghost last = self.last@;
        if l == n {
            proof {
                assert forall|q: PrefixModel| #[trigger] view.contains(q) implies !comes_after(last, q) by {
                    if comes_after(last, q) {
                        lemma_member_at(w, ls, q);
                        assert(ls[q.1 as int]@.len() == 0);
                    }
                }
            }
            self.done = true;
        } else {
            let k = self.levels[l][0].0;
            proof {
                let s = ls[l as int]@;
                assert(level_wf(w, l as u8, s));
                assert(iv_mem(s, k));
                super::index::lemma_network(w, k, l as u8);
                let c = prefix_at(w, k, l as u8);
                assert(view.contains(c));
                assert forall|q: PrefixModel| #[trigger] view.contains(q) && comes_after(last, q) implies !prefix_lt(q, c) by {
                    lemma_member_at(w, ls, q);
                    if q.1 == l {
                        lemma_iv_first(s, index_of(w, q.0, q.1));
                        super::index::lemma_index_order(w, c.0, q.0, l as u8);
                    } else if q.1 < l {
                        assert(ls[q.1 as int]@.len() == 0);
                    }
                }
            }
            self.level = l;
            self.pos = 0;
            self.next = k;
            self.done = false;
        }
    }

    /// The next prefix: the first member after the one returned last, or
    /// [`None`] if there is none.
    pub fn next(&mut self) -> (r: Option<Prefix<A>>)
        requires
            old(self).wf(),
        ensures
            final(self).wf(),
            final(self).members() == old(self).members(),
            match r {
                Some(p) => is_next_member(old(self).members(), old(self).last(), p@)
                    && final(self).last() == Some(p@),
                None => none_after(old(self).members(), old(self).last()) && final(self).last()
                    == old(self).last(),
            },
    {
        proof {
            A::lemma_afi();
        }
        if self.done {
            return None;
        }
        let ghost w = width::<A>();
        let l = self.level;
        let k = self.next;
        let pos = self.pos;
        let ghost c = prefix_at(w, k, l as u8);
        let ghost ls = self.levels@;
        let ghost view = levels_view(w, ls);
        let ghost sv = ls[l as int]@;
        proof {
            assert(level_wf(w, l as u8, sv));
            assert(iv_mem(sv, k));
            super::index::lemma_network(w, k, l as u8);
        }
        let net = if l == 0 {
            0
        } else {
            k << ((A::max_length() - l as u8) as u32)
        };
        let prefix = Prefix::from_parts(net, l as u8);
        let len = self.levels[l].len();
        assert(pos < len);
        let b = self.levels[l][pos].1;
        proof {
            assert(iv_mem(sv, b)) by {
                assert(sv[pos as int].0 <= b <= sv[pos as int].1);
            }
        }
        if k < b {
            proof {
                super::index::lemma_network(w, (k + 1) as u128, l as u8);
                let c2 = prefix_at(w, (k + 1) as u128, l as u8);
                super::index::lemma_index_order(w, c.0, c2.0, l as u8);
                assert(iv_mem(sv, (k + 1) as u128)) by {
                    assert(sv[pos as int].0 <= k + 1 <= sv[pos as int].1);
                }
                assert forall|q: PrefixModel| #[trigger] view.contains(q) && comes_after(Some(c), q) implies !prefix_lt(q, c2) by {
                    lemma_member_at(w, ls, q);
                    if q.1 == l {
                        super::index::lemma_index_order(w, c.0, q.0, l as u8);
                        super::index::lemma_index_order(w, c2.0, q.0, l as u8);
                    }
                }
            }
            self.next = k + 1;
        } else if pos < len - 1 {
            let k2 = self.levels[l][pos + 1].0;
            proof {
                assert(sv[pos as int].1 + 1 < sv[pos + 1].0);
                assert(iv_mem(sv, k2)) by {
                    assert(sv[pos + 1].0 <= sv[pos + 1].1);
                }
                super::index::lemma_network(w, k2, l as u8);
                let c2 = prefix_at(w, k2, l as u8);
                super::index::lemma_index_order(w, c.0, c2.0, l as u8);
                assert forall|q: PrefixModel| #[trigger] view.contains(q) && comes_after(Some(c), q) implies !prefix_lt(q, c2) by {
                    lemma_member_at(w, ls, q);
                    if q.1 == l {
                        super::index::lemma_index_order(w, c.0, q.0, l as u8);
                        super::index::lemma_index_order(w, c2.0, q.0, l as u8);
                        let x = index_of(w, q.0, q.1);
                        if x > k {
                            lemma_iv_beyond(sv, pos as int, x);
                        }
                    }
                }
            }
            self.pos = pos + 1;
            self.next = k2;
        } else {
            proof {
                assert forall|q: PrefixModel| #[trigger] view.contains(q) && comes_after(Some(c), q) implies q.1 >= l + 1 by {
                    lemma_member_at(w, ls, q);
                    if q.1 == l {
                        super::index::lemma_index_order(w, c.0, q.0, l as u8);
                        let x = index_of(w, q.0, q.1);
                        lemma_iv_beyond(sv, pos as int, x);
                    }
                }
            }
            self.last = Ghost(Some(c));
            self.seek(l + 1);
        }
        self.last = Ghost(Some(c));
        Some(prefix)
    }
}

impl<A: Afi> PrefixSet<A> {
    /// A copy of the lists of `self`.
    fn copy_levels(&self) -> (r: Vec<Vec<Interval>>)
        ensures
            r@.len() == self.levels@.len(),
            forall|k: int| 0 <= k < r@.len() ==> (#[trigger] r@[k])@ == self.levels@[k]@,
    {
        let n = self.levels.len();
        let mut levels: Vec<Vec<Interval>> = Vec::new();
        let mut l: usize = 0;
        while l < n
            invariant
                n == self.levels@.len(),
                l <= n,
                levels@.len() == l,
                forall|k: int| 0 <= k < l ==> (#[trigger] levels@[k])@ == self.levels@[k]@,
            decreases n - l,
        {
            levels.push(intervals::copy_list(&self.levels[l]));
            l = l + 1;
        }
        levels
    }

    /// An iterator over the prefixes of the set, by length and then by
    /// network address.
    pub fn prefixes(&self) -> (r: Prefixes<A>)
        ensures
            r.wf(),
            r.members() == self@,
            r.last() is None,
    {
        proof {
            use_type_invariant(self);
        }
        let levels = self.copy_levels();
        proof {
            lemma_view_ext(width::<A>(), levels@, self.levels@);
            assert forall|k: int| 0 <= k <= width::<A>() implies level_wf(width::<A>(), k as u8, #[trigger] levels@[k]@) by {
                assert(level_wf(width::<A>(), k as u8, self.levels@[k]@));
            }
        }
        let mut r = Prefixes { levels, level: 0, pos: 0, next: 0, done: true, last: Ghost(None), afi: PhantomData };
        r.seek(0);
        r
    }
}

/// The members of any of the ranges `rs`.
pub open spec fn ranges_members(w: u128, rs: Seq<RangeModel>) -> Set<PrefixModel> {
    Set::new(|q: PrefixModel| exists|i: int| 0 <= i < rs.len() && in_range(w, #[trigger] rs[i], q))
}

/// The abstract values of a sequence of ranges.
pub open spec fn range_views<A: Afi>(rs: Seq<Range<A>>) -> Seq<RangeModel> {
    rs.map_values(|r: Range<A>| r@)
}

/// The mask of the `j` low bits.
fn low_mask(j: u128) -> (r: u128)
    requires
        j <= 128,
    ensures
        r == super::index::low_bits(j),
{
    if j >= 128 {
        u128::MAX
    } else {
        let t = j as u32;
        assert(1u128 << t >= 1) by (bit_vector)
            requires
                t < 128,
        ;
        (1u128 << t) - 1
    }
}

proof fn lemma_ranges_push<A: Afi>(w: u128, rs: Seq<Range<A>>, r: Range<A>)
    ensures
        ranges_members(w, range_views(rs.push(r))) == ranges_members(w, range_views(rs)).union(
            range_members(w, r@),
        ),
{
    let a = ranges_members(w, range_views(rs.push(r)));
    let b = ranges_members(w, range_views(rs)).union(range_members(w, r@));
    assert forall|q: PrefixModel| a.contains(q) == b.contains(q) by {
        if a.contains(q) {
            let i = choose|i: int| 0 <= i < rs.len() + 1 && in_range(w, #[trigger] range_views(rs.push(r))[i], q);
            if i < rs.len() {
                assert(range_views(rs)[i] == range_views(rs.push(r))[i]);
            }
        }
        if ranges_members(w, range_views(rs)).contains(q) {
            let i = choose|i: int| 0 <= i < rs.len() && in_range(w, #[trigger] range_views(rs)[i], q);
            assert(range_views(rs)[i] == range_views(rs.push(r))[i]);
        }
        if range_members(w, r@).contains(q) {
            assert(range_views(rs.push(r))[rs.len() as int] == r@);
        }
    }
    assert(a =~= b);
}

/// Every prefix of length `l` covered by `p` is in `s`.
pub open spec fn full_at(w: u128, s: Set<PrefixModel>, p: PrefixModel, l: u8) -> bool {
    &&& p.1 <= l
    &&& l as u128 <= w
    &&& forall|q: PrefixModel|
        #![trigger covers(w, p, q)]
        valid_prefix(w, q) && q.1 == l && covers(w, p, q) ==> s.contains(q)
}

/// `p` is a largest block of members of `s` of length `l`: every prefix of
/// length `l` that `p` covers is in `s`, and this fails for the prefix one
/// bit shorter than `p` that covers it.
pub open spec fn largest_full(w: u128, s: Set<PrefixModel>, p: PrefixModel, l: u8) -> bool {
    &&& valid_prefix(w, p)
    &&& full_at(w, s, p, l)
    &&& p.1 > 0 ==> !full_at(w, s, truncate(w, p.0, (p.1 - 1) as u8), l)
}

/// `rs` is the aggregation of the prefixes of `s` into ranges: at each of
/// its lengths, the covering prefix of a range is a largest block of
/// members of `s`, and two ranges of one covering prefix have lengths that
/// neither overlap nor follow each other, so that no two ranges could be
/// joined into one.
pub open spec fn aggregated(w: u128, s: Set<PrefixModel>, rs: Seq<RangeModel>) -> bool {
    &&& forall|i: int| 0 <= i < rs.len() ==> valid_range(w, #[trigger] rs[i])
    &&& forall|i: int, l: u8|
        0 <= i < rs.len() && rs[i].1 <= l <= rs[i].2 ==> #[trigger] largest_full(w, s, rs[i].0, l)
    &&& forall|i: int, j: int|
        0 <= i < j < rs.len() && (#[trigger] rs[i]).0 == (#[trigger] rs[j]).0 ==> rs[i].2 + 1 < rs[j].1
            || rs[j].2 + 1 < rs[i].1
}

/// Two largest blocks of members of one length that share a member are
/// the same prefix.
pub proof fn lemma_largest_full_unique(
    w: u128,
    s: Set<PrefixModel>,
    p1: PrefixModel,
    p2: PrefixModel,
    l: u8,
    q: PrefixModel,
)
    requires
        valid_width(w),
        largest_full(w, s, p1, l),
        largest_full(w, s, p2, l),
        valid_prefix(w, q),
        covers(w, p1, q),
        covers(w, p2, q),
    ensures
        p1 == p2,
{
    lemma_larger_full(w, s, p1, p2, l, q);
    lemma_larger_full(w, s, p2, p1, l, q);
}

/// A largest block of members is not strictly inside another block of
/// members of the same length that shares a member with it.
proof fn lemma_larger_full(w: u128, s: Set<PrefixModel>, p1: PrefixModel, p2: PrefixModel, l: u8, q: PrefixModel)
    requires
        valid_width(w),
        largest_full(w, s, p1, l),
        largest_full(w, s, p2, l),
        valid_prefix(w, q),
        covers(w, p1, q),
        covers(w, p2, q),
    ensures
        p2.1 <= p1.1,
{
    if p1.1 < p2.1 {
        lemma_covers_common(w, p1, p2, q);
        let par = truncate(w, p2.0, (p2.1 - 1) as u8);
        crate::model::lemma_truncate(w, p2.0, (p2.1 - 1) as u8);
        crate::bits::lemma_nmask_compose(w, p1.1 as u128, (p2.1 - 1) as u128, p2.0);
        assert(covers(w, p1, par));
        assert forall|x: PrefixModel| valid_prefix(w, x) && x.1 == l && covers(w, par, x) implies s.contains(x) by {
            crate::model::lemma_covers_trans(w, p1, par, x);
        }
        assert(full_at(w, s, par, l));
    }
}

/// A largest block of members of `s` of length `l` is, at that length, the
/// covering prefix of one of the aggregated ranges of `s`.
proof fn lemma_block_in_ranges(w: u128, s: Set<PrefixModel>, rs: Seq<RangeModel>, p: PrefixModel, l: u8) -> (k: int)
    requires
        valid_width(w),
        ranges_members(w, rs) == s,
        aggregated(w, s, rs),
        largest_full(w, s, p, l),
    ensures
        0 <= k < rs.len(),
        rs[k].0 == p,
        rs[k].1 <= l <= rs[k].2,
{
    let q = truncate(w, p.0, l);
    crate::model::lemma_truncate_covered(w, p, l);
    assert(s.contains(q));
    let k = choose|k: int| 0 <= k < rs.len() && in_range(w, #[trigger] rs[k], q);
    assert(largest_full(w, s, rs[k].0, l));
    lemma_largest_full_unique(w, s, rs[k].0, p, l, q);
    k
}

/// Each aggregated range of `s` is one of any other aggregation of `s`.
proof fn lemma_aggregation_in(w: u128, s: Set<PrefixModel>, a: Seq<RangeModel>, b: Seq<RangeModel>, i: int)
    requires
        valid_width(w),
        ranges_members(w, a) == s,
        ranges_members(w, b) == s,
        aggregated(w, s, a),
        aggregated(w, s, b),
        0 <= i < a.len(),
    ensures
        b.contains(a[i]),
{
    let e = a[i];
    let p = e.0;
    assert(valid_range(w, a[i]));
    assert(largest_full(w, s, a[i].0, e.1));
    let j = lemma_block_in_ranges(w, s, b, p, e.1);
    let f = b[j];
    assert(valid_range(w, b[j]));
    if f.1 < e.1 {
        let l = (e.1 - 1) as u8;
        assert(largest_full(w, s, b[j].0, l));
        let i2 = lemma_block_in_ranges(w, s, a, p, l);
        if i2 < i {
            assert(a[i2].2 + 1 < a[i].1 || a[i].2 + 1 < a[i2].1);
        } else {
            assert(a[i].2 + 1 < a[i2].1 || a[i2].2 + 1 < a[i].1);
        }
    }
    if f.2 < e.2 {
        let l = (f.2 + 1) as u8;
        assert(largest_full(w, s, a[i].0, l));
        let j2 = lemma_block_in_ranges(w, s, b, p, l);
        if j2 < j {
            assert(b[j2].2 + 1 < b[j].1 || b[j].2 + 1 < b[j2].1);
        } else {
            assert(b[j].2 + 1 < b[j2].1 || b[j2].2 + 1 < b[j].1);
        }
    }
    if e.2 < f.2 {
        let l = (e.2 + 1) as u8;
        assert(largest_full(w, s, b[j].0, l));
        let i3 = lemma_block_in_ranges(w, s, a, p, l);
        if i3 < i {
            assert(a[i3].2 + 1 < a[i].1 || a[i].2 + 1 < a[i3].1);
        } else {
            assert(a[i].2 + 1 < a[i3].1 || a[i3].2 + 1 < a[i].1);
        }
    }
    assert(f == e);
    assert(b[j] == a[i]);
}

/// The aggregation of a set of prefixes into ranges is unique up to order:
/// two sequences of ranges that both hold exactly the prefixes of `s` and
/// are both aggregated hold the same ranges.
pub proof fn lemma_aggregation_unique(w: u128, s: Set<PrefixModel>, a: Seq<RangeModel>, b: Seq<RangeModel>)
    requires
        valid_width(w),
        ranges_members(w, a) == s,
        ranges_members(w, b) == s,
        aggregated(w, s, a),
        aggregated(w, s, b),
    ensures
        forall|i: int| 0 <= i < a.len() ==> b.contains(#[trigger] a[i]),
        forall|j: int| 0 <= j < b.len() ==> a.contains(#[trigger] b[j]),
{
    assert forall|i: int| 0 <= i < a.len() implies b.contains(#[trigger] a[i]) by {
        lemma_aggregation_in(w, s, a, b, i);
    }
    assert forall|j: int| 0 <= j < b.len() implies a.contains(#[trigger] b[j]) by {
        lemma_aggregation_in(w, s, b, a, j);
    }
}

/// The range `e` ends before `r` starts: at a smaller length, or at the
/// same length at a smaller position.
spec fn precedes(w: u128, e: RangeModel, r: RangeModel) -> bool {
    ||| e.2 < r.1
    ||| e.2 == r.1 && index_of(w, e.0.0, e.2) < index_of(w, r.0.0, r.1)
}

/// Ranges of a single length each, each a largest block of members of `s`,
/// by length and then by position.
spec fn raw_blocks(w: u128, s: Set<PrefixModel>, rs: Seq<RangeModel>) -> bool {
    &&& forall|i: int|
        0 <= i < rs.len() ==> (#[trigger] rs[i]).1 == rs[i].2 && valid_range(w, rs[i]) && largest_full(
            w,
            s,
            rs[i].0,
            rs[i].1,
        )
    &&& forall|i: int, j: int| 0 <= i < j < rs.len() ==> precedes(w, #[trigger] rs[i], #[trigger] rs[j])
}

/// The positions just outside an interval of a canonical list are not in
/// the list.
proof fn lemma_iv_gaps(s: Seq<Interval>, i: int)
    requires
        iv_wf(s),
        0 <= i < s.len(),
    ensures
        s[i].0 > 0 ==> !iv_mem(s, (s[i].0 - 1) as u128),
        s[i].1 < u128::MAX ==> !iv_mem(s, (s[i].1 + 1) as u128),
{
    if s[i].0 > 0 && iv_mem(s, (s[i].0 - 1) as u128) {
        let j = choose|j: int| 0 <= j < s.len() && (#[trigger] s[j]).0 <= (s[i].0 - 1) as u128 <= s[j].1;
        if j > i {
            assert(s[i].1 + 1 < s[j].0);
        } else if j < i {
            assert(s[j].1 + 1 < s[i].0);
        }
    }
    if s[i].1 < u128::MAX && iv_mem(s, (s[i].1 + 1) as u128) {
        let j = choose|j: int| 0 <= j < s.len() && (#[trigger] s[j]).0 <= (s[i].1 + 1) as u128 <= s[j].1;
        if j > i {
            assert(s[i].1 + 1 < s[j].0);
        } else if j < i {
            assert(s[j].1 + 1 < s[i].0);
        }
    }
}

impl<A: Afi> PrefixSet<A> {
    /// Append to `out` the ranges of the prefixes of length `l` at positions
    /// `a ..= b`, members of `s` bounded by non-members, one for each
    /// largest aligned block of positions.
    fn push_blocks(out: &mut Vec<Range<A>>, l: u8, a: u128, b: u128, Ghost(s): Ghost<Set<PrefixModel>>)
        requires
            valid_width(width::<A>()),
            l as u128 <= width::<A>(),
            a <= b <= last_index(width::<A>(), l),
            forall|q: PrefixModel|
                valid_prefix(width::<A>(), q) && q.1 == l && a <= index_of(width::<A>(), q.0, q.1) <= b
                    ==> #[trigger] s.contains(q),
            a > 0 ==> !s.contains(prefix_at(width::<A>(), (a - 1) as u128, l)),
            b < last_index(width::<A>(), l) ==> !s.contains(prefix_at(width::<A>(), (b + 1) as u128, l)),
            raw_blocks(width::<A>(), s, range_views(old(out)@)),
            forall|i: int|
                0 <= i < old(out)@.len() ==> (#[trigger] old(out)@[i]@).2 < l || (old(out)@[i]@.2 == l
                    && index_of(width::<A>(), old(out)@[i]@.0.0, l) < a),
        ensures
            ranges_members(width::<A>(), range_views(final(out)@)) == ranges_members(
                width::<A>(),
                range_views(old(out)@),
            ).union(
                Set::new(
                    |q: PrefixModel|
                        valid_prefix(width::<A>(), q) && q.1 == l && a <= index_of(width::<A>(), q.0, q.1) <= b,
                ),
            ),
            raw_blocks(width::<A>(), s, range_views(final(out)@)),
            forall|i: int|
                0 <= i < final(out)@.len() ==> (#[trigger] final(out)@[i]@).2 < l || (final(out)@[i]@.2 == l
                    && index_of(width::<A>(), final(out)@[i]@.0.0, l) <= b),
    {
        let ghost w = width::<A>();
        let ghost start = old(out)@;
        let mut k = a;
        loop
            invariant_except_break
                ranges_members(w, range_views(out@)) == ranges_members(w, range_views(start)).union(
                    Set::new(
                        |q: PrefixModel| valid_prefix(w, q) && q.1 == l && a <= index_of(w, q.0, q.1) < k,
                    ),
                ),
                forall|i: int|
                    0 <= i < out@.len() ==> (#[trigger] out@[i]@).2 < l || (out@[i]@.2 == l && index_of(
                        w,
                        out@[i]@.0.0,
                        l,
                    ) < k),
                forall|t: u128|
                    t <= 128 && #[trigger] block_start(k, t) < k ==> block_start(k, t) < a || block_start(k, t)
                        + low_bits(t) > b,
            invariant
                w == width::<A>(),
                valid_width(w),
                l as u128 <= w,
                a <= k <= b <= last_index(w, l),
                forall|q: PrefixModel|
                    valid_prefix(w, q) && q.1 == l && a <= index_of(w, q.0, q.1) <= b ==> #[trigger] s.contains(q),
                a > 0 ==> !s.contains(prefix_at(w, (a - 1) as u128, l)),
                b < last_index(w, l) ==> !s.contains(prefix_at(w, (b + 1) as u128, l)),
                raw_blocks(w, s, range_views(out@)),
            ensures
                ranges_members(w, range_views(out@)) == ranges_members(w, range_views(start)).union(
                    Set::new(
                        |q: PrefixModel| valid_prefix(w, q) && q.1 == l && a <= index_of(w, q.0, q.1) <= b,
                    ),
                ),
                forall|i: int|
                    0 <= i < out@.len() ==> (#[trigger] out@[i]@).2 < l || (out@[i]@.2 == l && index_of(
                        w,
                        out@[i]@.0.0,
                        l,
                    ) <= b),
            decreases b - k,
        {
            let mut j: u128 = 0;
            proof {
                lemma_last_low(w, 0);
                lemma_block_start(k, 0);
            }
            while j < l as u128 && k & low_mask(j + 1) == 0 && b - k >= low_mask(j + 1)
                invariant
                    j <= l as u128 <= w,
                    valid_width(w),
                    k & low_bits(j) == 0,
                    k <= b,
                    b - k >= low_bits(j),
                decreases l as u128 - j,
            {
                j = j + 1;
            }
            let m = low_mask(j);
            proof {
                super::index::lemma_block(w, l, k, j);
            }
            let net = if l == 0 {
                0
            } else {
                k << ((A::max_length() - l) as u32)
            };
            proof {
                A::lemma_afi();
            }
            let prefix = Prefix::from_parts(net, (l as u128 - j) as u8);
            let range = Range::from_parts(prefix, l, l);
            let ghost before = out@;
            proof {
                let p = prefix@;
                Self::lemma_emitted_block(w, s, l, a, b, k, j);
                assert(range@ == (p, l, l));
                let rv = range_views(before.push(range));
                assert forall|i: int| 0 <= i < rv.len() implies (#[trigger] rv[i]).1 == rv[i].2 && valid_range(
                    w,
                    rv[i],
                ) && largest_full(w, s, rv[i].0, rv[i].1) by {
                    if i < before.len() {
                        assert(rv[i] == range_views(before)[i]);
                    }
                }
                assert forall|i: int, i2: int| 0 <= i < i2 < rv.len() implies precedes(
                    w,
                    #[trigger] rv[i],
                    #[trigger] rv[i2],
                ) by {
                    assert(rv[i] == before.push(range)[i]@);
                    if i2 < before.len() {
                        assert(rv[i] == range_views(before)[i]);
                        assert(rv[i2] == range_views(before)[i2]);
                    } else {
                        assert(rv[i2] == range@);
                        assert(index_of(w, p.0, l) == k);
                    }
                }
            }
            out.push(range);
            proof {
                lemma_ranges_push(w, before, range);
                let p = prefix@;
                let added = Set::new(
                    |q: PrefixModel| valid_prefix(w, q) && q.1 == l && k <= index_of(w, q.0, q.1) <= k + m,
                );
                assert(range_members(w, range@) =~= added) by {
                    assert forall|q: PrefixModel| range_members(w, range@).contains(q) == added.contains(q) by {
                        if valid_prefix(w, q) && q.1 == l {
                            lemma_span_at(w, p, q.0, q.1);
                        }
                    }
                }
                assert forall|i: int| 0 <= i < out@.len() implies (#[trigger] out@[i]@).2 < l || (out@[i]@.2
                    == l && index_of(w, out@[i]@.0.0, l) <= k) by {
                    if i < before.len() {
                        assert(out@[i] == before[i]);
                    }
                }
            }
            if b - k == m {
                proof {
                    let lhs = ranges_members(w, range_views(out@));
                    let rhs = ranges_members(w, range_views(start)).union(
                        Set::new(
                            |q: PrefixModel| valid_prefix(w, q) && q.1 == l && a <= index_of(w, q.0, q.1) <= b,
                        ),
                    );
                    assert(lhs =~= rhs);
                }
                break;
            }
            let ghost k0 = k;
            proof {
                if j == l as u128 {
                    lemma_last_low(w, l);
                    lemma_low_sub(k, j, j);
                }
                assert(j < l as u128);
                assert forall|t: u128| t <= 128 && #[trigger] block_start((k + m + 1) as u128, t) < (k + m
                    + 1) as u128 implies block_start((k + m + 1) as u128, t) < a || block_start(
                    (k + m + 1) as u128,
                    t,
                ) + low_bits(t) > b by {
                    lemma_block_step(k, j, t, (k + m + 1) as u128);
                    lemma_block_start(k, t);
                    if block_start(k, t) == k {
                        lemma_low_sub(k, (j + 1) as u128, t);
                    }
                }
            }
            k = k + m + 1;
            proof {
                let lhs = ranges_members(w, range_views(out@));
                let rhs = ranges_members(w, range_views(start)).union(
                    Set::new(
                        |q: PrefixModel| valid_prefix(w, q) && q.1 == l && a <= index_of(w, q.0, q.1) < k,
                    ),
                );
                assert(lhs =~= rhs);
            }
        }
    }

    /// The block of `2^j` positions of length `l` starting at `k`, found
    /// by extending it while it stays aligned and within `a ..= b`, is a
    /// largest block of members of `s`.
    proof fn lemma_emitted_block(w: u128, s: Set<PrefixModel>, l: u8, a: u128, b: u128, k: u128, j: u128)
        requires
            valid_width(w),
            l as u128 <= w,
            a <= k <= b <= last_index(w, l),
            j <= l as u128,
            k & low_bits(j) == 0,
            b - k >= low_bits(j),
            j < l as u128 ==> k & low_bits((j + 1) as u128) != 0 || b - k < low_bits((j + 1) as u128),
            forall|q: PrefixModel|
                valid_prefix(w, q) && q.1 == l && a <= index_of(w, q.0, q.1) <= b ==> #[trigger] s.contains(q),
            a > 0 ==> !s.contains(prefix_at(w, (a - 1) as u128, l)),
            b < last_index(w, l) ==> !s.contains(prefix_at(w, (b + 1) as u128, l)),
            forall|t: u128|
                t <= 128 && #[trigger] block_start(k, t) < k ==> block_start(k, t) < a || block_start(k, t)
                    + low_bits(t) > b,
        ensures
            largest_full(w, s, (network_at(w, k, l), (l - j) as u8), l),
            index_of(w, network_at(w, k, l), l) == k,
    {
        let p = (network_at(w, k, l), (l - j) as u8);
        super::index::lemma_block(w, l, k, j);
        lemma_network(w, k, l);
        assert forall|q: PrefixModel| valid_prefix(w, q) && q.1 == l && covers(w, p, q) implies s.contains(q) by {
            lemma_span_at(w, p, q.0, l);
        }
        if j < l as u128 {
            let t = (j + 1) as u128;
            let bs = block_start(k, t);
            lemma_block_start(k, t);
            lemma_last_low(w, l);
            lemma_block_within(k, t, l as u128);
            super::index::lemma_block(w, l, bs, t);
            let p2 = (network_at(w, bs, l), (l - t) as u8);
            assert(bs < a || bs + low_bits(t) > b);
            let x: u128 = if bs < a { (a - 1) as u128 } else { (b + 1) as u128 };
            let q = prefix_at(w, x, l);
            lemma_network(w, x, l);
            lemma_span_at(w, p2, q.0, l);
            assert(covers(w, p2, q));
            assert(!s.contains(q));
            let q0 = prefix_at(w, k, l);
            lemma_span_at(w, p, q0.0, l);
            lemma_span_at(w, p2, q0.0, l);
            lemma_covers_common(w, p2, p, q0);
            assert(truncate(w, p.0, (p.1 - 1) as u8) == p2);
        }
    }

    /// The prefix ranges whose members are exactly the prefixes of the set,
    /// aggregated: at each length, one range for each largest aligned block
    /// of consecutive members, joined across consecutive lengths.
    pub fn ranges(&self) -> (r: Vec<Range<A>>)
        ensures
            ranges_members(width::<A>(), range_views(r@)) == self@,
            aggregated(width::<A>(), self@, range_views(r@)),
    {
        proof {
            use_type_invariant(self);
        }
        let ghost w = width::<A>();
        let ghost me = self@;
        let mut out: Vec<Range<A>> = Vec::new();
        let n = self.levels.len();
        let mut l: usize = 0;
        while l < n
            invariant
                w == width::<A>(),
                me == self@,
                levels_wf(w, self.levels@),
                n == self.levels@.len(),
                l <= n,
                ranges_members(w, range_views(out@)) == Set::new(
                    |q: PrefixModel| self@.contains(q) && (q.1 as int) < l,
                ),
                raw_blocks(w, me, range_views(out@)),
                forall|e: int| 0 <= e < out@.len() ==> (#[trigger] out@[e]@).2 < l,
            decreases n - l,
        {
            let level = &self.levels[l];
            let ghost s = level@;
            assert(level_wf(w, l as u8, s));
            let mut i: usize = 0;
            while i < level.len()
                invariant
                    w == width::<A>(),
                    me == self@,
                    levels_wf(w, self.levels@),
                    n == self.levels@.len(),
                    l < n,
                    s == self.levels@[l as int]@,
                    level@ == s,
                    level_wf(w, l as u8, s),
                    i <= s.len(),
                    ranges_members(w, range_views(out@)) == Set::new(
                        |q: PrefixModel|
                            self@.contains(q) && (q.1 as int) < l || (valid_prefix(w, q) && q.1 == l
                                && iv_mem(s.subrange(0, i as int), index_of(w, q.0, q.1))),
                    ),
                    raw_blocks(w, me, range_views(out@)),
                    forall|e: int|
                        0 <= e < out@.len() ==> (#[trigger] out@[e]@).2 < l || (out@[e]@.2 == l && i > 0
                            && index_of(w, out@[e]@.0.0, l as u8) <= s[i - 1].1),
                decreases s.len() - i,
            {
                let (a, b) = level[i];
                proof {
                    assert(iv_mem(s, b)) by {
                        assert(s[i as int].0 <= b <= s[i as int].1);
                    }
                    lemma_iv_gaps(s, i as int);
                    assert forall|q: PrefixModel|
                        valid_prefix(w, q) && q.1 == l as u8 && a <= index_of(w, q.0, q.1) <= b implies #[trigger] me.contains(q) by {
                        assert(s[i as int].0 <= index_of(w, q.0, q.1) <= s[i as int].1);
                    }
                    if a > 0 {
                        lemma_network(w, (a - 1) as u128, l as u8);
                    }
                    if b < last_index(w, l as u8) {
                        lemma_network(w, (b + 1) as u128, l as u8);
                    }
                    assert forall|e: int| 0 <= e < out@.len() implies (#[trigger] out@[e]@).2 < l as u8 || (
                    out@[e]@.2 == l as u8 && index_of(w, out@[e]@.0.0, l as u8) < a) by {
                        if out@[e]@.2 == l && i > 0 {
                            assert(s[i - 1].1 + 1 < s[i as int].0);
                        }
                    }
                }
                let ghost before = out@;
                Self::push_blocks(&mut out, l as u8, a, b, Ghost(me));
                proof {
                    let lhs = ranges_members(w, range_views(out@));
                    let rhs = Set::new(
                        |q: PrefixModel|
                            self@.contains(q) && (q.1 as int) < l || (valid_prefix(w, q) && q.1 == l
                                && iv_mem(s.subrange(0, i + 1), index_of(w, q.0, q.1))),
                    );
                    assert forall|q: PrefixModel| lhs.contains(q) == rhs.contains(q) by {
                        intervals::lemma_mem_extend(s, i as int, index_of(w, q.0, q.1));
                    }
                    assert(lhs =~= rhs);
                }
                i = i + 1;
            }
            proof {
                let lhs = ranges_members(w, range_views(out@));
                let rhs = Set::new(|q: PrefixModel| self@.contains(q) && (q.1 as int) < l + 1);
                assert(s.subrange(0, s.len() as int) =~= s);
                assert forall|q: PrefixModel| lhs.contains(q) == rhs.contains(q) by {}
                assert(lhs =~= rhs);
            }
            l = l + 1;
        }
        proof {
            let lhs = ranges_members(w, range_views(out@));
            assert forall|q: PrefixModel| lhs.contains(q) == self@.contains(q) by {
                if self@.contains(q) {
                    lemma_member_at(w, self.levels@, q);
                }
            }
            assert(lhs =~= self@);
        }
        merge_ranges(&out, Ghost(me))
    }
}

proof fn lemma_ranges_update<A: Afi>(w: u128, rs: Seq<Range<A>>, j: int, r: Range<A>, x: Set<PrefixModel>)
    requires
        0 <= j < rs.len(),
        range_members(w, r@) == range_members(w, rs[j]@).union(x),
    ensures
        ranges_members(w, range_views(rs.update(j, r))) == ranges_members(w, range_views(rs)).union(x),
{
    let a = ranges_members(w, range_views(rs.update(j, r)));
    let b = ranges_members(w, range_views(rs)).union(x);
    assert forall|q: PrefixModel| a.contains(q) == b.contains(q) by {
        if a.contains(q) {
            let i = choose|i: int| 0 <= i < rs.len() && in_range(w, #[trigger] range_views(rs.update(j, r))[i], q);
            if i != j {
                assert(range_views(rs)[i] == range_views(rs.update(j, r))[i]);
            } else {
                assert(range_members(w, r@).contains(q));
                if range_members(w, rs[j]@).contains(q) {
                    assert(range_views(rs)[j] == rs[j]@);
                }
            }
        }
        if ranges_members(w, range_views(rs)).contains(q) {
            let i = choose|i: int| 0 <= i < rs.len() && in_range(w, #[trigger] range_views(rs)[i], q);
            if i != j {
                assert(range_views(rs)[i] == range_views(rs.update(j, r))[i]);
            } else {
                assert(range_members(w, rs[j]@).contains(q));
                assert(range_views(rs.update(j, r))[j] == r@);
            }
        }
        if x.contains(q) {
            assert(range_members(w, r@).contains(q));
            assert(range_views(rs.update(j, r))[j] == r@);
        }
    }
    assert(a =~= b);
}

/// The position in `out` of a range of the covering prefix of `r` whose
/// lengths end just below those of `r`, if there is one.
fn find_joinable<A: Afi>(out: &Vec<Range<A>>, r: &Range<A>) -> (j: Option<usize>)
    ensures
        j matches Some(k) ==> k < out@.len() && out@[k as int]@.0 == r@.0 && out@[k as int]@.2 + 1 == r@.1,
        j is None ==> forall|t: int|
            0 <= t < out@.len() ==> !((#[trigger] out@[t]@).0 == r@.0 && out@[t]@.2 + 1 == r@.1),
{
    let mut j: usize = 0;
    while j < out.len()
        invariant
            j <= out@.len(),
            forall|t: int| 0 <= t < j ==> !((#[trigger] out@[t]@).0 == r@.0 && out@[t]@.2 + 1 == r@.1),
        decreases out@.len() - j,
    {
        let o = out[j];
        if o.prefix().equals(&r.prefix()) && o.upper().into_primitive() as u16 + 1 == r.lower().into_primitive() as u16 {
            return Some(j);
        }
        j = j + 1;
    }
    None
}

/// Join the single-length ranges `rs`, in order of length, into ranges of
/// consecutive lengths of one covering prefix.
fn merge_ranges<A: Afi>(rs: &Vec<Range<A>>, Ghost(s): Ghost<Set<PrefixModel>>) -> (r: Vec<Range<A>>)
    requires
        raw_blocks(width::<A>(), s, range_views(rs@)),
    ensures
        ranges_members(width::<A>(), range_views(r@)) == ranges_members(width::<A>(), range_views(rs@)),
        aggregated(width::<A>(), s, range_views(r@)),
{
    let ghost w = width::<A>();
    let ghost raw = range_views(rs@);
    let mut out: Vec<Range<A>> = Vec::new();
    let mut i: usize = 0;
    while i < rs.len()
        invariant
            w == width::<A>(),
            raw == range_views(rs@),
            raw_blocks(w, s, raw),
            i <= rs@.len(),
            ranges_members(w, range_views(out@)) == ranges_members(w, range_views(rs@.subrange(0, i as int))),
            aggregated(w, s, range_views(out@)),
            i < rs@.len() ==> forall|e: int|
                0 <= e < out@.len() ==> precedes(w, #[trigger] range_views(out@)[e], raw[i as int]),
        decreases rs@.len() - i,
    {
        let r = rs[i];
        let ghost rv = r@;
        assert(raw[i as int] == rv);
        let ghost before = out@;
        let ghost bv = range_views(before);
        match find_joinable(&out, &r) {
            Some(j) => {
                let o = out[j];
                proof {
                    use_type_invariant(&o);
                    use_type_invariant(&r);
                    assert(bv[j as int] == o@);
                }
                let joined = Range::from_parts(r.prefix(), o.lower().into_primitive(), r.upper().into_primitive());
                proof {
                    assert(range_members(w, joined@) =~= range_members(w, o@).union(range_members(w, r@)));
                    lemma_ranges_update(w, before, j as int, joined, range_members(w, r@));
                }
                out.set(j, joined);
                proof {
                    let nv = range_views(out@);
                    assert(nv =~= bv.update(j as int, joined@));
                    assert forall|e: int| 0 <= e < nv.len() implies valid_range(w, #[trigger] nv[e]) by {
                        if e != j {
                            assert(nv[e] == bv[e]);
                        }
                    }
                    assert forall|e: int, l: u8| 0 <= e < nv.len() && nv[e].1 <= l <= nv[e].2 implies #[trigger] largest_full(
                        w,
                        s,
                        nv[e].0,
                        l,
                    ) by {
                        if e != j {
                            assert(nv[e] == bv[e]);
                        } else if l < rv.1 {
                            assert(largest_full(w, s, bv[e].0, l));
                        } else {
                            assert(largest_full(w, s, raw[i as int].0, raw[i as int].1));
                        }
                    }
                    assert forall|e: int, f: int| 0 <= e < f < nv.len() && (#[trigger] nv[e]).0 == (
                    #[trigger] nv[f]).0 implies nv[e].2 + 1 < nv[f].1 || nv[f].2 + 1 < nv[e].1 by {
                        if e != j && f != j {
                            assert(nv[e] == bv[e] && nv[f] == bv[f]);
                        } else if e == j {
                            assert(nv[f] == bv[f]);
                            assert(precedes(w, bv[f], raw[i as int]));
                        } else {
                            assert(nv[e] == bv[e]);
                            assert(precedes(w, bv[e], raw[i as int]));
                        }
                    }
                }
            },
            None => {
                proof {
                    use_type_invariant(&r);
                }
                out.push(r);
                proof {
                    lemma_ranges_push(w, before, r);
                    let nv = range_views(out@);
                    assert(nv =~= bv.push(rv));
                    assert forall|e: int| 0 <= e < nv.len() implies valid_range(w, #[trigger] nv[e]) by {
                        if e < bv.len() {
                            assert(nv[e] == bv[e]);
                        }
                    }
                    assert forall|e: int, l: u8| 0 <= e < nv.len() && nv[e].1 <= l <= nv[e].2 implies #[trigger] largest_full(
                        w,
                        s,
                        nv[e].0,
                        l,
                    ) by {
                        if e < bv.len() {
                            assert(nv[e] == bv[e]);
                        } else {
                            assert(largest_full(w, s, raw[i as int].0, raw[i as int].1));
                        }
                    }
                    assert forall|e: int, f: int| 0 <= e < f < nv.len() && (#[trigger] nv[e]).0 == (
                    #[trigger] nv[f]).0 implies nv[e].2 + 1 < nv[f].1 || nv[f].2 + 1 < nv[e].1 by {
                        if f < bv.len() {
                            assert(nv[e] == bv[e] && nv[f] == bv[f]);
                        } else {
                            assert(nv[e] == bv[e]);
                            assert(before[e]@ == bv[e]);
                            assert(precedes(w, bv[e], raw[i as int]));
                        }
                    }
                }
            },
        }
        proof {
            assert(rs@.subrange(0, i + 1) =~= rs@.subrange(0, i as int).push(r));
            lemma_ranges_push(w, rs@.subrange(0, i as int), r);
            if i + 1 < rs@.len() {
                let nv = range_views(out@);
                assert(precedes(w, raw[i as int], raw[i + 1]));
                assert forall|e: int| 0 <= e < nv.len() implies precedes(w, #[trigger] nv[e], raw[i + 1]) by {
                    if e < bv.len() && nv[e] == bv[e] {
                        assert(precedes(w, bv[e], raw[i as int]));
                    }
                }
            }
        }
        i = i + 1;
    }
    proof {
        assert(rs@.subrange(0, rs@.len() as int) =~= rs@);
    }
    out
}

} // verus!

verus! {

impl<A: Afi> crate::traits::PrefixSet for PrefixSet<A> {
    type Prefix = Prefix<A>;

    type Range = Range<A>;

    type Prefixes = Prefixes<A>;

    open spec fn contains_result(&self, prefix: Prefix<A>, r: bool) -> bool {
        &&& r == self@.contains(prefix@)
    }

    fn contains(&self, prefix: Prefix<A>) -> (r: bool) {
        PrefixSet::<A>::contains(self, prefix)
    }

    open spec fn prefixes_result(&self, r: Prefixes<A>) -> bool {
        &&& r.wf()
        &&& r.members() == self@
        &&& r.last() is None
    }

    fn prefixes(&self) -> (r: Prefixes<A>) {
        PrefixSet::<A>::prefixes(self)
    }

    open spec fn ranges_result(&self, r: Vec<Range<A>>) -> bool {
        &&& ranges_members(width::<A>(), range_views(r@)) == self@
        &&& aggregated(width::<A>(), self@, range_views(r@))
    }

    fn ranges(&self) -> (r: Vec<Range<A>>) {
        PrefixSet::<A>::ranges(self)
    }

    open spec fn len_result(&self, r: usize) -> bool {
        &&& self@.finite()
        &&& r == self@.len()
    }

    open spec fn len_pre(&self) -> bool {
        &&& self@.len() <= usize::MAX
    }

    fn len(&self) -> (r: usize) {
        PrefixSet::<A>::len(self)
    }

    open spec fn is_empty_result(&self, r: bool) -> bool {
        &&& r == (self@ == Set::<PrefixModel>::empty())
    }

    fn is_empty(&self) -> (r: bool) {
        PrefixSet::<A>::is_empty(self)
    }
}

} // verus!

verus! {

/// A prefix range has only members of another exactly when the other's
/// covering prefix covers its own and its lengths lie within the other's.
pub proof fn lemma_range_members_subset(w: u128, a: RangeModel, b: RangeModel)
    requires
        valid_width(w),
        valid_range(w, a),
        valid_range(w, b),
    ensures
        range_members(w, a).subset_of(range_members(w, b)) == (covers(w, b.0, a.0) && b.1 <= a.1 && a.2 <= b.2),
{
    if covers(w, b.0, a.0) && b.1 <= a.1 && a.2 <= b.2 {
        assert forall|q: PrefixModel| range_members(w, a).contains(q) implies range_members(w, b).contains(q) by {
            crate::model::lemma_covers_trans(w, b.0, a.0, q);
        }
    }
    if range_members(w, a).subset_of(range_members(w, b)) {
        let l = a.1;
        let x1 = truncate(w, a.0.0, a.1);
        let x2 = truncate(w, a.0.0, a.2);
        crate::model::lemma_truncate_covered(w, a.0, a.1);
        crate::model::lemma_truncate_covered(w, a.0, a.2);
        assert(range_members(w, a).contains(x1));
        assert(range_members(w, a).contains(x2));
        if b.0.1 <= a.0.1 {
            lemma_covers_common(w, b.0, a.0, x1);
        } else {
            lemma_covers_common(w, a.0, b.0, x1);
            let (sa, sb) = span_at(w, a.0, l);
            let (ta, tb) = span_at(w, b.0, l);
            lemma_span_at(w, a.0, x1.0, l);
            lemma_span_at(w, b.0, x1.0, l);
            lemma_network(w, sa, l);
            lemma_network(w, sb, l);
            lemma_network(w, ta, l);
            lemma_network(w, tb, l);
            let ya = (network_at(w, sa, l), l);
            let yb = (network_at(w, sb, l), l);
            let za = (network_at(w, ta, l), l);
            let zb = (network_at(w, tb, l), l);
            lemma_span_at(w, a.0, ya.0, l);
            lemma_span_at(w, a.0, yb.0, l);
            lemma_span_at(w, b.0, ya.0, l);
            lemma_span_at(w, b.0, yb.0, l);
            lemma_span_at(w, b.0, za.0, l);
            lemma_span_at(w, b.0, zb.0, l);
            lemma_span_at(w, a.0, za.0, l);
            lemma_span_at(w, a.0, zb.0, l);
            assert(range_members(w, a).contains(ya));
            assert(range_members(w, a).contains(yb));
            crate::model::lemma_covers_trans(w, a.0, b.0, za);
            crate::model::lemma_covers_trans(w, a.0, b.0, zb);
            super::index::lemma_span_width(w, a.0, l);
            super::index::lemma_span_width(w, b.0, l);
            let ja = (l - a.0.1) as u128;
            let jb = (l - b.0.1) as u128;
            lemma_low_sub(0, jb, (ja - 1) as u128);
            lemma_low_sub(0, (ja - 1) as u128, (ja - 1) as u128);
            assert(false);
        }
    }
}

} // verus!
