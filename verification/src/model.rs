use vstd::prelude::*;

use crate::bits::{
    hmask, lemma_fits, lemma_hmask_longer, lemma_mask_ends, lemma_network_fixed, lemma_nmask_compose, nmask, ones,
    valid_width,
};
use crate::concrete::set::index::{
    lemma_index, lemma_index_order, lemma_low_pow2, lemma_network, lemma_span_at, lemma_span_width,
    low_bits, network_at, span_at,
};
use vstd::arithmetic::power2::pow2;

verus! {

/// The abstract value of a prefix: its network address and its length.
pub type PrefixModel = (u128, u8);

/// A well-formed prefix of width `w`: the length is at most `w`, and no
/// host bit of the network address is set.
pub open spec fn valid_prefix(w: u128, p: PrefixModel) -> bool {
    &&& p.1 as u128 <= w
    &&& p.0 <= ones(w)
    &&& p.0 & hmask(w, p.1 as u128) == 0
}

/// Two addresses agree on their `l` most significant bits.
pub open spec fn agree(w: u128, a: u128, b: u128, l: u128) -> bool {
    a & nmask(w, l) == b & nmask(w, l)
}

/// `outer` covers `inner`: every address in `inner` is in `outer`.
pub open spec fn covers(w: u128, outer: PrefixModel, inner: PrefixModel) -> bool {
    &&& outer.1 <= inner.1
    &&& inner.0 & nmask(w, outer.1 as u128) == outer.0
}

/// `l` is the length of the longest common prefix of `a` and `b`.
pub open spec fn is_common_length(w: u128, a: u128, b: u128, l: u128) -> bool {
    &&& l <= w
    &&& agree(w, a, b, l)
    &&& l < w ==> !agree(w, a, b, (l + 1) as u128)
}

/// `c` is the longest prefix covering both `p` and `q`.
pub open spec fn is_longest_common(w: u128, c: PrefixModel, p: PrefixModel, q: PrefixModel) -> bool {
    &&& valid_prefix(w, c)
    &&& covers(w, c, p)
    &&& covers(w, c, q)
    &&& (c.1 < p.1 && c.1 < q.1) ==> !agree(w, p.0, q.0, (c.1 + 1) as u128)
}

/// The prefix of length `l` holding address `a`.
pub open spec fn truncate(w: u128, a: u128, l: u8) -> PrefixModel {
    (a & nmask(w, l as u128), l)
}

/// Agreement on `l` bits implies agreement on every shorter length.
pub proof fn lemma_agree_shorter(w: u128, a: u128, b: u128, l: u128, k: u128)
    requires
        valid_width(w),
        k <= l <= w,
        agree(w, a, b, l),
    ensures
        agree(w, a, b, k),
{
    assert(a & nmask(w, k) == b & nmask(w, k)) by (bit_vector)
        requires
            w == 32 || w == 128,
            k <= l <= w,
            a & nmask(w, l) == b & nmask(w, l),
    ;
}

/// The longest common length is unique.
pub proof fn lemma_common_length_unique(w: u128, a: u128, b: u128, l1: u128, l2: u128)
    requires
        valid_width(w),
        is_common_length(w, a, b, l1),
        is_common_length(w, a, b, l2),
    ensures
        l1 == l2,
{
    if l1 < l2 {
        lemma_agree_shorter(w, a, b, l2, (l1 + 1) as u128);
    } else if l2 < l1 {
        lemma_agree_shorter(w, a, b, l1, (l2 + 1) as u128);
    }
}

/// Truncating an address yields a well-formed prefix, whose network agrees
/// with the address.
pub proof fn lemma_truncate(w: u128, a: u128, l: u8)
    requires
        valid_width(w),
        a <= ones(w),
        l as u128 <= w,
    ensures
        valid_prefix(w, truncate(w, a, l)),
        covers(w, truncate(w, a, l), (a, l)) || true,
        agree(w, a, truncate(w, a, l).0, l as u128),
{
    let n = a & nmask(w, l as u128);
    let ll = l as u128;
    assert(n <= ones(w) && n & hmask(w, ll) == 0 && n & nmask(w, ll) == n) by (bit_vector)
        requires
            w == 32 || w == 128,
            ll <= w,
            n == a & nmask(w, ll),
    ;
}

/// A covering relation is a partial order: reflexive.
pub proof fn lemma_covers_refl(w: u128, p: PrefixModel)
    requires
        valid_width(w),
        valid_prefix(w, p),
    ensures
        covers(w, p, p),
{
    lemma_network_fixed(w, p.1 as u128, p.0);
}

/// A covering relation is a partial order: antisymmetric.
pub proof fn lemma_covers_antisym(w: u128, p: PrefixModel, q: PrefixModel)
    requires
        valid_width(w),
        valid_prefix(w, p),
        valid_prefix(w, q),
        covers(w, p, q),
        covers(w, q, p),
    ensures
        p == q,
{
    lemma_covers_refl(w, q);
}

/// A covering relation is a partial order: transitive.
pub proof fn lemma_covers_trans(w: u128, p: PrefixModel, q: PrefixModel, r: PrefixModel)
    requires
        valid_width(w),
        valid_prefix(w, p),
        valid_prefix(w, q),
        valid_prefix(w, r),
        covers(w, p, q),
        covers(w, q, r),
    ensures
        covers(w, p, r),
{
    let lp = p.1 as u128;
    let lq = q.1 as u128;
    let nq = q.0;
    let nr = r.0;
    lemma_nmask_compose(w, lp, lq, nr);
}

/// Two prefixes covering a common prefix are nested: the shorter covers the
/// longer.
pub proof fn lemma_covers_common(w: u128, p: PrefixModel, q: PrefixModel, r: PrefixModel)
    requires
        valid_width(w),
        valid_prefix(w, p),
        valid_prefix(w, q),
        valid_prefix(w, r),
        covers(w, p, r),
        covers(w, q, r),
    ensures
        p.1 <= q.1 ==> covers(w, p, q),
        q.1 <= p.1 ==> covers(w, q, p),
{
    let lp = p.1 as u128;
    let lq = q.1 as u128;
    let nr = r.0;
    if lp <= lq {
        lemma_nmask_compose(w, lp, lq, nr);
    } else {
        lemma_nmask_compose(w, lq, lp, nr);
    }
}


} // verus!

verus! {

proof fn lemma_agree_step(w: u128, a: u128, b: u128, l: u128)
    requires
        valid_width(w),
        l < w,
        agree(w, a, b, l),
    ensures
        agree(w, a, b, (l + 1) as u128) <==> ((a ^ b) >> ((w - 1 - l) as u128)) & 1 == 0,
{
    assert(agree(w, a, b, (l + 1) as u128) <==> ((a ^ b) >> ((w - 1 - l) as u128)) & 1 == 0)
        by (bit_vector)
        requires
            w == 32 || w == 128,
            l < w,
            a & nmask(w, l) == b & nmask(w, l),
    ;
}

/// Compute the length of the longest common prefix of two `w`-bit values.
pub fn common_length_of(w: u8, a: u128, b: u128) -> (r: u8)
    requires
        valid_width(w as u128),
    ensures
        is_common_length(w as u128, a, b, r as u128),
{
    let x = a ^ b;
    let mut l: u8 = 0;
    proof {
        lemma_mask_ends(w as u128);
        assert(a & 0u128 == b & 0u128) by (bit_vector);
    }
    while l < w
        invariant
            valid_width(w as u128),
            l <= w,
            x == a ^ b,
            agree(w as u128, a, b, l as u128),
        decreases w - l,
    {
        proof {
            lemma_agree_step(w as u128, a, b, l as u128);
        }
        let shift: u32 = (w - 1 - l) as u32;
        if (x >> shift) & 1 != 0 {
            return l;
        }
        l = l + 1;
    }
    l
}

} // verus!

verus! {

/// The length of the longest common prefix of two prefixes, given the
/// common length `cl` of their network addresses.
pub open spec fn common_prefix_len(p: PrefixModel, q: PrefixModel, cl: u8) -> u8 {
    let m = if p.1 <= q.1 {
        p.1
    } else {
        q.1
    };
    if m <= cl {
        m
    } else {
        cl
    }
}

proof fn lemma_same_len_agree(w: u128, p: PrefixModel, q: PrefixModel)
    requires
        valid_width(w),
        valid_prefix(w, p),
        valid_prefix(w, q),
        p.1 == q.1,
        agree(w, p.0, q.0, p.1 as u128),
    ensures
        p == q,
{
    lemma_covers_refl(w, p);
    lemma_covers_refl(w, q);
}

/// Classification of a pair of prefixes by their longest common prefix.
pub proof fn lemma_compare(w: u128, p: PrefixModel, q: PrefixModel, cl: u8)
    requires
        valid_width(w),
        valid_prefix(w, p),
        valid_prefix(w, q),
        is_common_length(w, p.0, q.0, cl as u128),
    ensures
        ({
            let l = common_prefix_len(p, q, cl);
            let c = truncate(w, p.0, l);
            &&& (l == p.1 && l == q.1) <==> p == q
            &&& (l == p.1 && l < q.1) ==> covers(w, p, q) && p != q && c == p
            &&& (l == q.1 && l < p.1) ==> covers(w, q, p) && p != q && c == q
            &&& (l < p.1 && l < q.1) ==> !covers(w, p, q) && !covers(w, q, p)
                && is_longest_common(w, c, p, q)
            &&& l <= p.1 && l <= q.1
        }),
{
    let l = common_prefix_len(p, q, cl);
    let c = truncate(w, p.0, l);
    lemma_truncate(w, p.0, l);
    lemma_covers_refl(w, p);
    lemma_covers_refl(w, q);
    if l == p.1 && l == q.1 {
        lemma_agree_shorter(w, p.0, q.0, cl as u128, l as u128);
        lemma_same_len_agree(w, p, q);
    }
    if p == q {
        assert(agree(w, p.0, q.0, w));
        lemma_common_length_unique(w, p.0, q.0, cl as u128, w);
    }
    if l == p.1 && l < q.1 {
        lemma_agree_shorter(w, p.0, q.0, cl as u128, l as u128);
    }
    if l == q.1 && l < p.1 {
        lemma_agree_shorter(w, p.0, q.0, cl as u128, l as u128);
    }
    if l < p.1 && l < q.1 {
        assert(l == cl);
        if covers(w, p, q) {
            assert(agree(w, p.0, q.0, p.1 as u128));
            lemma_agree_shorter(w, p.0, q.0, p.1 as u128, (cl + 1) as u128);
        }
        if covers(w, q, p) {
            assert(agree(w, p.0, q.0, q.1 as u128));
            lemma_agree_shorter(w, p.0, q.0, q.1 as u128, (cl + 1) as u128);
        }
        assert(covers(w, c, q));
    }
}

} // verus!

verus! {

/// The address increment between consecutive prefixes of length `l` (for
/// `l > 0`): the lowest network bit.
pub open spec fn unit(w: u128, l: u128) -> u128 {
    hmask(w, (l - 1) as u128) & nmask(w, l)
}

/// The next prefix of the same length as `q` within `base`, in address
/// order, if any.
pub open spec fn sub_succ(w: u128, base: PrefixModel, q: PrefixModel) -> Option<PrefixModel> {
    if q.1 == 0 {
        None
    } else {
        let n = q.0 + unit(w, q.1 as u128);
        if n <= ones(w) && covers(w, base, (n as u128, q.1)) {
            Some((n as u128, q.1))
        } else {
            None
        }
    }
}

/// The prefixes of length `l` covered by `base`.
pub open spec fn is_subprefix_at(w: u128, base: PrefixModel, l: u8, r: PrefixModel) -> bool {
    &&& valid_prefix(w, r)
    &&& r.1 == l
    &&& covers(w, base, r)
}

/// A prefix covers exactly the addresses between its network address and
/// its broadcast address.
pub proof fn lemma_covers_interval(w: u128, b: PrefixModel, x: u128)
    requires
        valid_width(w),
        valid_prefix(w, b),
        x <= ones(w),
    ensures
        (x & nmask(w, b.1 as u128) == b.0) <==> (b.0 <= x && x <= b.0 | hmask(w, b.1 as u128)),
{
    let n = b.0;
    let l = b.1 as u128;
    assert((x & nmask(w, l) == n) <==> (n <= x && x <= n | hmask(w, l))) by (bit_vector)
        requires
            w == 32 || w == 128,
            l <= w,
            n <= ones(w),
            x <= ones(w),
            n & hmask(w, l) == 0,
    ;
}

proof fn lemma_unit_step(w: u128, l: u128, q: u128, r: u128)
    requires
        valid_width(w),
        0 < l <= w,
        q <= ones(w),
        r <= ones(w),
        q & hmask(w, l) == 0,
        r & hmask(w, l) == 0,
    ensures
        unit(w, l) == hmask(w, l) + 1,
        q < r ==> q + unit(w, l) <= r,
        q + unit(w, l) <= ones(w) ==> ((q + unit(w, l)) as u128) & hmask(w, l) == 0,
{
    assert(unit(w, l) == hmask(w, l) + 1) by (bit_vector)
        requires
            w == 32 || w == 128,
            0 < l <= w,
    ;
    let h = hmask(w, l);
    assert(q < r ==> q + (h + 1) <= r) by (bit_vector)
        requires
            q & h == 0,
            r & h == 0,
            w == 32 || w == 128,
            0 < l <= w,
            h == hmask(w, l),
    ;
    assert(q + (h + 1) <= ones(w) ==> ((q + (h + 1)) as u128) & h == 0) by (bit_vector)
        requires
            q & h == 0,
            w == 32 || w == 128,
            0 < l <= w,
            h == hmask(w, l),
    ;
}

/// The successor of a subprefix is the least subprefix of the same length
/// after it, and there is none after the last.
pub proof fn lemma_sub_succ(w: u128, base: PrefixModel, q: PrefixModel)
    requires
        valid_width(w),
        valid_prefix(w, base),
        is_subprefix_at(w, base, q.1, q),
    ensures
        sub_succ(w, base, q) matches Some(s) ==> is_subprefix_at(w, base, q.1, s) && s.0 > q.0,
        forall|r: PrefixModel|
            is_subprefix_at(w, base, q.1, r) && r.0 > q.0 ==> (sub_succ(w, base, q) matches Some(
                s,
            ) && s.0 <= r.0),
{
    if q.1 > 0 {
        let l = q.1 as u128;
        let n = q.0 + unit(w, l);
        lemma_unit_step(w, l, q.0, q.0);
        assert forall|r: PrefixModel|
            is_subprefix_at(w, base, q.1, r) && r.0 > q.0 implies (sub_succ(w, base, q) matches Some(
            s,
        ) && s.0 <= r.0) by {
            lemma_unit_step(w, l, q.0, r.0);
            lemma_covers_interval(w, base, q.0);
            lemma_covers_interval(w, base, r.0);
            lemma_covers_interval(w, base, n as u128);
            lemma_covers_trans_len(w, base, q, (n as u128, q.1));
        }
        if sub_succ(w, base, q) is Some {
            lemma_truncate(w, n as u128, q.1);
        }
    } else {
        assert forall|r: PrefixModel|
            is_subprefix_at(w, base, q.1, r) && r.0 > q.0 implies false by {
            crate::bits::lemma_mask_ends(w);
            lemma_fits(w, r.0);
        }
    }
}

proof fn lemma_covers_trans_len(w: u128, base: PrefixModel, q: PrefixModel, s: PrefixModel)
    requires
        valid_width(w),
        valid_prefix(w, base),
        covers(w, base, q),
        s.1 == q.1,
    ensures
        s.1 >= base.1,
{
}

} // verus!

verus! {

/// Adding the unit of a length to an aligned address keeps it aligned, so
/// truncation leaves it unchanged.
pub proof fn lemma_unit_aligned(w: u128, l: u128, q: u128)
    requires
        valid_width(w),
        0 < l <= w,
        q <= ones(w),
        q & hmask(w, l) == 0,
    ensures
        q + unit(w, l) <= ones(w) ==> ((q + unit(w, l)) as u128) & nmask(w, l) == (q + unit(w, l)) as u128,
        hmask(w, (l - 1) as u128) & nmask(w, l) == unit(w, l),
{
    lemma_unit_step(w, l, q, q);
    let n = (q + unit(w, l)) as u128;
    if q + unit(w, l) <= ones(w) {
        lemma_network_fixed(w, l, n);
    }
}

/// Truncating the network address of `base` to a longer length yields a
/// prefix covered by `base`.
pub proof fn lemma_truncate_covered(w: u128, base: PrefixModel, l: u8)
    requires
        valid_width(w),
        valid_prefix(w, base),
        base.1 <= l,
        l as u128 <= w,
    ensures
        covers(w, base, truncate(w, base.0, l)),
        valid_prefix(w, truncate(w, base.0, l)),
{
    lemma_truncate(w, base.0, l);
    let n = base.0;
    let bl = base.1 as u128;
    let ll = l as u128;
    lemma_nmask_compose(w, bl, ll, n);
    lemma_network_fixed(w, bl, n);
}

} // verus!

verus! {

/// The abstract value of a prefix range: the covering prefix and the
/// inclusive bounds of the lengths of its members.
pub type RangeModel = (PrefixModel, u8, u8);

/// A well-formed prefix range.
pub open spec fn valid_range(w: u128, r: RangeModel) -> bool {
    &&& valid_prefix(w, r.0)
    &&& r.0.1 <= r.1
    &&& r.1 <= r.2
    &&& r.2 as u128 <= w
}

/// `q` is a member of the prefix range `r`.
pub open spec fn in_range(w: u128, r: RangeModel, q: PrefixModel) -> bool {
    &&& valid_prefix(w, q)
    &&& covers(w, r.0, q)
    &&& r.1 <= q.1 <= r.2
}

/// The member of `r` following `q`: the next prefix of the same length, or
/// the first prefix of the next length.
pub open spec fn range_succ(w: u128, r: RangeModel, q: PrefixModel) -> Option<PrefixModel> {
    match sub_succ(w, r.0, q) {
        Some(s) => Some(s),
        None => if q.1 < r.2 {
            Some(truncate(w, r.0.0, (q.1 + 1) as u8))
        } else {
            None
        },
    }
}

} // verus!

verus! {

/// The successor of a member of a range is a member.
pub proof fn lemma_range_succ_member(w: u128, r: RangeModel, q: PrefixModel)
    requires
        valid_width(w),
        valid_range(w, r),
        in_range(w, r, q),
    ensures
        range_succ(w, r, q) matches Some(s) ==> in_range(w, r, s),
{
    lemma_sub_succ(w, r.0, q);
    if sub_succ(w, r.0, q) is None && q.1 < r.2 {
        lemma_truncate_covered(w, r.0, (q.1 + 1) as u8);
    }
}

} // verus!

verus! {

/// `a` comes before `b` in the order of a range's iteration: by length,
/// then by address.
pub open spec fn iter_lt(a: PrefixModel, b: PrefixModel) -> bool {
    a.1 < b.1 || (a.1 == b.1 && a.0 < b.0)
}

/// The first member of a range: its covering prefix truncated to the
/// lower length bound.
pub open spec fn range_first(w: u128, r: RangeModel) -> PrefixModel {
    truncate(w, r.0.0, r.1)
}

/// The member that the iteration of `r` yields after `k` steps, or `None`
/// once it is exhausted.
pub open spec fn range_nth(w: u128, r: RangeModel, k: nat) -> Option<PrefixModel>
    decreases k,
{
    if k == 0 {
        Some(range_first(w, r))
    } else {
        match range_nth(w, r, (k - 1) as nat) {
            Some(q) => range_succ(w, r, q),
            None => None,
        }
    }
}

/// A rank of prefixes that grows with the order of iteration.
spec fn iter_rank(q: PrefixModel) -> int {
    q.1 * 0x1_0000_0000_0000_0000_0000_0000_0000_0000int + q.0
}

/// The first member of a range is a member and comes before every other.
proof fn lemma_range_first(w: u128, r: RangeModel, x: PrefixModel)
    requires
        valid_width(w),
        valid_range(w, r),
    ensures
        in_range(w, r, range_first(w, r)),
        in_range(w, r, x) ==> !iter_lt(x, range_first(w, r)),
{
    lemma_truncate_covered(w, r.0, r.1);
    crate::bits::lemma_hmask_longer(w, r.0.1 as u128, r.1 as u128, r.0.0);
    lemma_network_fixed(w, r.1 as u128, r.0.0);
    assert(range_first(w, r).0 == r.0.0);
    if in_range(w, r, x) {
        lemma_fits(w, x.0);
        lemma_covers_interval(w, r.0, x.0);
    }
}

/// The successor of a member is the next member in the order of
/// iteration, and there is none after the last.
pub proof fn lemma_range_succ_next(w: u128, r: RangeModel, q: PrefixModel, x: PrefixModel)
    requires
        valid_width(w),
        valid_range(w, r),
        in_range(w, r, q),
        in_range(w, r, x),
        iter_lt(q, x),
    ensures
        range_succ(w, r, q) matches Some(s) && in_range(w, r, s) && iter_lt(q, s) && !iter_lt(x, s),
{
    lemma_sub_succ(w, r.0, q);
    lemma_range_succ_member(w, r, q);
    assert(is_subprefix_at(w, r.0, q.1, q));
    if x.1 == q.1 {
        assert(is_subprefix_at(w, r.0, q.1, x));
    }
    if sub_succ(w, r.0, q) is None && q.1 < r.2 {
        lemma_range_first(w, (r.0, (q.1 + 1) as u8, r.2), x);
    }
}

/// The members of a range at successive steps of its iteration come in
/// strictly increasing order.
proof fn lemma_range_nth_increasing(w: u128, r: RangeModel, i: nat, j: nat)
    requires
        valid_width(w),
        valid_range(w, r),
        i < j,
        range_nth(w, r, j) is Some,
    ensures
        range_nth(w, r, i) matches Some(a) && in_range(w, r, a) && iter_lt(a, range_nth(w, r, j)->0),
        in_range(w, r, range_nth(w, r, j)->0),
    decreases j,
{
    let x = range_nth(w, r, (j - 1) as nat);
    assert(x is Some);
    lemma_range_first(w, r, range_first(w, r));
    if j - 1 > 0 {
        lemma_range_nth_increasing(w, r, 0, (j - 1) as nat);
    }
    if i < j - 1 {
        lemma_range_nth_increasing(w, r, i, (j - 1) as nat);
    }
    lemma_range_succ_member(w, r, x->0);
    lemma_sub_succ(w, r.0, x->0);
}

/// A member not yet reached after `k` steps lies beyond every member
/// reached so far, so the iteration is still running and has climbed at
/// least `k` ranks.
proof fn lemma_range_nth_below(w: u128, r: RangeModel, q: PrefixModel, k: nat)
    requires
        valid_width(w),
        valid_range(w, r),
        in_range(w, r, q),
        forall|j: nat| j <= k ==> range_nth(w, r, j) != Some(q),
    ensures
        range_nth(w, r, k) matches Some(x) && in_range(w, r, x) && iter_lt(x, q) && iter_rank(x)
            >= iter_rank(range_first(w, r)) + k,
    decreases k,
{
    lemma_range_first(w, r, q);
    if k > 0 {
        lemma_range_nth_below(w, r, q, (k - 1) as nat);
        let x = range_nth(w, r, (k - 1) as nat)->0;
        lemma_range_succ_next(w, r, x, q);
        assert(range_nth(w, r, k) != Some(q));
    } else {
        assert(range_nth(w, r, 0) != Some(q));
    }
}

/// The iteration of a range yields each of its members exactly once, by
/// increasing length and then address, and nothing else: a prefix is a
/// member exactly when some step yields it, two steps yield members in the
/// order of the steps, and once exhausted the iteration stays exhausted.
pub proof fn lemma_range_iteration(w: u128, r: RangeModel, q: PrefixModel)
    requires
        valid_width(w),
        valid_range(w, r),
    ensures
        in_range(w, r, q) <==> exists|k: nat| range_nth(w, r, k) == Some(q),
        forall|i: nat, j: nat|
            i < j && #[trigger] range_nth(w, r, j) is Some ==> (#[trigger] range_nth(w, r, i) matches Some(
                a,
            ) && iter_lt(a, range_nth(w, r, j)->0)),
        forall|k: nat| #[trigger] range_nth(w, r, k) is None ==> range_nth(w, r, k + 1) is None,
{
    if in_range(w, r, q) {
        if forall|j: nat| j <= iter_rank(q) + 1 ==> range_nth(w, r, j) != Some(q) {
            lemma_range_nth_below(w, r, q, (iter_rank(q) + 1) as nat);
        }
        assert(exists|k: nat| range_nth(w, r, k) == Some(q));
    }
    if exists|k: nat| range_nth(w, r, k) == Some(q) {
        let k = choose|k: nat| range_nth(w, r, k) == Some(q);
        if k > 0 {
            lemma_range_nth_increasing(w, r, 0, k);
        } else {
            lemma_range_first(w, r, range_first(w, r));
        }
    }
    assert forall|i: nat, j: nat| i < j && #[trigger] range_nth(w, r, j) is Some implies (
    #[trigger] range_nth(w, r, i) matches Some(a) && iter_lt(a, range_nth(w, r, j)->0)) by {
        lemma_range_nth_increasing(w, r, i, j);
    }
    assert forall|k: nat| #[trigger] range_nth(w, r, k) is None implies range_nth(w, r, k + 1) is None by {
        assert(range_nth(w, r, k + 1) == match range_nth(w, r, k) {
            Some(q) => range_succ(w, r, q),
            None => None,
        });
    }
}

} // verus!

verus! {

/// Two prefixes, neither of which covers the other, have a single longest
/// common prefix.
pub proof fn lemma_longest_common_unique(w: u128, c1: PrefixModel, c2: PrefixModel, p: PrefixModel, q: PrefixModel)
    requires
        valid_width(w),
        valid_prefix(w, p),
        valid_prefix(w, q),
        !covers(w, p, q),
        !covers(w, q, p),
        is_longest_common(w, c1, p, q),
        is_longest_common(w, c2, p, q),
    ensures
        c1 == c2,
{
    lemma_longest_common_shorter(w, c1, c2, p, q);
    lemma_longest_common_shorter(w, c2, c1, p, q);
    lemma_covers_common(w, c1, c2, p);
    lemma_covers_antisym(w, c1, c2);
}

/// A longest common prefix of two prefixes, neither of which covers the
/// other, is no shorter than any other common prefix.
proof fn lemma_longest_common_shorter(w: u128, c1: PrefixModel, c2: PrefixModel, p: PrefixModel, q: PrefixModel)
    requires
        valid_width(w),
        valid_prefix(w, p),
        valid_prefix(w, q),
        !covers(w, p, q),
        !covers(w, q, p),
        is_longest_common(w, c1, p, q),
        is_longest_common(w, c2, p, q),
    ensures
        c2.1 <= c1.1,
{
    lemma_covers_refl(w, p);
    lemma_covers_refl(w, q);
    if c1.1 == p.1 {
        lemma_covers_common(w, c1, p, p);
        lemma_covers_antisym(w, c1, p);
    }
    if c1.1 == q.1 {
        lemma_covers_common(w, c1, q, q);
        lemma_covers_antisym(w, c1, q);
    }
    if c1.1 < c2.1 {
        lemma_network_fixed(w, c2.1 as u128, c2.0);
        assert(agree(w, p.0, q.0, c2.1 as u128));
        lemma_agree_shorter(w, p.0, q.0, c2.1 as u128, (c1.1 + 1) as u128);
    }
}

} // verus!

verus! {

/// The number of prefixes of lengths `lo..=hi` covered by a prefix of
/// length `n`: the sum of `2^(l - n)` over those lengths.
pub open spec fn lengths_count(n: u8, lo: int, hi: int) -> nat
    decreases hi - lo + 1,
{
    if hi < lo {
        0
    } else {
        lengths_count(n, lo, hi - 1) + pow2((hi - n) as nat)
    }
}

/// The number of members of the prefix range `r`.
pub open spec fn range_count(r: RangeModel) -> nat {
    lengths_count(r.0.1, r.1 as int, r.2 as int)
}

/// The member at position `k` of length `l` of a range, where the range
/// covers positions `span.0 ..= span.1` at that length, and the member that
/// follows it: the next position, the first position of the next length,
/// or none after the last position of the last length.
proof fn lemma_succ_position(w: u128, r: RangeModel, l: u8, k: u128)
    requires
        valid_width(w),
        valid_range(w, r),
        r.1 <= l <= r.2,
        span_at(w, r.0, l).0 <= k <= span_at(w, r.0, l).1,
    ensures
        in_range(w, r, (network_at(w, k, l), l)),
        k < span_at(w, r.0, l).1 ==> range_succ(w, r, (network_at(w, k, l), l)) == Some(
            (network_at(w, (k + 1) as u128, l), l),
        ),
        k == span_at(w, r.0, l).1 && l < r.2 ==> range_succ(w, r, (network_at(w, k, l), l)) == Some(
            (network_at(w, span_at(w, r.0, (l + 1) as u8).0, (l + 1) as u8), (l + 1) as u8),
        ),
        k == span_at(w, r.0, l).1 && l == r.2 ==> range_succ(w, r, (network_at(w, k, l), l)) is None,
{
    let base = r.0;
    let q = (network_at(w, k, l), l);
    lemma_hmask_longer(w, base.1 as u128, l as u128, base.0);
    lemma_span_at(w, base, base.0, l);
    lemma_network(w, k, l);
    lemma_span_at(w, base, q.0, l);
    if k < span_at(w, base, l).1 {
        let x = (network_at(w, (k + 1) as u128, l), l);
        lemma_network(w, (k + 1) as u128, l);
        lemma_span_at(w, base, x.0, l);
        lemma_index_order(w, q.0, x.0, l);
        lemma_range_succ_next(w, r, q, x);
        let s = range_succ(w, r, q)->0;
        lemma_index_order(w, q.0, s.0, l);
        lemma_index_order(w, s.0, x.0, l);
    } else if l < r.2 {
        let l1 = (l + 1) as u8;
        lemma_hmask_longer(w, base.1 as u128, l1 as u128, base.0);
        lemma_index(w, base.0, l1);
        let x = (network_at(w, span_at(w, base, l1).0, l1), l1);
        lemma_network_fixed(w, base.1 as u128, base.0);
        lemma_range_succ_next(w, r, q, x);
        let s = range_succ(w, r, q)->0;
        if s.1 == l {
            lemma_index_order(w, q.0, s.0, l);
            lemma_span_at(w, base, s.0, l);
        }
        lemma_fits(w, s.0);
        lemma_covers_interval(w, base, s.0);
    } else {
        lemma_sub_succ(w, base, q);
        if sub_succ(w, base, q) is Some {
            let s = sub_succ(w, base, q)->0;
            lemma_index_order(w, q.0, s.0, l);
            lemma_span_at(w, base, s.0, l);
        }
    }
}

/// The iteration of a range yields, after the members of the shorter
/// lengths, the members of length `l` in the order of their positions.
proof fn lemma_nth_at(w: u128, r: RangeModel, l: u8, t: int)
    requires
        valid_width(w),
        valid_range(w, r),
        r.1 <= l <= r.2,
        0 <= t <= low_bits((l - r.0.1) as u128),
    ensures
        span_at(w, r.0, l).0 + t <= span_at(w, r.0, l).1,
        range_nth(w, r, (lengths_count(r.0.1, r.1 as int, l - 1) + t) as nat) == Some(
            (network_at(w, (span_at(w, r.0, l).0 + t) as u128, l), l),
        ),
    decreases l, t,
{
    let base = r.0;
    let n = base.1;
    let sa = span_at(w, base, l).0;
    lemma_span_width(w, base, l);
    let m = (lengths_count(n, r.1 as int, l - 1) + t) as nat;
    if t > 0 {
        lemma_nth_at(w, r, l, t - 1);
        lemma_succ_position(w, r, l, (sa + t - 1) as u128);
        assert(range_nth(w, r, m) == match range_nth(w, r, (m - 1) as nat) {
            Some(q) => range_succ(w, r, q),
            None => None,
        });
    } else if l == r.1 {
        lemma_hmask_longer(w, n as u128, l as u128, base.0);
        lemma_index(w, base.0, l);
        lemma_network_fixed(w, l as u128, base.0);
        assert(range_nth(w, r, m) == Some(range_first(w, r)));
    } else {
        let l0 = (l - 1) as u8;
        let j0 = (l0 - n) as u128;
        lemma_span_width(w, base, l0);
        lemma_nth_at(w, r, l0, low_bits(j0) as int);
        lemma_low_pow2(j0 as nat);
        lemma_succ_position(w, r, l0, span_at(w, base, l0).1);
        assert(range_nth(w, r, m) == match range_nth(w, r, (m - 1) as nat) {
            Some(q) => range_succ(w, r, q),
            None => None,
        });
    }
}

/// An exhausted iteration stays exhausted.
proof fn lemma_nth_none(w: u128, r: RangeModel, k: nat, m: nat)
    requires
        range_nth(w, r, k) is None,
        k <= m,
    ensures
        range_nth(w, r, m) is None,
    decreases m - k,
{
    if k < m {
        lemma_nth_none(w, r, k, (m - 1) as nat);
    }
}

/// The iteration of a range yields exactly `Σ 2^(l - n)` members, the sum
/// over the lengths `l` of the range, where `n` is the length of the
/// covering prefix: step `k` yields a member exactly when `k` is below that
/// count.
pub proof fn lemma_range_count(w: u128, r: RangeModel)
    requires
        valid_width(w),
        valid_range(w, r),
    ensures
        range_count(r) > 0,
        forall|k: nat| (#[trigger] range_nth(w, r, k) is Some) <==> k < range_count(r),
{
    let hi = r.2;
    let j = (hi - r.0.1) as u128;
    lemma_nth_at(w, r, hi, low_bits(j) as int);
    lemma_low_pow2(j as nat);
    lemma_span_width(w, r.0, hi);
    let c = range_count(r);
    assert(c == lengths_count(r.0.1, r.1 as int, hi - 1) + low_bits(j) + 1);
    lemma_succ_position(w, r, hi, span_at(w, r.0, hi).1);
    assert(range_nth(w, r, c) is None);
    assert forall|k: nat| (#[trigger] range_nth(w, r, k) is Some) <==> k < c by {
        if k < c {
            if k < c - 1 {
                lemma_range_iteration(w, r, r.0);
            }
        } else {
            lemma_nth_none(w, r, c, k);
        }
    }
}

} // verus!
