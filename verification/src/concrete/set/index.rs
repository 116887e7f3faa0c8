use vstd::prelude::*;

use crate::bits::{
    hmask, lemma_fits, lemma_hmask_longer, lemma_masks, lemma_shl_bound, lemma_shl_low, lemma_shl_shr,
    lemma_shr_mono, lemma_shr_reflect, lemma_shr_shl, nmask, ones, valid_width,
};
use crate::model::{
    covers, lemma_covers_antisym, lemma_covers_common, lemma_covers_interval, valid_prefix, PrefixModel,
};
use vstd::arithmetic::power2::{lemma2_to64, lemma_pow2_unfold, pow2};

verus! {

/// The position of the network `n` among the prefixes of length `l`, in
/// address order.
pub open spec fn index_of(w: u128, n: u128, l: u8) -> u128 {
    if l == 0 {
        0
    } else {
        n >> ((w - l) as u128)
    }
}

/// The network of the prefix of length `l` at position `k`.
pub open spec fn network_at(w: u128, k: u128, l: u8) -> u128 {
    if l == 0 {
        0
    } else {
        k << ((w - l) as u128)
    }
}

/// The position of the last prefix of length `l`.
pub open spec fn last_index(w: u128, l: u8) -> u128 {
    if l == 0 {
        0
    } else {
        ones(w) >> ((w - l) as u128)
    }
}

/// The first and last positions, among the prefixes of length `l`, of those
/// covered by `p`.
pub open spec fn span_at(w: u128, p: PrefixModel, l: u8) -> (u128, u128) {
    (index_of(w, p.0, l), index_of(w, p.0 | hmask(w, p.1 as u128), l))
}

/// The mask of the `s` low bits.
proof fn lemma_low_mask(w: u128, s: u128)
    requires
        valid_width(w),
        s < w,
    ensures
        ones(w) >> ((w - s) as u128) == (1u128 << s) - 1,
        s < 128,
{
    let o = ones(w);
    assert(o >> ((w - s) as u128) == (1u128 << s) - 1) by (bit_vector)
        requires
            w == 32 || w == 128,
            s < w,
            o == ones(w),
    ;
}

/// A prefix is found again at its position.
pub proof fn lemma_index(w: u128, n: u128, l: u8)
    requires
        valid_width(w),
        valid_prefix(w, (n, l)),
    ensures
        network_at(w, index_of(w, n, l), l) == n,
        index_of(w, n, l) <= last_index(w, l),
{
    if l == 0 {
        lemma_fits(w, n);
    } else {
        let s = (w - l) as u128;
        let o = ones(w);
        lemma_low_mask(w, s);
        lemma_masks(w, l as u128, n);
        assert((w - s) as u128 == l as u128);
        lemma_shr_shl(n, s);
        lemma_shr_mono(n, o, s);
    }
}

/// Each position names a prefix, at which it is found again.
pub proof fn lemma_network(w: u128, k: u128, l: u8)
    requires
        valid_width(w),
        l as u128 <= w,
        k <= last_index(w, l),
    ensures
        valid_prefix(w, (network_at(w, k, l), l)),
        index_of(w, network_at(w, k, l), l) == k,
{
    if l == 0 {
        lemma_fits(w, ones(w));
    } else {
        let s = (w - l) as u128;
        let o = ones(w);
        lemma_low_mask(w, s);
        lemma_masks(w, l as u128, 0);
        assert((w - s) as u128 == l as u128);
        lemma_shl_bound(k, o, s);
        lemma_shl_low(k, s);
        lemma_shl_shr(k, o, s);
    }
}

/// Positions follow the order of networks.
pub proof fn lemma_index_order(w: u128, n: u128, m: u128, l: u8)
    requires
        valid_width(w),
        valid_prefix(w, (n, l)),
        valid_prefix(w, (m, l)),
    ensures
        (n <= m) == (index_of(w, n, l) <= index_of(w, m, l)),
        (n == m) == (index_of(w, n, l) == index_of(w, m, l)),
{
    lemma_index(w, n, l);
    lemma_index(w, m, l);
    if l == 0 {
        assert(n == 0 && m == 0);
    } else {
        let s = (w - l) as u128;
        let ll = l as u128;
        lemma_low_mask(w, s);
        lemma_masks(w, ll, n);
        assert((w - s) as u128 == ll);
        if n <= m {
            lemma_shr_mono(n, m, s);
        }
        if n >> s <= m >> s {
            lemma_shr_reflect(n, m, s);
        }
    }
}

/// The prefixes of length `l` covered by `p` are those between the two
/// positions of [`span_at`].
pub proof fn lemma_span_at(w: u128, p: PrefixModel, n: u128, l: u8)
    requires
        valid_width(w),
        valid_prefix(w, p),
        p.1 <= l,
        valid_prefix(w, (n, l)),
    ensures
        covers(w, p, (n, l)) == (span_at(w, p, l).0 <= index_of(w, n, l) <= span_at(w, p, l).1),
        span_at(w, p, l).0 <= span_at(w, p, l).1 <= last_index(w, l),
{
    lemma_covers_interval(w, p, n);
    let a = p.0;
    let pl = p.1 as u128;
    let x = a | hmask(w, pl);
    lemma_masks(w, pl, a);
    if l == 0 {
        lemma_fits(w, n);
        lemma_fits(w, a);
    } else {
        let s = (w - l) as u128;
        let ll = l as u128;
        let o = ones(w);
        lemma_hmask_longer(w, pl, ll, a);
        lemma_low_mask(w, s);
        lemma_masks(w, ll, n);
        assert((w - s) as u128 == ll);
        if a <= n {
            lemma_shr_mono(a, n, s);
        }
        if a >> s <= n >> s {
            lemma_shr_reflect(a, n, s);
        }
        if n <= x {
            lemma_shr_mono(n, x, s);
        }
        if n >> s <= x >> s {
            lemma_shr_reflect(n, x, s);
        }
        lemma_shr_mono(a, x, s);
        lemma_shr_mono(x, o, s);
    }
}

} // verus!

verus! {

/// The mask of the `j` low bits (`j <= 128`).
pub open spec fn low_bits(j: u128) -> u128 {
    if j >= 128 {
        u128::MAX
    } else {
        ((1u128 << j) - 1) as u128
    }
}

/// The positions `k ..= k + low_bits(j)` of length `l`, with `k` a multiple
/// of `2^j`, are those of the prefixes of length `l` covered by a single
/// prefix of length `l - j`.
#[verifier::rlimit(50)]
pub proof fn lemma_block(w: u128, l: u8, k: u128, j: u128)
    requires
        valid_width(w),
        j <= l as u128 <= w,
        k & low_bits(j) == 0,
        k + low_bits(j) <= last_index(w, l),
    ensures
        valid_prefix(w, (network_at(w, k, l), (l - j) as u8)),
        span_at(w, (network_at(w, k, l), (l - j) as u8), l) == (k, (k + low_bits(j)) as u128),
{
    let p = (network_at(w, k, l), (l - j) as u8);
    let pl = (l - j) as u128;
    if l == 0 {
        assert(k == 0);
        lemma_fits(w, ones(w));
    } else {
        let s = (w - l) as u128;
        let o = ones(w);
        let x = k << s;
        let h = hmask(w, pl);
        lemma_masks(w, pl, 0);
        assert((w - s - j) as u128 == pl);
        assert(h == o >> ((w - s - j) as u128));
        if w == 32 {
            assert(x <= o && x & h == 0 && x >> s == k && (x | h) >> s == k + low_bits(j)) by (bit_vector)
                requires
                    o == 0xffff_ffffu128,
                    s < 32,
                    j <= 32 - s,
                    x == k << s,
                    h == o >> ((32 - s - j) as u128),
                    k & low_bits(j) == 0,
                    k + low_bits(j) <= o >> s,
            ;
        } else {
            assert(x <= o && x >> s == k) by (bit_vector)
                requires
                    o == u128::MAX,
                    s < 128,
                    x == k << s,
                    k <= o >> s,
            ;
            assert(x & h == 0) by (bit_vector)
                requires
                    s < 128,
                    j <= 128 - s,
                    x == k << s,
                    h == u128::MAX >> ((128 - s - j) as u128),
                    k & low_bits(j) == 0,
            ;
            assert((x | h) >> s == k | low_bits(j)) by (bit_vector)
                requires
                    s < 128,
                    j <= 128 - s,
                    x == k << s,
                    k <= u128::MAX >> s,
                    h == u128::MAX >> ((128 - s - j) as u128),
            ;
            assert(k | low_bits(j) == k + low_bits(j)) by (bit_vector)
                requires
                    j <= 128,
                    k & low_bits(j) == 0,
            ;
        }
    }
}

} // verus!

verus! {

/// The first position of the aligned block of `2^t` positions holding `k`.
pub open spec fn block_start(k: u128, t: u128) -> u128 {
    k & !low_bits(t)
}

/// The aligned block of `2^t` positions holding `k` starts at an aligned
/// position and holds `k`; it starts at `k` exactly when `k` is aligned.
pub proof fn lemma_block_start(k: u128, t: u128)
    by (bit_vector)
    requires
        t <= 128,
    ensures
        block_start(k, t) & low_bits(t) == 0,
        block_start(k, t) <= k,
        k <= block_start(k, t) + low_bits(t),
        (block_start(k, t) == k) == (k & low_bits(t) == 0),
{
}

/// The position `k2` right after the aligned block of `2^j` positions
/// starting at `k` is aligned at `2^j`; a larger aligned block holding `k2`
/// that starts before it also holds `k`.
pub proof fn lemma_block_step(k: u128, j: u128, t: u128, k2: u128)
    by (bit_vector)
    requires
        j <= 128,
        t <= 128,
        k & low_bits(j) == 0,
        k2 == k + low_bits(j) + 1,
    ensures
        t <= j ==> block_start(k2, t) == k2,
        (j < t && block_start(k2, t) < k2) ==> block_start(k2, t) == block_start(k, t),
{
}

/// Masks of fewer low bits are smaller, and alignment to a larger block
/// implies alignment to a smaller one; the only aligned position within the
/// first block is zero; one more low bit doubles a block.
pub proof fn lemma_low_sub(k: u128, s: u128, t: u128)
    by (bit_vector)
    requires
        s <= t <= 128,
    ensures
        low_bits(s) <= low_bits(t),
        k & low_bits(t) == 0 ==> k & low_bits(s) == 0,
        (k & low_bits(t) == 0 && k <= low_bits(t)) ==> k == 0,
        t < 128 ==> low_bits((t + 1) as u128) == 2 * low_bits(t) + 1,
{
}

/// The last position of length `l` is the mask of the `l` low bits.
pub proof fn lemma_last_low(w: u128, l: u8)
    by (bit_vector)
    requires
        w == 32 || w == 128,
        l as u128 <= w,
    ensures
        last_index(w, l) == low_bits(l as u128),
{
}

/// An aligned block holding a position below `2^l` lies below `2^l`.
pub proof fn lemma_block_within(k: u128, t: u128, l: u128)
    by (bit_vector)
    requires
        t <= l <= 128,
        k <= low_bits(l),
    ensures
        block_start(k, t) + low_bits(t) <= low_bits(l),
{
}

} // verus!

verus! {

/// The mask of the `j` low bits is one less than `2^j`.
pub proof fn lemma_low_pow2(j: nat)
    requires
        j <= 128,
    ensures
        low_bits(j as u128) + 1 == pow2(j),
    decreases j,
{
    if j == 0 {
        lemma_last_low(32, 0);
        lemma2_to64();
    } else {
        lemma_low_pow2((j - 1) as nat);
        lemma_low_sub(0, 0, (j - 1) as u128);
        lemma_pow2_unfold(j);
    }
}

/// A prefix of length `n` covers, at a length `l`, the `2^(l - n)`
/// consecutive positions of [`span_at`].
pub proof fn lemma_span_width(w: u128, base: PrefixModel, l: u8)
    requires
        valid_width(w),
        valid_prefix(w, base),
        base.1 <= l,
        l as u128 <= w,
    ensures
        span_at(w, base, l).1 == span_at(w, base, l).0 + low_bits((l - base.1) as u128),
{
    let j = (l - base.1) as u128;
    let q = (base.0, l);
    lemma_hmask_longer(w, base.1 as u128, l as u128, base.0);
    lemma_index(w, base.0, l);
    let k = index_of(w, base.0, l);
    lemma_block_start(k, j);
    let bs = block_start(k, j);
    lemma_last_low(w, l);
    lemma_block_within(k, j, l as u128);
    lemma_block(w, l, bs, j);
    let p2 = (network_at(w, bs, l), (l - j) as u8);
    lemma_span_at(w, p2, base.0, l);
    crate::bits::lemma_network_fixed(w, base.1 as u128, base.0);
    lemma_covers_common(w, p2, base, q);
    lemma_covers_antisym(w, p2, base);
}

} // verus!
