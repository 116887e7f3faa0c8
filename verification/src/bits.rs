use vstd::prelude::*;

verus! {

/// All-ones value of an address family of width `w` bits (`w` is 32 or 128).
pub open spec fn ones(w: u128) -> u128 {
    if w == 32 {
        0xffff_ffffu128
    } else {
        u128::MAX
    }
}

/// Host-bits mask for prefix-length `l` in width `w`.
pub open spec fn hmask(w: u128, l: u128) -> u128 {
    if l >= w {
        0
    } else {
        ones(w) >> l
    }
}

/// Network-bits mask for prefix-length `l` in width `w`.
pub open spec fn nmask(w: u128, l: u128) -> u128 {
    ones(w) ^ hmask(w, l)
}

pub open spec fn valid_width(w: u128) -> bool {
    w == 32 || w == 128
}

pub proof fn lemma_masks(w: u128, l: u128, x: u128)
    by (bit_vector)
    requires
        w == 32 || w == 128,
        l <= w,
        x <= ones(w),
    ensures
        (x & nmask(w, l)) | (x & hmask(w, l)) == x,
        (x & nmask(w, l)) & hmask(w, l) == 0,
        x & nmask(w, l) <= ones(w),
        x | hmask(w, l) <= ones(w),
        x <= x | hmask(w, l),
        nmask(w, l) & hmask(w, l) == 0,
        hmask(w, l) == ones(w) >> l,
{
}

/// Host bits clear for a prefix-length `l` stay clear for a longer one.
pub proof fn lemma_hmask_longer(w: u128, l: u128, m: u128, x: u128)
    by (bit_vector)
    requires
        w == 32 || w == 128,
        l <= m <= w,
        x & hmask(w, l) == 0,
    ensures
        x & hmask(w, m) == 0,
{
}

/// Truncating to a length `m`, then to a shorter length `l`, is truncating to
/// `l`.
pub proof fn lemma_nmask_compose(w: u128, l: u128, m: u128, x: u128)
    by (bit_vector)
    requires
        w == 32 || w == 128,
        l <= m <= w,
    ensures
        (x & nmask(w, m)) & nmask(w, l) == x & nmask(w, l),
{
}

/// A network address is unchanged by truncation to its length.
pub proof fn lemma_network_fixed(w: u128, l: u128, n: u128)
    by (bit_vector)
    requires
        w == 32 || w == 128,
        l <= w,
        n <= ones(w),
        n & hmask(w, l) == 0,
    ensures
        n & nmask(w, l) == n,
{
}

/// Facts of a value that fits in the width `w`, and of the zero value.
pub proof fn lemma_fits(w: u128, x: u128)
    by (bit_vector)
    requires
        w == 32 || w == 128,
        x <= ones(w),
    ensures
        x & ones(w) == x,
        hmask(w, 0) == ones(w),
        0u128 & x == 0,
        x & 0u128 == 0,
        x >> 0u128 == x,
        0u128 >> x == 0,
{
}

/// Shifting right keeps the order of values.
pub proof fn lemma_shr_mono(n: u128, m: u128, s: u128)
    by (bit_vector)
    requires
        n <= m,
    ensures
        n >> s <= m >> s,
{
}

/// A value whose `s` low bits are clear is unchanged by shifting right, then
/// left, by `s`.
pub proof fn lemma_shr_shl(n: u128, s: u128)
    by (bit_vector)
    requires
        s < 128,
        n & (((1u128 << s) - 1) as u128) == 0,
    ensures
        (n >> s) << s == n,
{
}

/// Of a value whose `s` low bits are clear, shifting right by `s` reflects
/// the order.
pub proof fn lemma_shr_reflect(n: u128, m: u128, s: u128)
    by (bit_vector)
    requires
        s < 128,
        n & (((1u128 << s) - 1) as u128) == 0,
        n >> s <= m >> s,
    ensures
        n <= m,
{
}

/// Shifting left by `s` a value of at most `m >> s` stays at most `m`.
pub proof fn lemma_shl_bound(k: u128, m: u128, s: u128)
    by (bit_vector)
    requires
        s < 128,
        k <= m >> s,
    ensures
        k << s <= m,
{
}

/// Shifting left by `s` a value of at most `m >> s` loses no bit.
pub proof fn lemma_shl_shr(k: u128, m: u128, s: u128)
    by (bit_vector)
    requires
        s < 128,
        k <= m >> s,
    ensures
        (k << s) >> s == k,
{
}

/// Shifting left by `s` clears the `s` low bits.
pub proof fn lemma_shl_low(k: u128, s: u128)
    by (bit_vector)
    requires
        s < 128,
    ensures
        (k << s) & (((1u128 << s) - 1) as u128) == 0,
{
}

} // verus!

verus! {

/// Byte `i` (big-endian) of the `w`-bit value `v`.
pub open spec fn be_byte(v: u128, w: u128, i: int) -> u8 {
    (v >> ((w - 8 - 8 * i) as u128)) as u8
}

/// The big-endian byte sequence of the `w`-bit value `v`.
pub open spec fn be_bytes(v: u128, w: u128) -> Seq<u8> {
    Seq::new((w / 8) as nat, |i: int| be_byte(v, w, i))
}

proof fn lemma_shift_in_byte(r: u128, b: u8, s: u128)
    by (bit_vector)
    requires
        s <= 112,
        r >> 120u128 == 0,
    ensures
        (((r << 8u128) | (b as u128)) >> (s + 8)) as u8 == (r >> s) as u8,
{
}

proof fn lemma_shift_in_last(r: u128, b: u8, i: u128)
    by (bit_vector)
    requires
        i < 16,
        i == 0 ==> r == 0,
        0 < i ==> r >> (8 * i) == 0,
    ensures
        (((r << 8u128) | (b as u128)) >> 0u128) as u8 == b,
        i + 1 < 16 ==> ((r << 8u128) | (b as u128)) >> (8 * (i + 1)) == 0,
        i == 3 ==> ((r << 8u128) | (b as u128)) <= 0xffff_ffffu128,
        r >> 120u128 == 0,
{
}

/// The value of a big-endian byte sequence of 4 or 16 bytes.
pub fn be_value_of(o: &[u8]) -> (r: u128)
    requires
        o@.len() == 4 || o@.len() == 16,
    ensures
        r <= ones((8 * o@.len()) as u128),
        be_bytes(r, (8 * o@.len()) as u128) == o@,
{
    let n = o.len();
    let mut r: u128 = 0;
    let mut i: usize = 0;
    while i < n
        invariant
            n == o@.len(),
            n == 4 || n == 16,
            i <= n,
            i == 0 ==> r == 0,
            0 < i < 16 ==> r >> (8 * i as u128) == 0,
            i == 4 ==> r <= 0xffff_ffffu128,
            forall|j: int| 0 <= j < i ==> #[trigger] (r >> ((8 * (i - 1 - j)) as u128)) as u8 == o@[j],
        decreases n - i,
    {
        let b = o[i];
        let ghost old_r = r;
        r = (r << 8u32) | (b as u128);
        proof {
            lemma_shift_in_last(old_r, b, i as u128);
            assert forall|j: int| 0 <= j < i + 1 implies #[trigger] (r >> ((8 * (i + 1 - 1 - j)) as u128)) as u8 == o@[j] by {
                if j < i {
                    lemma_shift_in_byte(old_r, b, (8 * (i - 1 - j)) as u128);
                    assert((8 * (i + 1 - 1 - j)) as u128 == (8 * (i - 1 - j)) as u128 + 8);
                } else {
                    assert((8 * (i + 1 - 1 - j)) as u128 == 0u128);
                }
            }
        }
        i = i + 1;
    }
    proof {
        let w = (8 * n) as u128;
        assert forall|j: int| 0 <= j < n implies be_byte(r, w, j) == o@[j] by {
            assert((w - 8 - 8 * j) as u128 == (8 * (n - 1 - j)) as u128);
        }
        assert(be_bytes(r, w) =~= o@);
    }
    r
}

} // verus!

verus! {

pub proof fn lemma_bitops_bound(w: u128, x: u128, y: u128)
    by (bit_vector)
    requires
        w == 32 || w == 128,
        x <= ones(w),
        y <= ones(w),
    ensures
        x & y <= ones(w),
        x | y <= ones(w),
        x ^ y <= ones(w),
        !x & ones(w) <= ones(w),
        x & y <= x,
{
}

pub proof fn lemma_shifts_bound(w: u128, x: u128, l: u128)
    by (bit_vector)
    requires
        w == 32 || w == 128,
        x <= ones(w),
        l < w,
    ensures
        (x << l) & ones(w) <= ones(w),
        x >> l <= ones(w),
        ones(w) >> l == hmask(w, l),
{
}

pub proof fn lemma_netmask_shift(w: u128, l: u128)
    by (bit_vector)
    requires
        w == 32 || w == 128,
        0 < l <= w,
    ensures
        (ones(w) << ((w - l) as u128)) & ones(w) == nmask(w, l),
{
}

pub proof fn lemma_mask_ends(w: u128)
    by (bit_vector)
    requires
        w == 32 || w == 128,
    ensures
        nmask(w, 0) == 0,
        hmask(w, 0) == ones(w),
        nmask(w, w) == ones(w),
        hmask(w, w) == 0,
{
}

} // verus!


verus! {

/// Segment `i` (big-endian, 16 bits) of a 128-bit value.
pub open spec fn be_segment(v: u128, i: int) -> u16 {
    (v >> ((112 - 16 * i) as u128)) as u16
}

/// The eight big-endian 16-bit segments of a 128-bit value.
pub open spec fn be_segments(v: u128) -> Seq<u16> {
    Seq::new(8, |i: int| be_segment(v, i))
}

proof fn lemma_shift_in_segment(r: u128, b: u16, s: u128)
    by (bit_vector)
    requires
        s <= 96,
        r >> 112u128 == 0,
    ensures
        (((r << 16u128) | (b as u128)) >> (s + 16)) as u16 == (r >> s) as u16,
{
}

proof fn lemma_shift_in_last_segment(r: u128, b: u16, i: u128)
    by (bit_vector)
    requires
        i < 8,
        i == 0 ==> r == 0,
        0 < i ==> r >> (16 * i) == 0,
    ensures
        (((r << 16u128) | (b as u128)) >> 0u128) as u16 == b,
        i + 1 < 8 ==> ((r << 16u128) | (b as u128)) >> (16 * (i + 1)) == 0,
        r >> 112u128 == 0,
{
}

/// The 128-bit value of eight big-endian 16-bit segments.
pub fn be_value_of_segments(g: &[u16]) -> (r: u128)
    requires
        g@.len() == 8,
    ensures
        be_segments(r) == g@,
{
    let mut r: u128 = 0;
    let mut i: usize = 0;
    while i < 8
        invariant
            g@.len() == 8,
            i <= 8,
            i == 0 ==> r == 0,
            0 < i < 8 ==> r >> (16 * i as u128) == 0,
            forall|j: int| 0 <= j < i ==> #[trigger] (r >> ((16 * (i - 1 - j)) as u128)) as u16 == g@[j],
        decreases 8 - i,
    {
        let b = g[i];
        let ghost old_r = r;
        r = (r << 16u32) | (b as u128);
        proof {
            lemma_shift_in_last_segment(old_r, b, i as u128);
            assert forall|j: int| 0 <= j < i + 1 implies #[trigger] (r >> ((16 * (i + 1 - 1 - j)) as u128)) as u16 == g@[j] by {
                if j < i {
                    lemma_shift_in_segment(old_r, b, (16 * (i - 1 - j)) as u128);
                    assert((16 * (i + 1 - 1 - j)) as u128 == (16 * (i - 1 - j)) as u128 + 16);
                } else {
                    assert((16 * (i + 1 - 1 - j)) as u128 == 0u128);
                }
            }
        }
        i = i + 1;
    }
    proof {
        assert forall|j: int| 0 <= j < 8 implies be_segment(r, j) == g@[j] by {
            assert((112 - 16 * j) as u128 == (16 * (8 - 1 - j)) as u128);
        }
        assert(be_segments(r) =~= g@);
    }
    r
}

} // verus!

verus! {

/// A value of at most `w` bits is determined by its big-endian bytes.
pub proof fn lemma_be_bytes_injective(a: u128, b: u128, w: u128)
    requires
        valid_width(w),
        a <= ones(w),
        b <= ones(w),
        be_bytes(a, w) == be_bytes(b, w),
    ensures
        a == b,
{
    if w == 32 {
        assert forall|i: int| 0 <= i < 4 implies be_byte(a, 32, i) == be_byte(b, 32, i) by {
            assert(be_bytes(a, 32)[i] == be_bytes(b, 32)[i]);
        }
        assert(be_byte(a, 32, 0) == be_byte(b, 32, 0));
        assert(be_byte(a, 32, 1) == be_byte(b, 32, 1));
        assert(be_byte(a, 32, 2) == be_byte(b, 32, 2));
        assert(be_byte(a, 32, 3) == be_byte(b, 32, 3));
        assert(a == b) by (bit_vector)
            requires
                a <= 0xffff_ffffu128,
                b <= 0xffff_ffffu128,
                (a >> 24u128) as u8 == (b >> 24u128) as u8,
                (a >> 16u128) as u8 == (b >> 16u128) as u8,
                (a >> 8u128) as u8 == (b >> 8u128) as u8,
                (a >> 0u128) as u8 == (b >> 0u128) as u8,
        ;
    } else {
        assert forall|i: int| 0 <= i < 16 implies be_byte(a, 128, i) == be_byte(b, 128, i) by {
            assert(be_bytes(a, 128)[i] == be_bytes(b, 128)[i]);
        }
        assert(be_byte(a, 128, 0) == be_byte(b, 128, 0));
        assert(be_byte(a, 128, 1) == be_byte(b, 128, 1));
        assert(be_byte(a, 128, 2) == be_byte(b, 128, 2));
        assert(be_byte(a, 128, 3) == be_byte(b, 128, 3));
        assert(be_byte(a, 128, 4) == be_byte(b, 128, 4));
        assert(be_byte(a, 128, 5) == be_byte(b, 128, 5));
        assert(be_byte(a, 128, 6) == be_byte(b, 128, 6));
        assert(be_byte(a, 128, 7) == be_byte(b, 128, 7));
        assert(be_byte(a, 128, 8) == be_byte(b, 128, 8));
        assert(be_byte(a, 128, 9) == be_byte(b, 128, 9));
        assert(be_byte(a, 128, 10) == be_byte(b, 128, 10));
        assert(be_byte(a, 128, 11) == be_byte(b, 128, 11));
        assert(be_byte(a, 128, 12) == be_byte(b, 128, 12));
        assert(be_byte(a, 128, 13) == be_byte(b, 128, 13));
        assert(be_byte(a, 128, 14) == be_byte(b, 128, 14));
        assert(be_byte(a, 128, 15) == be_byte(b, 128, 15));
        assert(a == b) by (bit_vector)
            requires
                (a >> 120u128) as u8 == (b >> 120u128) as u8,
                (a >> 112u128) as u8 == (b >> 112u128) as u8,
                (a >> 104u128) as u8 == (b >> 104u128) as u8,
                (a >> 96u128) as u8 == (b >> 96u128) as u8,
                (a >> 88u128) as u8 == (b >> 88u128) as u8,
                (a >> 80u128) as u8 == (b >> 80u128) as u8,
                (a >> 72u128) as u8 == (b >> 72u128) as u8,
                (a >> 64u128) as u8 == (b >> 64u128) as u8,
                (a >> 56u128) as u8 == (b >> 56u128) as u8,
                (a >> 48u128) as u8 == (b >> 48u128) as u8,
                (a >> 40u128) as u8 == (b >> 40u128) as u8,
                (a >> 32u128) as u8 == (b >> 32u128) as u8,
                (a >> 24u128) as u8 == (b >> 24u128) as u8,
                (a >> 16u128) as u8 == (b >> 16u128) as u8,
                (a >> 8u128) as u8 == (b >> 8u128) as u8,
                (a >> 0u128) as u8 == (b >> 0u128) as u8,
        ;
    }
}

/// A 128-bit value is determined by its eight big-endian segments.
pub proof fn lemma_be_segments_injective(a: u128, b: u128)
    requires
        be_segments(a) == be_segments(b),
    ensures
        a == b,
{
    assert forall|i: int| 0 <= i < 8 implies be_segment(a, i) == be_segment(b, i) by {
        assert(be_segments(a)[i] == be_segments(b)[i]);
        assert(be_segments(a)[i] == be_segment(a, i));
        assert(be_segments(b)[i] == be_segment(b, i));
    }
    assert(be_segment(a, 0) == be_segment(b, 0));
    assert(be_segment(a, 1) == be_segment(b, 1));
    assert(be_segment(a, 2) == be_segment(b, 2));
    assert(be_segment(a, 3) == be_segment(b, 3));
    assert(be_segment(a, 4) == be_segment(b, 4));
    assert(be_segment(a, 5) == be_segment(b, 5));
    assert(be_segment(a, 6) == be_segment(b, 6));
    assert(be_segment(a, 7) == be_segment(b, 7));
    assert(a == b) by (bit_vector)
        requires
            (a >> 112u128) as u16 == (b >> 112u128) as u16,
            (a >> 96u128) as u16 == (b >> 96u128) as u16,
            (a >> 80u128) as u16 == (b >> 80u128) as u16,
            (a >> 64u128) as u16 == (b >> 64u128) as u16,
            (a >> 48u128) as u16 == (b >> 48u128) as u16,
            (a >> 32u128) as u16 == (b >> 32u128) as u16,
            (a >> 16u128) as u16 == (b >> 16u128) as u16,
            (a >> 0u128) as u16 == (b >> 0u128) as u16,
    ;
}

/// The `w`-bit value whose big-endian bytes are `o`.
pub open spec fn value_of_bytes(o: Seq<u8>, w: u128) -> u128 {
    choose|v: u128| v <= ones(w) && be_bytes(v, w) == o
}

/// The 128-bit value whose big-endian segments are `g`.
pub open spec fn value_of_segments(g: Seq<u16>) -> u128 {
    choose|v: u128| be_segments(v) == g
}

pub proof fn lemma_value_of_bytes(v: u128, w: u128)
    requires
        valid_width(w),
        v <= ones(w),
    ensures
        value_of_bytes(be_bytes(v, w), w) == v,
{
    let c = value_of_bytes(be_bytes(v, w), w);
    lemma_be_bytes_injective(c, v, w);
}

pub proof fn lemma_value_of_segments(v: u128)
    ensures
        value_of_segments(be_segments(v)) == v,
{
    let c = value_of_segments(be_segments(v));
    lemma_be_segments_injective(c, v);
}

} // verus!
