use vstd::prelude::*;

use super::grammar::{
    colon_groups, dec_number, dec_value, find_byte, first_dc, h16, h16_all, hex_digit, hex_value,
    ipv4_groups, ipv4_octets, ipv6_segments, is_dec_digit, lemma_find_byte, lemma_h16_all, split,
    tail_groups,
};

verus! {

/// The first occurrence is found wherever it lies.
pub proof fn lemma_find_byte_at(t: Seq<u8>, c: u8, i: int)
    requires
        0 <= i <= t.len(),
        forall|k: int| 0 <= k < i ==> t[k] != c,
        i < t.len() ==> t[i] == c,
    ensures
        i < t.len() ==> find_byte(t, c) == Some(i),
        i == t.len() ==> find_byte(t, c) is None,
    decreases t.len(),
{
    if t.len() > 0 && i > 0 {
        assert forall|k: int| 0 <= k < i - 1 implies t.drop_first()[k] != c by {
            assert(t.drop_first()[k] == t[k + 1]);
        }
        if i < t.len() {
            assert(t.drop_first()[i - 1] == t[i]);
        }
        lemma_find_byte_at(t.drop_first(), c, i - 1);
    }
}

/// Splitting a string at its first separator.
pub proof fn lemma_split_first(t: Seq<u8>, c: u8, i: int)
    requires
        0 <= i <= t.len(),
        forall|k: int| 0 <= k < i ==> t[k] != c,
        i < t.len() ==> t[i] == c,
    ensures
        i < t.len() ==> split(t, c) == seq![t.take(i)] + split(t.skip(i + 1), c),
        i == t.len() ==> split(t, c) == seq![t],
        split(t, c).len() >= 1,
        split(t, c)[0] == t.take(i),
{
    lemma_find_byte_at(t, c, i);
    if i == t.len() {
        assert(t.take(i) =~= t);
    }
}

/// Every split has at least one piece.
pub proof fn lemma_split_nonempty(t: Seq<u8>, c: u8)
    ensures
        split(t, c).len() >= 1,
{
    lemma_find_byte(t, c);
}

/// Index of the first `c` in `s[lo..hi]`, or `hi` if there is none.
pub fn find_in(s: &[u8], lo: usize, hi: usize, c: u8) -> (r: usize)
    requires
        lo <= hi <= s@.len(),
    ensures
        lo <= r <= hi,
        forall|k: int| lo <= k < r ==> s@[k] != c,
        r < hi ==> s@[r as int] == c,
{
    let mut i = lo;
    while i < hi
        invariant
            lo <= i <= hi <= s@.len(),
            forall|k: int| lo <= k < i ==> s@[k] != c,
        decreases hi - i,
    {
        if s[i] == c {
            return i;
        }
        i = i + 1;
    }
    i
}

/// Parse a decimal number of `s[lo..hi]`.
pub fn parse_dec(s: &[u8], lo: usize, hi: usize) -> (r: Option<u8>)
    requires
        lo <= hi <= s@.len(),
    ensures
        r == dec_number(s@.subrange(lo as int, hi as int)),
{
    let ghost t = s@.subrange(lo as int, hi as int);
    let n = hi - lo;
    if n < 1 || n > 3 {
        return None;
    }
    if n > 1 && s[lo] == 48 {
        return None;
    }
    let mut v: u32 = 0;
    let mut i = lo;
    while i < hi
        invariant
            lo <= i <= hi <= s@.len(),
            t == s@.subrange(lo as int, hi as int),
            1 <= hi - lo <= 3,
            forall|k: int| 0 <= k < i - lo ==> is_dec_digit(#[trigger] t[k]),
            v == dec_value(t.take(i - lo)),
            i - lo == 0 ==> v == 0,
            i - lo == 1 ==> v < 10,
            i - lo == 2 ==> v < 100,
            i - lo == 3 ==> v < 1000,
        decreases hi - i,
    {
        let c = s[i];
        if c < 48 || c > 57 {
            assert(!is_dec_digit(t[i - lo]));
            return None;
        }
        proof {
            assert(t.take(i - lo + 1).drop_last() =~= t.take(i - lo));
        }
        v = v * 10 + (c - 48) as u32;
        i = i + 1;
    }
    proof {
        assert(t.take(hi - lo) =~= t);
    }
    if v > 255 {
        None
    } else {
        Some(v as u8)
    }
}

/// Parse a group of hexadecimal digits of `s[lo..hi]`.
pub fn parse_h16(s: &[u8], lo: usize, hi: usize) -> (r: Option<u16>)
    requires
        lo <= hi <= s@.len(),
    ensures
        r == h16(s@.subrange(lo as int, hi as int)),
{
    let ghost t = s@.subrange(lo as int, hi as int);
    let n = hi - lo;
    if n < 1 || n > 4 {
        return None;
    }
    let mut v: u32 = 0;
    let mut i = lo;
    while i < hi
        invariant
            lo <= i <= hi <= s@.len(),
            t == s@.subrange(lo as int, hi as int),
            1 <= hi - lo <= 4,
            forall|k: int| 0 <= k < i - lo ==> (#[trigger] hex_digit(t[k])) is Some,
            v == hex_value(t.take(i - lo)),
            i - lo == 0 ==> v == 0,
            i - lo == 1 ==> v < 16,
            i - lo == 2 ==> v < 256,
            i - lo == 3 ==> v < 4096,
            i - lo == 4 ==> v < 65536,
        decreases hi - i,
    {
        let c = s[i];
        let d: u32 = if 48 <= c && c <= 57 {
            (c - 48) as u32
        } else if 97 <= c && c <= 102 {
            (c - 87) as u32
        } else if 65 <= c && c <= 70 {
            (c - 55) as u32
        } else {
            assert(hex_digit(t[i - lo]) is None);
            return None;
        };
        proof {
            assert(t.take(i - lo + 1).drop_last() =~= t.take(i - lo));
        }
        v = v * 16 + d;
        i = i + 1;
    }
    proof {
        assert(t.take(hi - lo) =~= t);
    }
    Some(v as u16)
}

/// Parse the four dotted decimal octets of an IPv4 address in `s[lo..hi]`.
pub fn parse_ipv4_octets(s: &[u8], lo: usize, hi: usize) -> (r: Option<[u8; 4]>)
    requires
        lo <= hi <= s@.len(),
    ensures
        match ipv4_octets(s@.subrange(lo as int, hi as int)) {
            Some(o) => r matches Some(a) && a@ == o,
            None => r is None,
        },
{
    let ghost t = s@.subrange(lo as int, hi as int);
    let mut out = [0u8; 4];
    let mut pos = lo;
    let mut k: usize = 0;
    let ghost mut done: Seq<Seq<u8>> = seq![];
    proof {
        assert(t =~= s@.subrange(pos as int, hi as int));
        assert(split(t, 46) =~= done + split(s@.subrange(pos as int, hi as int), 46));
    }
    while k < 4
        invariant
            lo <= pos <= hi <= s@.len(),
            t == s@.subrange(lo as int, hi as int),
            k <= 4,
            done.len() == k,
            out@.len() == 4,
            k < 4 ==> split(t, 46) == done + split(s@.subrange(pos as int, hi as int), 46),
            k == 4 ==> split(t, 46) == done,
            forall|j: int| 0 <= j < k ==> dec_number(#[trigger] done[j]) == Some(out@[j]),
        decreases 4 - k,
    {
        let ghost rest = s@.subrange(pos as int, hi as int);
        let j = find_in(s, pos, hi, 46);
        proof {
            assert forall|m: int| 0 <= m < j - pos implies rest[m] != 46 by {
                assert(rest[m] == s@[pos + m]);
            }
            if j < hi {
                assert(rest[j - pos] == s@[j as int]);
            }
            lemma_split_first(rest, 46, j - pos);
            assert(rest.take(j - pos) =~= s@.subrange(pos as int, j as int));
            if j < hi {
                assert(rest.skip(j - pos + 1) =~= s@.subrange(j + 1, hi as int));
                lemma_split_nonempty(s@.subrange(j + 1, hi as int), 46);
            }
        }
        if k < 3 && j == hi {
            assert(split(t, 46).len() == k + 1);
            return None;
        }
        if k == 3 && j < hi {
            assert(split(t, 46).len() >= 5);
            return None;
        }
        match parse_dec(s, pos, j) {
            Some(o) => {
                out[k] = o;
                proof {
                    done = done.push(s@.subrange(pos as int, j as int));
                    if k < 3 {
                        assert(split(t, 46) =~= done + split(s@.subrange(j + 1, hi as int), 46));
                    } else {
                        assert(split(t, 46) =~= done);
                    }
                }
                pos = if j < hi {
                    j + 1
                } else {
                    j
                };
                k = k + 1;
            },
            None => {
                assert(split(t, 46)[k as int] == s@.subrange(pos as int, j as int));
                return None;
            },
        }
    }
    proof {
        assert(Seq::new(4, |i: int| dec_number(split(t, 46)[i])->0) =~= out@);
    }
    Some(out)
}

} // verus!

verus! {

/// The model of an optional vector of groups.
pub open spec fn opt_groups(r: Option<Vec<u16>>) -> Option<Seq<u16>> {
    match r {
        Some(v) => Some(v@),
        None => None,
    }
}

/// Parse the colon separated groups of `s[lo..hi]`; when `tail` holds, the
/// last piece may be an embedded IPv4 address.
pub fn parse_groups(s: &[u8], lo: usize, hi: usize, tail: bool) -> (r: Option<Vec<u16>>)
    requires
        lo <= hi <= s@.len(),
    ensures
        tail ==> opt_groups(r) == tail_groups(colon_groups(s@.subrange(lo as int, hi as int))),
        !tail ==> opt_groups(r) == h16_all(colon_groups(s@.subrange(lo as int, hi as int))),
        r matches Some(v) ==> v@.len() <= hi - lo + 1,
{
    let ghost t = s@.subrange(lo as int, hi as int);
    let mut out: Vec<u16> = Vec::new();
    if lo == hi {
        return Some(out);
    }
    let mut pos = lo;
    let ghost mut done: Seq<Seq<u8>> = seq![];
    proof {
        assert(t =~= s@.subrange(pos as int, hi as int));
        assert(split(t, 58) =~= done + split(s@.subrange(pos as int, hi as int), 58));
    }
    loop
        invariant
            lo < hi <= s@.len(),
            lo <= pos <= hi,
            t == s@.subrange(lo as int, hi as int),
            split(t, 58) == done + split(s@.subrange(pos as int, hi as int), 58),
            h16_all(done) == Some(out@),
            out@.len() <= pos - lo,
            pos > lo ==> out@.len() < pos - lo,
        decreases hi - pos,
    {
        let ghost rest = s@.subrange(pos as int, hi as int);
        let j = find_in(s, pos, hi, 58);
        proof {
            assert forall|m: int| 0 <= m < j - pos implies rest[m] != 58 by {
                assert(rest[m] == s@[pos + m]);
            }
            if j < hi {
                assert(rest[j - pos] == s@[j as int]);
            }
            lemma_split_first(rest, 58, j - pos);
            assert(rest.take(j - pos) =~= s@.subrange(pos as int, j as int));
            if j < hi {
                assert(rest.skip(j - pos + 1) =~= s@.subrange(j + 1, hi as int));
            }
            lemma_h16_all(done);
        }
        let piece = parse_h16(s, pos, j);
        if j < hi {
            match piece {
                Some(x) => {
                    proof {
                        let d2 = done.push(s@.subrange(pos as int, j as int));
                        assert(d2.drop_last() =~= done);
                        assert(split(t, 58) =~= d2 + split(s@.subrange(j + 1, hi as int), 58));
                        done = d2;
                    }
                    out.push(x);
                    pos = j + 1;
                },
                None => {
                    proof {
                        let p = split(t, 58);
                        lemma_split_nonempty(s@.subrange(j + 1, hi as int), 58);
                        assert(p[done.len() as int] == s@.subrange(pos as int, j as int));
                        lemma_h16_all(p);
                        lemma_h16_all(p.drop_last());
                        assert(p.drop_last()[done.len() as int] == p[done.len() as int]);
                    }
                    return None;
                },
            }
        } else {
            proof {
                let p = split(t, 58);
                assert(p =~= done.push(s@.subrange(pos as int, hi as int)));
                assert(p.drop_last() =~= done);
                assert(p.last() == s@.subrange(pos as int, hi as int));
            }
            match piece {
                Some(x) => {
                    out.push(x);
                    return Some(out);
                },
                None => {
                    if tail {
                        match parse_ipv4_octets(s, pos, hi) {
                            Some(o) => {
                                out.push(((o[0] as u16) << 8u32) | (o[1] as u16));
                                out.push(((o[2] as u16) << 8u32) | (o[3] as u16));
                                proof {
                                    lemma_pair_u16(o[0], o[1]);
                                    lemma_pair_u16(o[2], o[3]);
                                    assert(out@ =~= h16_all(done)->0 + ipv4_groups(o@));
                                }
                                return Some(out);
                            },
                            None => {
                                return None;
                            },
                        }
                    } else {
                        return None;
                    }
                },
            }
        }
    }
}

proof fn lemma_pair_u16(a: u8, b: u8)
    ensures
        ((a as u16) << 8u32) | (b as u16) == (a as nat * 256 + b as nat) as u16,
{
    assert(((a as u16) << 8u32) | (b as u16) == (a as u16) * 256 + (b as u16)) by (bit_vector);
}

/// Index of the first "::" in `s[lo..hi]`, or `hi` if there is none.
pub fn find_dc(s: &[u8], lo: usize, hi: usize) -> (r: usize)
    requires
        lo <= hi <= s@.len(),
    ensures
        lo <= r <= hi,
        r < hi ==> r + 1 < hi && first_dc(s@.subrange(lo as int, hi as int)) == Some(r - lo),
        r == hi ==> first_dc(s@.subrange(lo as int, hi as int)) is None,
{
    let mut i = lo;
    while hi - i >= 2
        invariant
            lo <= i <= hi <= s@.len(),
            forall|k: int| lo <= k < i ==> !(#[trigger] s@[k] == 58 && s@[k + 1] == 58),
        decreases hi - i,
    {
        if s[i] == 58 && s[i + 1] == 58 {
            proof {
                lemma_first_dc_at(s@.subrange(lo as int, hi as int), i - lo);
            }
            return i;
        }
        i = i + 1;
    }
    proof {
        lemma_first_dc_none(s@.subrange(lo as int, hi as int));
    }
    hi
}

proof fn lemma_first_dc_at(t: Seq<u8>, i: int)
    requires
        0 <= i,
        i + 1 < t.len(),
        t[i] == 58 && t[i + 1] == 58,
        forall|k: int| 0 <= k < i ==> !(#[trigger] t[k] == 58 && t[k + 1] == 58),
    ensures
        first_dc(t) == Some(i),
    decreases i,
{
    if i > 0 {
        assert forall|k: int| 0 <= k < i - 1 implies !(#[trigger] t.drop_first()[k] == 58
            && t.drop_first()[k + 1] == 58) by {
            assert(t.drop_first()[k] == t[k + 1]);
            assert(t.drop_first()[k + 1] == t[k + 2]);
        }
        lemma_first_dc_at(t.drop_first(), i - 1);
    }
}

proof fn lemma_first_dc_none(t: Seq<u8>)
    requires
        forall|k: int| 0 <= k < t.len() - 1 ==> !(#[trigger] t[k] == 58 && t[k + 1] == 58),
    ensures
        first_dc(t) is None,
    decreases t.len(),
{
    if t.len() >= 2 {
        assert forall|k: int| 0 <= k < t.drop_first().len() - 1 implies !(#[trigger] t.drop_first()[k] == 58
            && t.drop_first()[k + 1] == 58) by {
            assert(t.drop_first()[k] == t[k + 1]);
            assert(t.drop_first()[k + 1] == t[k + 2]);
        }
        lemma_first_dc_none(t.drop_first());
    }
}

/// Parse the eight segments of the IPv6 address text `s[lo..hi]`.
pub fn parse_ipv6_segments(s: &[u8], lo: usize, hi: usize) -> (r: Option<Vec<u16>>)
    requires
        lo <= hi <= s@.len(),
    ensures
        opt_groups(r) == ipv6_segments(s@.subrange(lo as int, hi as int)),
{
    let ghost t = s@.subrange(lo as int, hi as int);
    let dc = find_dc(s, lo, hi);
    if dc == hi {
        if lo == hi {
            proof {
                assert(split(t, 58) =~= seq![t]) by {
                    lemma_split_first(t, 58, 0);
                }
                assert(h16(t) is None);
                assert(ipv4_octets(t) is None) by {
                    lemma_split_first(t, 46, 0);
                }
                assert(seq![t].drop_last() =~= Seq::<Seq<u8>>::empty());
            }
            return None;
        }
        let g = parse_groups(s, lo, hi, true);
        match g {
            Some(v) => {
                if v.len() == 8 {
                    Some(v)
                } else {
                    None
                }
            },
            None => None,
        }
    } else {
        proof {
            assert(t.take(dc - lo) =~= s@.subrange(lo as int, dc as int));
            assert(t.skip(dc - lo + 2) =~= s@.subrange(dc + 2, hi as int));
        }
        let head = parse_groups(s, lo, dc, false);
        let tl = parse_groups(s, dc + 2, hi, true);
        match (head, tl) {
            (Some(h), Some(tv)) => {
                if h.len() + tv.len() <= 7 {
                    let mut out: Vec<u16> = Vec::new();
                    let mut i: usize = 0;
                    while i < h.len()
                        invariant
                            i <= h@.len(),
                            out@ == h@.take(i as int),
                        decreases h@.len() - i,
                    {
                        out.push(h[i]);
                        proof {
                            assert(h@.take(i as int + 1) =~= h@.take(i as int).push(h@[i as int]));
                        }
                        i = i + 1;
                    }
                    let zeros = 8 - h.len() - tv.len();
                    let mut z: usize = 0;
                    while z < zeros
                        invariant
                            z <= zeros,
                            h@.len() + tv@.len() <= 7,
                            zeros == 8 - h@.len() - tv@.len(),
                            out@ == h@ + Seq::new(z as nat, |k: int| 0u16),
                        decreases zeros - z,
                    {
                        out.push(0);
                        proof {
                            assert(Seq::new(z as nat + 1, |k: int| 0u16) =~= Seq::new(
                                z as nat,
                                |k: int| 0u16,
                            ).push(0u16));
                        }
                        z = z + 1;
                    }
                    let mut i: usize = 0;
                    while i < tv.len()
                        invariant
                            i <= tv@.len(),
                            h@.len() + tv@.len() <= 7,
                            zeros == 8 - h@.len() - tv@.len(),
                            out@ == h@ + Seq::new(zeros as nat, |k: int| 0u16) + tv@.take(i as int),
                        decreases tv@.len() - i,
                    {
                        out.push(tv[i]);
                        proof {
                            assert(tv@.take(i as int + 1) =~= tv@.take(i as int).push(tv@[i as int]));
                        }
                        i = i + 1;
                    }
                    proof {
                        assert(tv@.take(tv@.len() as int) =~= tv@);
                    }
                    Some(out)
                } else {
                    None
                }
            },
            _ => None,
        }
    }
}

} // verus!

verus! {

/// Find the separator of `s[lo..hi]` when `c` splits it in exactly two
/// pieces.
pub fn split_pair(s: &[u8], lo: usize, hi: usize, c: u8) -> (r: Option<usize>)
    requires
        lo <= hi <= s@.len(),
    ensures
        match r {
            Some(j) => lo <= j < hi && split(s@.subrange(lo as int, hi as int), c) == seq![
                s@.subrange(lo as int, j as int),
                s@.subrange(j + 1, hi as int),
            ],
            None => split(s@.subrange(lo as int, hi as int), c).len() != 2,
        },
{
    let ghost t = s@.subrange(lo as int, hi as int);
    let j = find_in(s, lo, hi, c);
    proof {
        lemma_split_first(t, c, j - lo);
        assert(t.take(j - lo) =~= s@.subrange(lo as int, j as int));
    }
    if j == hi {
        return None;
    }
    let k = find_in(s, j + 1, hi, c);
    proof {
        let rest = s@.subrange(j + 1, hi as int);
        assert(t.skip(j - lo + 1) =~= rest);
        assert forall|m: int| 0 <= m < k - (j + 1) implies rest[m] != c by {
            assert(rest[m] == s@[j + 1 + m]);
        }
        if k < hi {
            assert(rest[k - (j + 1)] == s@[k as int]);
        }
        lemma_split_first(rest, c, k - (j + 1));
        if k < hi {
            lemma_split_nonempty(rest.skip(k - (j + 1) + 1), c);
        }
    }
    if k < hi {
        None
    } else {
        Some(j)
    }
}

/// Find the two separators of `s[lo..hi]` when `c` splits it in exactly
/// three pieces.
pub fn split_triple(s: &[u8], lo: usize, hi: usize, c: u8) -> (r: Option<(usize, usize)>)
    requires
        lo <= hi <= s@.len(),
    ensures
        match r {
            Some((j, k)) => lo <= j < k < hi && split(s@.subrange(lo as int, hi as int), c) == seq![
                s@.subrange(lo as int, j as int),
                s@.subrange(j + 1, k as int),
                s@.subrange(k + 1, hi as int),
            ],
            None => split(s@.subrange(lo as int, hi as int), c).len() != 3,
        },
{
    let ghost t = s@.subrange(lo as int, hi as int);
    let j = find_in(s, lo, hi, c);
    proof {
        lemma_split_first(t, c, j - lo);
        assert(t.take(j - lo) =~= s@.subrange(lo as int, j as int));
    }
    if j == hi {
        return None;
    }
    proof {
        assert(t.skip(j - lo + 1) =~= s@.subrange(j + 1, hi as int));
    }
    match split_pair(s, j + 1, hi, c) {
        Some(k) => {
            proof {
                assert(split(t, c) =~= seq![s@.subrange(lo as int, j as int)] + seq![
                    s@.subrange(j + 1, k as int),
                    s@.subrange(k + 1, hi as int),
                ]);
            }
            Some((j, k))
        },
        None => None,
    }
}

} // verus!
