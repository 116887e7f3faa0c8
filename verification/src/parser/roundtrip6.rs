use vstd::prelude::*;

use crate::bits::{be_segments, lemma_value_of_segments};
use crate::text::{
    digit_char, digit_chars, embedded_octets, hex_text, ipv4_display, ipv6_display, join_hex,
    longest_zero_run, zero_run,
};
use super::grammar::{
    colon_groups, dec_number, first_dc, h16, h16_all, hex_digit, hex_value, ipv4_groups, ipv4_octets,
    ipv6_segments, is_dec_digit,
    lemma_find_byte, lemma_h16_all, split, tail_groups,
};
use super::ipv4::ipv4_address;
use super::ipv6::ipv6_address;
use super::roundtrip::{ascii_bytes, lemma_ascii_concat, lemma_ipv4_octets_text};
use super::scan::lemma_split_first;

verus! {

/// The characters of the digits below sixteen are ASCII hexadecimal digits
/// of those values, neither a colon nor a dot.
proof fn lemma_hex_char(d: nat)
    requires
        d < 16,
    ensures
        hex_digit(digit_char(d) as u8) == Some(d),
        ('0' <= digit_char(d) <= '9') || ('a' <= digit_char(d) <= 'f'),
{
    let c = digit_chars();
    if d == 0 {
        assert(c[0] == '0');
    } else if d == 1 {
        assert(c[1] == '1');
    } else if d == 2 {
        assert(c[2] == '2');
    } else if d == 3 {
        assert(c[3] == '3');
    } else if d == 4 {
        assert(c[4] == '4');
    } else if d == 5 {
        assert(c[5] == '5');
    } else if d == 6 {
        assert(c[6] == '6');
    } else if d == 7 {
        assert(c[7] == '7');
    } else if d == 8 {
        assert(c[8] == '8');
    } else if d == 9 {
        assert(c[9] == '9');
    } else if d == 10 {
        assert(c[10] == 'a');
    } else if d == 11 {
        assert(c[11] == 'b');
    } else if d == 12 {
        assert(c[12] == 'c');
    } else if d == 13 {
        assert(c[13] == 'd');
    } else if d == 14 {
        assert(c[14] == 'e');
    } else {
        assert(c[15] == 'f');
    }
}

/// A hexadecimal digit character.
pub open spec fn is_hex_char(c: char) -> bool {
    ('0' <= c <= '9') || ('a' <= c <= 'f')
}

/// The hexadecimal text of `n` is a string of ASCII hexadecimal digits of
/// the value `n`, of at most four digits for a 16-bit `n`.
pub proof fn lemma_hex_text(n: nat)
    ensures
        hex_text(n).len() >= 1,
        n < 16 ==> hex_text(n).len() == 1,
        n < 256 ==> hex_text(n).len() <= 2,
        n < 4096 ==> hex_text(n).len() <= 3,
        n < 65536 ==> hex_text(n).len() <= 4,
        forall|i: int| 0 <= i < hex_text(n).len() ==> is_hex_char(#[trigger] hex_text(n)[i]),
        forall|i: int|
            0 <= i < hex_text(n).len() ==> (#[trigger] hex_digit(ascii_bytes(hex_text(n))[i])) is Some,
        hex_value(ascii_bytes(hex_text(n))) == n,
    decreases n,
{
    if n < 16 {
        lemma_hex_char(n);
        let t = hex_text(n);
        assert(t == seq![digit_char(n)]);
        let b = ascii_bytes(t);
        assert(b.drop_last() =~= Seq::<u8>::empty());
        assert(hex_value(b) == hex_value(b.drop_last()) * 16 + hex_digit(b.last())->0);
    } else {
        let q = n / 16;
        let r = n % 16;
        lemma_hex_text(q);
        lemma_hex_char(r);
        let t = hex_text(n);
        assert(t == hex_text(q) + seq![digit_char(r)]);
        let b = ascii_bytes(t);
        assert(b.drop_last() =~= ascii_bytes(hex_text(q)));
        assert(forall|i: int| 0 <= i < hex_text(q).len() ==> t[i] == hex_text(q)[i]);
        assert(t[t.len() - 1] == digit_char(r));
        assert forall|i: int| 0 <= i < t.len() implies (#[trigger] hex_digit(b[i])) is Some by {
            if i < hex_text(q).len() {
                assert(b[i] == ascii_bytes(hex_text(q))[i]);
            }
        }
        assert(q * 16 + r == n);
        assert(hex_value(b) == hex_value(b.drop_last()) * 16 + hex_digit(b.last())->0);
    }
}

/// The bytes of the hexadecimal text of a 16-bit value are a group of
/// that value.
pub proof fn lemma_group_text(x: u16)
    ensures
        h16(ascii_bytes(hex_text(x as nat))) == Some(x),
        forall|i: int|
            0 <= i < hex_text(x as nat).len() ==> is_hex_char(#[trigger] hex_text(x as nat)[i]),
{
    lemma_hex_text(x as nat);
}

/// Splitting a text made of two texts joined by a separator gives the
/// pieces of the first and then those of the second.
pub proof fn lemma_split_concat(a: Seq<u8>, b: Seq<u8>, c: u8)
    ensures
        split(a + seq![c] + b, c) == split(a, c) + split(b, c),
    decreases a.len(),
{
    let t = a + seq![c] + b;
    lemma_find_byte(a, c);
    match super::grammar::find_byte(a, c) {
        None => {
            assert forall|k: int| 0 <= k < a.len() implies t[k] != c by {
                assert(t[k] == a[k]);
            }
            lemma_split_first(t, c, a.len() as int);
            lemma_split_first(a, c, a.len() as int);
            assert(t.take(a.len() as int) =~= a);
            assert(t.skip(a.len() as int + 1) =~= b);
        },
        Some(i) => {
            assert forall|k: int| 0 <= k < i implies t[k] != c by {
                assert(t[k] == a[k]);
            }
            assert(t[i] == a[i]);
            lemma_split_first(t, c, i);
            lemma_split_first(a, c, i);
            let rest = a.skip(i + 1);
            assert(t.skip(i + 1) =~= rest + seq![c] + b);
            assert(t.take(i) =~= a.take(i));
            lemma_split_concat(rest, b, c);
            assert(split(t, c) =~= split(a, c) + split(b, c));
        },
    }
}

/// The bytes of the hexadecimal texts of groups.
pub open spec fn group_texts(g: Seq<u16>) -> Seq<Seq<u8>> {
    Seq::new(g.len(), |i: int| ascii_bytes(hex_text(g[i] as nat)))
}

/// No two colons stand next to each other in `t`.
pub open spec fn no_double_colon(t: Seq<u8>) -> bool {
    forall|k: int| 0 <= k < t.len() - 1 ==> !(#[trigger] t[k] == 58 && t[k + 1] == 58)
}

/// The groups joined by colons: split at colons they give the texts of the
/// groups; no two colons are adjacent, and the text neither starts nor ends
/// with one; every character is a hexadecimal digit or a colon.
pub proof fn lemma_join_hex(g: Seq<u16>)
    requires
        g.len() >= 1,
    ensures
        split(ascii_bytes(join_hex(g)), 58) == group_texts(g),
        no_double_colon(ascii_bytes(join_hex(g))),
        ascii_bytes(join_hex(g)).len() >= 1,
        ascii_bytes(join_hex(g))[0] != 58,
        ascii_bytes(join_hex(g)).last() != 58,
        forall|i: int|
            0 <= i < join_hex(g).len() ==> (is_hex_char(#[trigger] join_hex(g)[i]) || join_hex(g)[i]
                == ':'),
    decreases g.len(),
{
    let x = g.last();
    lemma_group_text(x);
    let h = hex_text(x as nat);
    let hb = ascii_bytes(h);
    assert forall|k: int| 0 <= k < hb.len() implies hb[k] != 58 by {
        assert(is_hex_char(h[k]));
    }
    lemma_split_first(hb, 58, hb.len() as int);
    assert(hb.take(hb.len() as int) =~= hb);
    if g.len() == 1 {
        assert(join_hex(g) == h);
        assert(group_texts(g) =~= seq![hb]);
    } else {
        let d = g.drop_last();
        lemma_join_hex(d);
        let j = join_hex(d);
        let jb = ascii_bytes(j);
        assert(join_hex(g) == j + seq![':'] + h);
        lemma_ascii_concat(j, seq![':']);
        lemma_ascii_concat(j + seq![':'], h);
        assert(ascii_bytes(seq![':']) =~= seq![58u8]);
        let t = ascii_bytes(join_hex(g));
        assert(t =~= jb + seq![58u8] + hb);
        lemma_split_concat(jb, hb, 58);
        assert(group_texts(g) =~= group_texts(d) + seq![hb]);
        assert forall|k: int| 0 <= k < t.len() - 1 implies !(#[trigger] t[k] == 58 && t[k + 1] == 58) by {
            if k < jb.len() - 1 {
                assert(t[k] == jb[k] && t[k + 1] == jb[k + 1]);
            } else if k == jb.len() - 1 {
                assert(t[k] == jb.last());
            } else {
                assert(t[k + 1] == hb[k + 1 - jb.len() - 1]);
            }
        }
        assert(t[0] == jb[0]);
        assert(t.last() == hb.last());
        let jg = join_hex(g);
        assert forall|i: int| 0 <= i < jg.len() implies (is_hex_char(#[trigger] jg[i]) || jg[i] == ':') by {
            if i < j.len() {
                assert(jg[i] == j[i]);
            } else if i > j.len() {
                assert(jg[i] == h[i - j.len() - 1]);
            }
        }
    }
}

/// Parsing the texts of groups as groups gives back the groups, also where
/// the last may instead be an embedded IPv4 address.
pub proof fn lemma_group_texts(g: Seq<u16>)
    ensures
        h16_all(group_texts(g)) == Some(g),
        tail_groups(group_texts(g)) == Some(g),
{
    let p = group_texts(g);
    assert forall|i: int| 0 <= i < p.len() implies (#[trigger] h16(p[i])) == Some(g[i]) by {
        lemma_group_text(g[i]);
    }
    lemma_h16_all(p);
    let r = h16_all(p)->0;
    assert(r =~= g);
    if g.len() > 0 {
        let d = g.drop_last();
        assert(p.drop_last() =~= group_texts(d));
        let pd = p.drop_last();
        assert forall|i: int| 0 <= i < pd.len() implies (#[trigger] h16(pd[i])) == Some(d[i]) by {
            lemma_group_text(d[i]);
        }
        lemma_h16_all(pd);
        assert(h16_all(pd)->0 =~= d);
        lemma_group_text(g.last());
        assert(d.push(g.last()) =~= g);
    }
}

/// The first "::" of `t`: where it is, and that there is none before.
pub proof fn lemma_first_dc(t: Seq<u8>)
    ensures
        first_dc(t) matches Some(i) ==> 0 <= i && i + 1 < t.len() && t[i] == 58 && t[i + 1] == 58
            && forall|k: int| 0 <= k < i ==> !(#[trigger] t[k] == 58 && t[k + 1] == 58),
        first_dc(t) is None ==> no_double_colon(t),
    decreases t.len(),
{
    if t.len() >= 2 && !(t[0] == 58 && t[1] == 58) {
        let d = t.drop_first();
        lemma_first_dc(d);
        assert forall|k: int| 0 <= k < d.len() implies d[k] == t[k + 1] by {}
        if let Some(i) = first_dc(d) {
            assert forall|k: int| 0 <= k < i + 1 implies !(#[trigger] t[k] == 58 && t[k + 1] == 58) by {
                if k > 0 {
                    assert(t[k] == d[k - 1] && t[k + 1] == d[k]);
                }
            }
        } else {
            assert forall|k: int| 0 <= k < t.len() - 1 implies !(#[trigger] t[k] == 58 && t[k + 1]
                == 58) by {
                if k > 0 {
                    assert(t[k] == d[k - 1] && t[k + 1] == d[k]);
                }
            }
        }
    }
}

/// A text made of a text with no "::", not ending in a colon, then "::",
/// has its first "::" right after that text.
proof fn lemma_first_dc_after(x: Seq<u8>, y: Seq<u8>)
    requires
        no_double_colon(x),
        x.len() == 0 || x.last() != 58,
    ensures
        first_dc(x + seq![58u8, 58u8] + y) == Some(x.len() as int),
{
    let t = x + seq![58u8, 58u8] + y;
    let n = x.len() as int;
    lemma_first_dc(t);
    assert(t[n] == 58 && t[n + 1] == 58);
    if let Some(i) = first_dc(t) {
        if i < n {
            assert(t[i] == x[i]);
            if i + 1 < n {
                assert(t[i + 1] == x[i + 1]);
            }
        }
    }
}

/// A run of zero groups lies within the groups and is all zeros.
proof fn lemma_zero_run(g: Seq<u16>, i: int)
    requires
        0 <= i <= g.len(),
    ensures
        i + zero_run(g, i) <= g.len(),
        forall|k: int| i <= k < i + zero_run(g, i) ==> g[k] == 0,
    decreases g.len() - i,
{
    if i < g.len() && g[i] == 0 {
        lemma_zero_run(g, i + 1);
    }
}

/// The longest run found is a run of zero groups.
proof fn lemma_longest_zero_run(g: Seq<u16>, n: int)
    requires
        0 <= n <= g.len(),
    ensures
        longest_zero_run(g, n).1 == 0 || (0 <= longest_zero_run(g, n).0 < n && longest_zero_run(g, n).1
            == zero_run(g, longest_zero_run(g, n).0)),
    decreases n,
{
    if n > 0 {
        lemma_longest_zero_run(g, n - 1);
    }
}

/// The groups texts of no groups.
proof fn lemma_colon_groups(g: Seq<u16>)
    ensures
        colon_groups(ascii_bytes(join_hex(g))) == group_texts(g),
        h16_all(colon_groups(ascii_bytes(join_hex(g)))) == Some(g),
        tail_groups(colon_groups(ascii_bytes(join_hex(g)))) == Some(g),
        g.len() >= 1 ==> no_double_colon(ascii_bytes(join_hex(g))) && ascii_bytes(join_hex(g)).last() != 58,
        g.len() == 0 ==> ascii_bytes(join_hex(g)).len() == 0,
{
    if g.len() == 0 {
        assert(join_hex(g) == Seq::<char>::empty());
        assert(ascii_bytes(join_hex(g)) =~= Seq::<u8>::empty());
        assert(group_texts(g) =~= Seq::<Seq<u8>>::empty());
    } else {
        lemma_join_hex(g);
    }
    lemma_group_texts(g);
}

/// The text of a group of four "f" digits.
proof fn lemma_ffff()
    ensures
        h16(seq![102u8, 102u8, 102u8, 102u8]) == Some(0xffffu16),
{
    let t1 = seq![102u8];
    let t2 = seq![102u8, 102u8];
    let t3 = seq![102u8, 102u8, 102u8];
    let t = seq![102u8, 102u8, 102u8, 102u8];
    assert(t1.drop_last() =~= Seq::<u8>::empty());
    assert(t2.drop_last() =~= t1);
    assert(t3.drop_last() =~= t2);
    assert(t.drop_last() =~= t3);
    assert(hex_digit(102u8) == Some(15nat));
    assert(t1.last() == 102u8);
    assert(hex_value(t1) == hex_value(t1.drop_last()) * 16 + hex_digit(t1.last())->0);
    assert(hex_value(t1) == 15);
    assert(hex_value(t2) == hex_value(t2.drop_last()) * 16 + hex_digit(t2.last())->0);
    assert(hex_value(t2) == 255);
    assert(hex_value(t3) == hex_value(t3.drop_last()) * 16 + hex_digit(t3.last())->0);
    assert(hex_value(t3) == 4095);
    assert(hex_value(t) == hex_value(t.drop_last()) * 16 + hex_digit(t.last())->0);
    assert(hex_value(t) == 65535);
    assert(forall|i: int| 0 <= i < t.len() ==> t[i] == 102u8);
}

/// Hexadecimal digits, colons and dots are ASCII.
proof fn lemma_ascii_join(g: Seq<u16>)
    ensures
        vstd::utf8::is_ascii_chars(join_hex(g)),
{
    if g.len() >= 1 {
        lemma_join_hex(g);
    } else {
        assert(join_hex(g) == Seq::<char>::empty());
    }
}

/// The text of the unspecified address.
proof fn lemma_text_unspecified(g: Seq<u16>)
    requires
        g.len() == 8,
        forall|i: int| 0 <= i < 8 ==> g[i] == 0,
    ensures
        ipv6_segments(ascii_bytes(seq![':', ':'])) == Some(g),
{
    let t = ascii_bytes(seq![':', ':']);
    assert(t =~= seq![58u8, 58u8]);
    assert(first_dc(t) == Some(0int));
    assert(t.take(0) =~= Seq::<u8>::empty());
    assert(t.skip(2) =~= Seq::<u8>::empty());
    assert(h16_all(Seq::<Seq<u8>>::empty()) == Some(Seq::<u16>::empty()));
    assert(Seq::<u16>::empty() + Seq::new(8, |k: int| 0u16) + Seq::<u16>::empty() =~= g);
}

/// The text of the loopback address.
proof fn lemma_text_loopback(g: Seq<u16>)
    requires
        g.len() == 8,
        forall|i: int| 0 <= i < 7 ==> g[i] == 0,
        g[7] == 1,
    ensures
        ipv6_segments(ascii_bytes(seq![':', ':', '1'])) == Some(g),
{
    let t = ascii_bytes(seq![':', ':', '1']);
    assert(t =~= seq![58u8, 58u8, 49u8]);
    assert(first_dc(t) == Some(0int));
    assert(t.take(0) =~= Seq::<u8>::empty());
    let one = seq![49u8];
    assert(t.skip(2) =~= one);
    lemma_split_first(one, 58, 1);
    assert(one.take(1) =~= one);
    let p = colon_groups(one);
    assert(p =~= seq![one]);
    assert(p.drop_last() =~= Seq::<Seq<u8>>::empty());
    assert(one.drop_last() =~= Seq::<u8>::empty());
    assert(hex_value(one) == hex_value(one.drop_last()) * 16 + hex_digit(one.last())->0);
    assert(h16(one) == Some(1u16));
    assert(h16_all(Seq::<Seq<u8>>::empty()) == Some(Seq::<u16>::empty()));
    assert(tail_groups(p) == Some(seq![1u16])) by {
        assert(Seq::<u16>::empty().push(1u16) =~= seq![1u16]);
    }
    assert(Seq::<u16>::empty() + Seq::new(7, |k: int| 0u16) + seq![1u16] =~= g);
}

/// The text of an IPv4-compatible or IPv4-mapped address.
#[verifier::spinoff_prover]
#[verifier::rlimit(40)]
proof fn lemma_text_embedded(g: Seq<u16>)
    requires
        g.len() == 8,
        forall|i: int| 0 <= i < 5 ==> g[i] == 0,
        g[5] == 0 || g[5] == 0xffff,
    ensures
        ipv6_segments(
            ascii_bytes(
                seq![':', ':'] + (if g[5] == 0xffff {
                    seq!['f', 'f', 'f', 'f', ':']
                } else {
                    seq![]
                }) + ipv4_display(embedded_octets(g)),
            ),
        ) == Some(g),
        vstd::utf8::is_ascii_chars(
            seq![':', ':'] + (if g[5] == 0xffff {
                seq!['f', 'f', 'f', 'f', ':']
            } else {
                seq![]
            }) + ipv4_display(embedded_octets(g)),
        ),
{
    let e = embedded_octets(g);
    let ipv4 = ipv4_display(e);
    lemma_ipv4_octets_text(e);
    let ib = ascii_bytes(ipv4);
    assert forall|k: int| 0 <= k < ib.len() implies ib[k] != 58 by {
        assert('0' <= ipv4[k] <= '9' || ipv4[k] == '.');
    }
    lemma_split_first(ib, 58, ib.len() as int);
    assert(ib.take(ib.len() as int) =~= ib);
    assert(h16(ib) is None);
    let f = if g[5] == 0xffff {
        seq!['f', 'f', 'f', 'f', ':']
    } else {
        seq![]
    };
    let dc = seq![':', ':'];
    let text = dc + f + ipv4;
    lemma_ascii_concat(dc, f);
    lemma_ascii_concat(dc + f, ipv4);
    let fb = ascii_bytes(f);
    let t = ascii_bytes(text);
    assert(ascii_bytes(dc) =~= seq![58u8, 58u8]);
    assert(t =~= seq![58u8, 58u8] + fb + ib);
    assert(t[0] == 58 && t[1] == 58);
    assert(first_dc(t) == Some(0int));
    assert(t.take(0) =~= Seq::<u8>::empty());
    assert(t.skip(2) =~= fb + ib);
    assert(h16_all(Seq::<Seq<u8>>::empty()) == Some(Seq::<u16>::empty()));
    assert(ipv4_groups(e) =~= seq![g[6], g[7]]) by {
        assert(g[6] / 256 < 256 && g[7] / 256 < 256);
        assert((g[6] / 256) * 256 + g[6] % 256 == g[6]);
        assert((g[7] / 256) * 256 + g[7] % 256 == g[7]);
    }
    if g[5] == 0xffff {
        let ff = seq![102u8, 102u8, 102u8, 102u8];
        assert(fb =~= ff + seq![58u8]);
        assert(fb + ib =~= ff + seq![58u8] + ib);
        lemma_split_concat(ff, ib, 58);
        assert forall|k: int| 0 <= k < ff.len() implies ff[k] != 58 by {}
        lemma_split_first(ff, 58, 4);
        assert(ff.take(4) =~= ff);
        let p = colon_groups(fb + ib);
        assert(p =~= seq![ff, ib]);
        lemma_ffff();
        assert(p.drop_last() =~= seq![ff]);
        assert(seq![ff].drop_last() =~= Seq::<Seq<u8>>::empty());
        assert(h16_all(seq![ff]) == Some(seq![0xffffu16])) by {
            assert(Seq::<u16>::empty().push(0xffffu16) =~= seq![0xffffu16]);
        }
        assert(tail_groups(p) == Some(seq![0xffffu16] + ipv4_groups(e)));
        assert(Seq::<u16>::empty() + Seq::new(5, |k: int| 0u16) + (seq![0xffffu16] + ipv4_groups(e))
            =~= g);
        assert(text =~= seq![':', ':', 'f', 'f', 'f', 'f', ':'] + ipv4);
    } else {
        assert(fb =~= Seq::<u8>::empty());
        assert(fb + ib =~= ib);
        let p = colon_groups(ib);
        assert(p =~= seq![ib]);
        assert(p.drop_last() =~= Seq::<Seq<u8>>::empty());
        assert(tail_groups(p) == Some(Seq::<u16>::empty() + ipv4_groups(e)));
        assert(Seq::<u16>::empty() + Seq::new(6, |k: int| 0u16) + (Seq::<u16>::empty() + ipv4_groups(
            e,
        )) =~= g);
        assert(text =~= seq![':', ':'] + ipv4);
    }
    assert forall|i: int| 0 <= i < text.len() implies '\0' <= #[trigger] text[i] <= '\u{7f}' by {
        if i >= text.len() - ipv4.len() {
            assert(text[i] == ipv4[i - (text.len() - ipv4.len())]);
        }
    }
}

/// The text of an address with a run of two or more zero groups elided.
proof fn lemma_text_elided(g: Seq<u16>, s: int, l: int)
    requires
        g.len() == 8,
        0 <= s,
        1 < l,
        s + l <= 8,
        forall|k: int| s <= k < s + l ==> g[k] == 0,
    ensures
        ipv6_segments(ascii_bytes(join_hex(g.take(s)) + seq![':', ':'] + join_hex(g.skip(s + l))))
            == Some(g),
        vstd::utf8::is_ascii_chars(join_hex(g.take(s)) + seq![':', ':'] + join_hex(g.skip(s + l))),
{
    let head = g.take(s);
    let tail = g.skip(s + l);
    let jh = join_hex(head);
    let jt = join_hex(tail);
    let dc = seq![':', ':'];
    lemma_colon_groups(head);
    lemma_colon_groups(tail);
    lemma_ascii_concat(jh, dc);
    lemma_ascii_concat(jh + dc, jt);
    let hb = ascii_bytes(jh);
    let tb = ascii_bytes(jt);
    assert(ascii_bytes(dc) =~= seq![58u8, 58u8]);
    let t = ascii_bytes(jh + dc + jt);
    assert(t =~= hb + seq![58u8, 58u8] + tb);
    lemma_first_dc_after(hb, tb);
    assert(t.take(hb.len() as int) =~= hb);
    assert(t.skip(hb.len() as int + 2) =~= tb);
    assert(head + Seq::new((8 - head.len() - tail.len()) as nat, |k: int| 0u16) + tail =~= g);
    lemma_ascii_join(head);
    lemma_ascii_join(tail);
    let text = jh + dc + jt;
    assert forall|i: int| 0 <= i < text.len() implies '\0' <= #[trigger] text[i] <= '\u{7f}' by {
        if i < jh.len() {
            assert(text[i] == jh[i]);
        } else if i >= jh.len() + 2 {
            assert(text[i] == jt[i - jh.len() - 2]);
        }
    }
}

/// The text of an address with no zero groups elided.
proof fn lemma_text_plain(g: Seq<u16>)
    requires
        g.len() == 8,
    ensures
        ipv6_segments(ascii_bytes(join_hex(g))) == Some(g),
        vstd::utf8::is_ascii_chars(join_hex(g)),
{
    let t = ascii_bytes(join_hex(g));
    lemma_join_hex(g);
    lemma_group_texts(g);
    lemma_first_dc(t);
    if let Some(i) = first_dc(t) {
        assert(t[i] == 58 && t[i + 1] == 58);
    }
    lemma_ascii_join(g);
}

/// Parsing the text of IPv6 segments gives back the segments, and that text
/// is ASCII.
pub proof fn lemma_ipv6_segments_text(g: Seq<u16>)
    requires
        g.len() == 8,
    ensures
        ipv6_segments(ascii_bytes(ipv6_display(g))) == Some(g),
        vstd::utf8::is_ascii_chars(ipv6_display(g)),
{
    if forall|i: int| 0 <= i < 8 ==> g[i] == 0 {
        lemma_text_unspecified(g);
    } else if (forall|i: int| 0 <= i < 7 ==> g[i] == 0) && g[7] == 1 {
        lemma_text_loopback(g);
    } else if (forall|i: int| 0 <= i < 5 ==> g[i] == 0) && (g[5] == 0 || g[5] == 0xffff) {
        lemma_text_embedded(g);
    } else {
        let (s, l) = longest_zero_run(g, 8);
        lemma_longest_zero_run(g, 8);
        if l > 1 {
            lemma_zero_run(g, s);
            lemma_text_elided(g, s, l as int);
        } else {
            lemma_text_plain(g);
        }
    }
}

/// Parsing the text of an IPv6 address gives back its value, and that text
/// is ASCII.
pub proof fn lemma_ipv6_text_parse(v: u128)
    ensures
        ipv6_address(ascii_bytes(ipv6_display(be_segments(v)))) == Some(v),
        vstd::utf8::is_ascii_chars(ipv6_display(be_segments(v))),
{
    lemma_ipv6_segments_text(be_segments(v));
    lemma_value_of_segments(v);
}

/// Every byte of a text other than the separator lies in one of its pieces.
proof fn lemma_split_cover(t: Seq<u8>, c: u8, k: int)
    requires
        0 <= k < t.len(),
        t[k] != c,
    ensures
        exists|j: int, i: int|
            0 <= j < split(t, c).len() && 0 <= i < split(t, c)[j].len() && #[trigger] split(t, c)[j][i]
                == t[k],
    decreases t.len(),
{
    lemma_find_byte(t, c);
    match super::grammar::find_byte(t, c) {
        None => {
            lemma_split_first(t, c, t.len() as int);
            assert(split(t, c)[0][k] == t[k]);
        },
        Some(f) => {
            lemma_split_first(t, c, f);
            if k < f {
                assert(split(t, c)[0] == t.take(f));
                assert(split(t, c)[0][k] == t[k]);
            } else {
                let rest = t.skip(f + 1);
                assert(k != f);
                assert(rest[k - f - 1] == t[k]);
                lemma_split_cover(rest, c, k - f - 1);
                let (j, i) = choose|j: int, i: int|
                    0 <= j < split(rest, c).len() && 0 <= i < split(rest, c)[j].len() && #[trigger] split(
                        rest,
                        c,
                    )[j][i] == rest[k - f - 1];
                assert(split(t, c)[j + 1] == split(rest, c)[j]);
                assert(split(t, c)[j + 1][i] == t[k]);
            }
        },
    }
}

/// A text with a colon is not the text of an IPv4 address.
proof fn lemma_colon_not_ipv4(t: Seq<u8>, k: int)
    requires
        0 <= k < t.len(),
        t[k] == 58,
    ensures
        ipv4_address(t) is None,
{
    if ipv4_octets(t) is Some {
        let p = split(t, 46);
        lemma_split_cover(t, 46, k);
        let (j, i) = choose|j: int, i: int|
            0 <= j < p.len() && 0 <= i < p[j].len() && #[trigger] p[j][i] == t[k];
        assert(dec_number(p[j]) is Some);
        assert(is_dec_digit(p[j][i]));
    }
}

/// The text of an IPv6 address holds a colon, so it is not the text of an
/// IPv4 address.
pub proof fn lemma_ipv6_text_not_ipv4(g: Seq<u16>)
    requires
        g.len() == 8,
    ensures
        ipv4_address(ascii_bytes(ipv6_display(g))) is None,
{
    let text = ipv6_display(g);
    let t = ascii_bytes(text);
    if forall|i: int| 0 <= i < 8 ==> g[i] == 0 {
        assert(text[0] == ':');
        lemma_colon_not_ipv4(t, 0);
    } else if (forall|i: int| 0 <= i < 7 ==> g[i] == 0) && g[7] == 1 {
        assert(text[0] == ':');
        lemma_colon_not_ipv4(t, 0);
    } else if (forall|i: int| 0 <= i < 5 ==> g[i] == 0) && (g[5] == 0 || g[5] == 0xffff) {
        assert(text[0] == ':');
        lemma_colon_not_ipv4(t, 0);
    } else {
        let (s, l) = longest_zero_run(g, 8);
        if l > 1 {
            let jh = join_hex(g.take(s));
            assert(text == jh + seq![':', ':'] + join_hex(g.skip(s + l)));
            assert(text[jh.len() as int] == ':');
            lemma_colon_not_ipv4(t, jh.len() as int);
        } else {
            let jd = join_hex(g.drop_last());
            assert(text == jd + seq![':'] + hex_text(g.last() as nat));
            assert(text[jd.len() as int] == ':');
            lemma_colon_not_ipv4(t, jd.len() as int);
        }
    }
}

} // verus!
