use vstd::prelude::*;

use crate::bits::{be_bytes, lemma_value_of_bytes};
use crate::text::{dec_text, digit_char, digit_chars, ipv4_display};
use super::grammar::{dec_number, dec_value, ipv4_octets, is_dec_digit, split};
use super::ipv4::ipv4_address;
use super::scan::lemma_split_first;

verus! {

/// The bytes of a text of ASCII characters.
pub open spec fn ascii_bytes(t: Seq<char>) -> Seq<u8> {
    Seq::new(t.len(), |i: int| t[i] as u8)
}

/// The bytes of two texts joined are the bytes of each, joined.
pub proof fn lemma_ascii_concat(a: Seq<char>, b: Seq<char>)
    ensures
        ascii_bytes(a + b) == ascii_bytes(a) + ascii_bytes(b),
{
    assert(ascii_bytes(a + b) =~= ascii_bytes(a) + ascii_bytes(b));
}

/// The characters of the digits below ten are ASCII `'0'..='9'`, in order.
proof fn lemma_digit_char(d: nat)
    requires
        d < 10,
    ensures
        '0' <= digit_char(d) <= '9',
        digit_char(d) as u8 == 48 + d,
{
    let c = digit_chars();
    if d == 0 {
        assert(c[0] == '0');
    } else if d == 1 {
        assert(c[1] == '1');
    } else if d == 2 {
        assert(c[2] == '2');
    } else if d == 3 {
        assert(c[3] == '3');
    } else if d == 4 {
        assert(c[4] == '4');
    } else if d == 5 {
        assert(c[5] == '5');
    } else if d == 6 {
        assert(c[6] == '6');
    } else if d == 7 {
        assert(c[7] == '7');
    } else if d == 8 {
        assert(c[8] == '8');
    } else {
        assert(c[9] == '9');
    }
}

/// The decimal text of `n` is a string of ASCII digits, without a leading
/// zero, of the value `n` and of as many digits as `n` has.
pub proof fn lemma_dec_text(n: nat)
    ensures
        dec_text(n).len() >= 1,
        n < 10 ==> dec_text(n).len() == 1,
        n < 100 ==> dec_text(n).len() <= 2,
        n < 1000 ==> dec_text(n).len() <= 3,
        forall|i: int| 0 <= i < dec_text(n).len() ==> '0' <= #[trigger] dec_text(n)[i] <= '9',
        n >= 1 ==> dec_text(n)[0] != '0',
        dec_value(ascii_bytes(dec_text(n))) == n,
    decreases n,
{
    if n < 10 {
        lemma_digit_char(n);
        let t = dec_text(n);
        assert(t == seq![digit_char(n)]);
        let b = ascii_bytes(t);
        assert(b.len() == 1);
        assert(b[0] == 48 + n);
        assert(b.drop_last() =~= Seq::<u8>::empty());
        assert(dec_value(b) == dec_value(b.drop_last()) * 10 + (b.last() - 48) as nat);
    } else {
        let q = n / 10;
        let r = n % 10;
        lemma_dec_text(q);
        lemma_digit_char(r);
        let t = dec_text(n);
        assert(t == dec_text(q) + seq![digit_char(r)]);
        let b = ascii_bytes(t);
        assert(b.drop_last() =~= ascii_bytes(dec_text(q)));
        assert(b.last() == 48 + r);
        assert(forall|i: int| 0 <= i < dec_text(q).len() ==> t[i] == dec_text(q)[i]);
        assert(t[t.len() - 1] == digit_char(r));
        assert(q * 10 + r == n);
        assert(dec_value(b) == dec_value(b.drop_last()) * 10 + (b.last() - 48) as nat);
    }
}

/// The bytes of the decimal text of an octet are the text of that octet.
pub proof fn lemma_octet_text(o: u8)
    ensures
        dec_number(ascii_bytes(dec_text(o as nat))) == Some(o),
        forall|i: int|
            0 <= i < ascii_bytes(dec_text(o as nat)).len() ==> #[trigger] ascii_bytes(
                dec_text(o as nat),
            )[i] != 46,
{
    let t = dec_text(o as nat);
    let b = ascii_bytes(t);
    lemma_dec_text(o as nat);
    assert forall|i: int| 0 <= i < b.len() implies is_dec_digit(#[trigger] b[i]) && b[i] != 46 by {
        assert('0' <= t[i] <= '9');
    }
    if b.len() > 1 {
        assert(t[0] != '0');
        assert(b[0] != 48);
    }
}

/// Splitting at a dot a text that starts with a dot-free piece and a dot.
proof fn lemma_split_step(a: Seq<u8>, rest: Seq<u8>)
    requires
        forall|k: int| 0 <= k < a.len() ==> #[trigger] a[k] != 46,
    ensures
        split(a + seq![46u8] + rest, 46) == seq![a] + split(rest, 46),
{
    let t = a + seq![46u8] + rest;
    assert forall|k: int| 0 <= k < a.len() implies t[k] != 46 by {
        assert(t[k] == a[k]);
    }
    lemma_split_first(t, 46, a.len() as int);
    assert(t.take(a.len() as int) =~= a);
    assert(t.skip(a.len() as int + 1) =~= rest);
}

/// Splitting at dots the text of four octets separated by dots gives the
/// texts of the octets.
proof fn lemma_split_octets(d0: Seq<u8>, d1: Seq<u8>, d2: Seq<u8>, d3: Seq<u8>)
    requires
        forall|k: int| 0 <= k < d0.len() ==> #[trigger] d0[k] != 46,
        forall|k: int| 0 <= k < d1.len() ==> #[trigger] d1[k] != 46,
        forall|k: int| 0 <= k < d2.len() ==> #[trigger] d2[k] != 46,
        forall|k: int| 0 <= k < d3.len() ==> #[trigger] d3[k] != 46,
    ensures
        split(d0 + seq![46u8] + d1 + seq![46u8] + d2 + seq![46u8] + d3, 46) == seq![d0, d1, d2, d3],
{
    let t2 = d2 + seq![46u8] + d3;
    let t1 = d1 + seq![46u8] + t2;
    let t0 = d0 + seq![46u8] + t1;
    assert(d0 + seq![46u8] + d1 + seq![46u8] + d2 + seq![46u8] + d3 =~= t0);
    lemma_split_step(d0, t1);
    lemma_split_step(d1, t2);
    lemma_split_step(d2, d3);
    lemma_split_first(d3, 46, d3.len() as int);
    assert(d3.take(d3.len() as int) =~= d3);
    assert(split(t0, 46) =~= seq![d0, d1, d2, d3]);
}

/// Parsing the dotted-decimal text of four octets gives back the octets; the
/// text is at least seven ASCII characters, each a digit or a dot.
pub proof fn lemma_ipv4_octets_text(o: Seq<u8>)
    requires
        o.len() == 4,
    ensures
        ipv4_octets(ascii_bytes(ipv4_display(o))) == Some(o),
        vstd::utf8::is_ascii_chars(ipv4_display(o)),
        ipv4_display(o).len() >= 7,
        forall|i: int|
            0 <= i < ipv4_display(o).len() ==> ('0' <= #[trigger] ipv4_display(o)[i] <= '9'
                || ipv4_display(o)[i] == '.'),
{
    let d0 = ascii_bytes(dec_text(o[0] as nat));
    let d1 = ascii_bytes(dec_text(o[1] as nat));
    let d2 = ascii_bytes(dec_text(o[2] as nat));
    let d3 = ascii_bytes(dec_text(o[3] as nat));
    let dot = seq!['.'];
    assert(ascii_bytes(dot) =~= seq![46u8]);
    lemma_octet_text(o[0]);
    lemma_octet_text(o[1]);
    lemma_octet_text(o[2]);
    lemma_octet_text(o[3]);
    let text = ipv4_display(o);
    lemma_ascii_concat(dec_text(o[0] as nat), dot);
    lemma_ascii_concat(dec_text(o[0] as nat) + dot, dec_text(o[1] as nat));
    lemma_ascii_concat(dec_text(o[0] as nat) + dot + dec_text(o[1] as nat), dot);
    lemma_ascii_concat(dec_text(o[0] as nat) + dot + dec_text(o[1] as nat) + dot, dec_text(o[2] as nat));
    lemma_ascii_concat(
        dec_text(o[0] as nat) + dot + dec_text(o[1] as nat) + dot + dec_text(o[2] as nat),
        dot,
    );
    lemma_ascii_concat(
        dec_text(o[0] as nat) + dot + dec_text(o[1] as nat) + dot + dec_text(o[2] as nat) + dot,
        dec_text(o[3] as nat),
    );
    let t = ascii_bytes(text);
    assert(t == d0 + seq![46u8] + d1 + seq![46u8] + d2 + seq![46u8] + d3);
    lemma_split_octets(d0, d1, d2, d3);
    let p = split(t, 46);
    assert(p == seq![d0, d1, d2, d3]);
    assert(dec_number(p[0]) == Some(o[0]));
    assert(dec_number(p[1]) == Some(o[1]));
    assert(dec_number(p[2]) == Some(o[2]));
    assert(dec_number(p[3]) == Some(o[3]));
    assert(ipv4_octets(t) == Some(o)) by {
        assert(Seq::new(4, |i: int| dec_number(p[i])->0) =~= o);
    }
    lemma_dec_text(o[0] as nat);
    lemma_dec_text(o[1] as nat);
    lemma_dec_text(o[2] as nat);
    lemma_dec_text(o[3] as nat);
    assert forall|i: int| 0 <= i < text.len() implies ('0' <= #[trigger] text[i] <= '9' || text[i]
        == '.') by {
        let a0 = dec_text(o[0] as nat);
        let a1 = dec_text(o[1] as nat);
        let a2 = dec_text(o[2] as nat);
        let a3 = dec_text(o[3] as nat);
        if i < a0.len() {
            assert(text[i] == a0[i]);
        } else if i == a0.len() {
        } else if i < a0.len() + 1 + a1.len() {
            assert(text[i] == a1[i - a0.len() - 1]);
        } else if i == a0.len() + 1 + a1.len() {
        } else if i < a0.len() + 2 + a1.len() + a2.len() {
            assert(text[i] == a2[i - a0.len() - 2 - a1.len()]);
        } else if i == a0.len() + 2 + a1.len() + a2.len() {
        } else {
            assert(text[i] == a3[i - a0.len() - 3 - a1.len() - a2.len()]);
        }
    }
}

/// Parsing the dotted-decimal text of an IPv4 address gives back its value,
/// and that text is ASCII.
pub proof fn lemma_ipv4_text_parse(v: u128)
    requires
        v <= 0xffff_ffff,
    ensures
        ipv4_address(ascii_bytes(ipv4_display(be_bytes(v, 32)))) == Some(v),
        vstd::utf8::is_ascii_chars(ipv4_display(be_bytes(v, 32))),
{
    lemma_ipv4_octets_text(be_bytes(v, 32));
    lemma_value_of_bytes(v, 32);
}

} // verus!
