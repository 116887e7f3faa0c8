use vstd::prelude::*;

use crate::bits::{be_bytes, be_segments, lemma_value_of_bytes, lemma_value_of_segments};
use crate::text::{dec_text, embedded_octets, ipv4_display, ipv6_display, join_hex, longest_zero_run};
use super::grammar::{dec_number, split, with_length};
use super::ipv4::{ipv4_prefix, ipv4_prefix_text};
use super::ipv6::{ipv6_prefix, ipv6_prefix_text};
use super::roundtrip::{ascii_bytes, lemma_ascii_concat, lemma_dec_text, lemma_ipv4_octets_text, lemma_octet_text};
use super::roundtrip6::{is_hex_char, lemma_ipv6_segments_text, lemma_join_hex, lemma_split_concat};
use super::scan::lemma_split_first;

verus! {

/// An address text with no slash, "/", and the decimal text of a length,
/// split at the slash into the two, the second of which is that length.
proof fn lemma_length_split(a: Seq<char>, l: u8)
    requires
        vstd::utf8::is_ascii_chars(a),
        forall|k: int| 0 <= k < a.len() ==> #[trigger] a[k] != '/',
    ensures
        split(ascii_bytes(a + seq!['/'] + dec_text(l as nat)), 47) == seq![
            ascii_bytes(a),
            ascii_bytes(dec_text(l as nat)),
        ],
        dec_number(ascii_bytes(dec_text(l as nat))) == Some(l),
{
    let d = dec_text(l as nat);
    let ab = ascii_bytes(a);
    let db = ascii_bytes(d);
    lemma_octet_text(l);
    lemma_dec_text(l as nat);
    lemma_ascii_concat(a, seq!['/']);
    lemma_ascii_concat(a + seq!['/'], d);
    assert(ascii_bytes(seq!['/']) =~= seq![47u8]);
    assert(ascii_bytes(a + seq!['/'] + d) =~= ab + seq![47u8] + db);
    assert forall|k: int| 0 <= k < ab.len() implies ab[k] != 47 by {
        assert(a[k] != '/');
        assert('\0' <= a[k] <= '\u{7f}');
    }
    assert forall|k: int| 0 <= k < db.len() implies db[k] != 47 by {
        assert('0' <= d[k] <= '9');
    }
    lemma_split_concat(ab, db, 47);
    lemma_split_first(ab, 47, ab.len() as int);
    lemma_split_first(db, 47, db.len() as int);
    assert(ab.take(ab.len() as int) =~= ab);
    assert(db.take(db.len() as int) =~= db);
}

/// The text of an IPv6 address has no slash.
proof fn lemma_ipv6_text_no_slash(g: Seq<u16>)
    requires
        g.len() == 8,
    ensures
        forall|k: int| 0 <= k < ipv6_display(g).len() ==> #[trigger] ipv6_display(g)[k] != '/',
{
    let text = ipv6_display(g);
    if forall|i: int| 0 <= i < 8 ==> g[i] == 0 {
    } else if (forall|i: int| 0 <= i < 7 ==> g[i] == 0) && g[7] == 1 {
    } else if (forall|i: int| 0 <= i < 5 ==> g[i] == 0) && (g[5] == 0 || g[5] == 0xffff) {
        let ipv4 = ipv4_display(embedded_octets(g));
        lemma_ipv4_octets_text(embedded_octets(g));
        assert forall|k: int| 0 <= k < text.len() implies #[trigger] text[k] != '/' by {
            if k >= text.len() - ipv4.len() {
                assert(text[k] == ipv4[k - (text.len() - ipv4.len())]);
            }
        }
    } else {
        let (s, l) = longest_zero_run(g, 8);
        if l > 1 {
            let head = g.take(s);
            let tail = g.skip(s + l);
            let jh = join_hex(head);
            let jt = join_hex(tail);
            if head.len() > 0 {
                lemma_join_hex(head);
            }
            if tail.len() > 0 {
                lemma_join_hex(tail);
            }
            assert(text == jh + seq![':', ':'] + jt);
            assert forall|k: int| 0 <= k < text.len() implies #[trigger] text[k] != '/' by {
                if k < jh.len() {
                    assert(text[k] == jh[k]);
                    assert(is_hex_char(jh[k]) || jh[k] == ':');
                } else if k >= jh.len() + 2 {
                    assert(text[k] == jt[k - jh.len() - 2]);
                    assert(is_hex_char(jt[k - jh.len() - 2]) || jt[k - jh.len() - 2] == ':');
                }
            }
        } else {
            lemma_join_hex(g);
            assert forall|k: int| 0 <= k < text.len() implies #[trigger] text[k] != '/' by {
                assert(is_hex_char(text[k]) || text[k] == ':');
            }
        }
    }
}

/// Parsing the text of an IPv4 prefix, its network address, "/" and its
/// length, gives back the network address and the length.
pub proof fn lemma_ipv4_prefix_text(v: u128, l: u8)
    requires
        v <= 0xffff_ffff,
    ensures
        ipv4_prefix(ascii_bytes(ipv4_display(be_bytes(v, 32)) + seq!['/'] + dec_text(l as nat))) == Some(
            (v, l),
        ),
{
    let o = be_bytes(v, 32);
    let a = ipv4_display(o);
    lemma_ipv4_octets_text(o);
    assert forall|k: int| 0 <= k < a.len() implies #[trigger] a[k] != '/' by {
        assert('0' <= a[k] <= '9' || a[k] == '.');
    }
    lemma_length_split(a, l);
    let t = ascii_bytes(a + seq!['/'] + dec_text(l as nat));
    assert(ipv4_prefix_text(t) == Some((o, l)));
    lemma_value_of_bytes(v, 32);
}

/// Parsing the text of an IPv6 prefix, its network address, "/" and its
/// length, gives back the network address and the length.
pub proof fn lemma_ipv6_prefix_text(v: u128, l: u8)
    ensures
        ipv6_prefix(ascii_bytes(ipv6_display(be_segments(v)) + seq!['/'] + dec_text(l as nat))) == Some(
            (v, l),
        ),
{
    let g = be_segments(v);
    let a = ipv6_display(g);
    lemma_ipv6_segments_text(g);
    lemma_ipv6_text_no_slash(g);
    lemma_length_split(a, l);
    let t = ascii_bytes(a + seq!['/'] + dec_text(l as nat));
    assert(ipv6_prefix_text(t) == Some((g, l)));
    lemma_value_of_segments(v);
}

} // verus!
