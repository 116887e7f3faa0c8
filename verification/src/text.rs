use vstd::prelude::*;
use vstd::string::StringExecFns;

use crate::bits::{be_segment, be_segments};

verus! {

/// The lower-case hexadecimal digit characters.
pub open spec fn digit_chars() -> Seq<char> {
    seq!['0', '1', '2', '3', '4', '5', '6', '7', '8', '9', 'a', 'b', 'c', 'd', 'e', 'f']
}

/// The character of a digit below sixteen.
pub open spec fn digit_char(d: nat) -> char {
    digit_chars()[d as int]
}

/// The decimal text of `n`, without leading zeros.
pub open spec fn dec_text(n: nat) -> Seq<char>
    decreases n,
{
    if n < 10 {
        seq![digit_char(n)]
    } else {
        dec_text(n / 10) + seq![digit_char(n % 10)]
    }
}

/// The lower-case hexadecimal text of `n`, without leading zeros.
pub open spec fn hex_text(n: nat) -> Seq<char>
    decreases n,
{
    if n < 16 {
        seq![digit_char(n)]
    } else {
        hex_text(n / 16) + seq![digit_char(n % 16)]
    }
}

/// The dotted-decimal text of four octets.
pub open spec fn ipv4_display(o: Seq<u8>) -> Seq<char> {
    dec_text(o[0] as nat) + seq!['.'] + dec_text(o[1] as nat) + seq!['.'] + dec_text(o[2] as nat)
        + seq!['.'] + dec_text(o[3] as nat)
}

/// Hexadecimal groups separated by ":".
pub open spec fn join_hex(g: Seq<u16>) -> Seq<char>
    decreases g.len(),
{
    if g.len() == 0 {
        seq![]
    } else if g.len() == 1 {
        hex_text(g[0] as nat)
    } else {
        join_hex(g.drop_last()) + seq![':'] + hex_text(g.last() as nat)
    }
}

/// The number of consecutive zero groups of `g` starting at `i`.
pub open spec fn zero_run(g: Seq<u16>, i: int) -> nat
    decreases g.len() - i,
{
    if 0 <= i < g.len() && g[i] == 0 {
        1 + zero_run(g, i + 1)
    } else {
        0
    }
}

/// The start and length of the first longest run of zero groups starting
/// before position `n`.
pub open spec fn longest_zero_run(g: Seq<u16>, n: int) -> (int, nat)
    decreases n,
{
    if n <= 0 {
        (0, 0)
    } else {
        let b = longest_zero_run(g, n - 1);
        if zero_run(g, n - 1) > b.1 {
            (n - 1, zero_run(g, n - 1))
        } else {
            b
        }
    }
}

/// The four octets of the last two groups of an IPv6 address.
pub open spec fn embedded_octets(g: Seq<u16>) -> Seq<u8> {
    seq![(g[6] / 256) as u8, (g[6] % 256) as u8, (g[7] / 256) as u8, (g[7] % 256) as u8]
}

/// The text of the IPv6 address with segments `g`: "::" and "::1" for the
/// unspecified and loopback addresses, the embedded IPv4 address in dotted
/// notation for IPv4-compatible and IPv4-mapped addresses, and otherwise
/// the hexadecimal groups with the first longest run of two or more zero
/// groups replaced by "::".
pub open spec fn ipv6_display(g: Seq<u16>) -> Seq<char> {
    if forall|i: int| 0 <= i < 8 ==> g[i] == 0 {
        seq![':', ':']
    } else if (forall|i: int| 0 <= i < 7 ==> g[i] == 0) && g[7] == 1 {
        seq![':', ':', '1']
    } else if (forall|i: int| 0 <= i < 5 ==> g[i] == 0) && (g[5] == 0 || g[5] == 0xffff) {
        seq![':', ':'] + (if g[5] == 0xffff {
            seq!['f', 'f', 'f', 'f', ':']
        } else {
            seq![]
        }) + ipv4_display(embedded_octets(g))
    } else {
        let (s, l) = longest_zero_run(g, 8);
        if l > 1 {
            join_hex(g.take(s)) + seq![':', ':'] + join_hex(g.skip(s + l))
        } else {
            join_hex(g)
        }
    }
}

/// The text of one hexadecimal digit.
fn digit_str(d: u8) -> (r: &'static str)
    requires
        d < 16,
    ensures
        r@ == seq![digit_char(d as nat)],
{
    proof {
        reveal_strlit("0");
        reveal_strlit("1");
        reveal_strlit("2");
        reveal_strlit("3");
        reveal_strlit("4");
        reveal_strlit("5");
        reveal_strlit("6");
        reveal_strlit("7");
        reveal_strlit("8");
        reveal_strlit("9");
        reveal_strlit("a");
        reveal_strlit("b");
        reveal_strlit("c");
        reveal_strlit("d");
        reveal_strlit("e");
        reveal_strlit("f");
    }
    match d {
        0 => "0",
        1 => "1",
        2 => "2",
        3 => "3",
        4 => "4",
        5 => "5",
        6 => "6",
        7 => "7",
        8 => "8",
        9 => "9",
        10 => "a",
        11 => "b",
        12 => "c",
        13 => "d",
        14 => "e",
        _ => "f",
    }
}

/// Append the decimal text of `n`.
pub fn push_dec(s: &mut String, n: u8)
    ensures
        final(s)@ == old(s)@ + dec_text(n as nat),
    decreases n,
{
    if n >= 10 {
        push_dec(s, n / 10);
    }
    let d = digit_str(n % 10);
    s.append(d);
    assert(s@ =~= old(s)@ + dec_text(n as nat));
}

/// Append the hexadecimal text of `n`.
pub fn push_hex(s: &mut String, n: u16)
    ensures
        final(s)@ == old(s)@ + hex_text(n as nat),
    decreases n,
{
    if n >= 16 {
        push_hex(s, n / 16);
    }
    let d = digit_str((n % 16) as u8);
    s.append(d);
    assert(s@ =~= old(s)@ + hex_text(n as nat));
}

/// Append a string.
pub fn push_str(s: &mut String, t: &str)
    ensures
        final(s)@ == old(s)@ + t@,
{
    s.append(t);
}

/// Append the dotted-decimal text of four octets.
pub fn push_ipv4(s: &mut String, o: &[u8])
    requires
        o@.len() == 4,
    ensures
        final(s)@ == old(s)@ + ipv4_display(o@),
{
    proof {
        reveal_strlit(".");
    }
    push_dec(s, o[0]);
    push_str(s, ".");
    push_dec(s, o[1]);
    push_str(s, ".");
    push_dec(s, o[2]);
    push_str(s, ".");
    push_dec(s, o[3]);
    assert(s@ =~= old(s)@ + ipv4_display(o@));
}

/// Append the groups `g[lo..hi]` in hexadecimal, separated by ":".
fn push_groups(s: &mut String, g: &[u16], lo: usize, hi: usize)
    requires
        lo <= hi <= g@.len(),
    ensures
        final(s)@ == old(s)@ + join_hex(g@.subrange(lo as int, hi as int)),
{
    if lo == hi {
        assert(g@.subrange(lo as int, hi as int) =~= Seq::<u16>::empty());
        return;
    }
    push_hex(s, g[lo]);
    proof {
        assert(g@.subrange(lo as int, lo + 1) =~= seq![g@[lo as int]]);
    }
    let mut k = lo + 1;
    while k < hi
        invariant
            lo < k <= hi <= g@.len(),
            s@ == old(s)@ + join_hex(g@.subrange(lo as int, k as int)),
        decreases hi - k,
    {
        proof {
            reveal_strlit(":");
        }
        push_str(s, ":");
        push_hex(s, g[k]);
        proof {
            let t = g@.subrange(lo as int, k + 1);
            assert(t.drop_last() =~= g@.subrange(lo as int, k as int));
            assert(t.last() == g@[k as int]);
            assert(s@ =~= old(s)@ + join_hex(t));
        }
        k = k + 1;
    }
}

/// The number of consecutive zero groups of `g` starting at `i`.
fn zero_run_at(g: &[u16], i: usize) -> (r: usize)
    requires
        i <= g@.len(),
    ensures
        r == zero_run(g@, i as int),
        i + r <= g@.len(),
{
    let mut j = i;
    while j < g.len() && g[j] == 0
        invariant
            i <= j <= g@.len(),
            zero_run(g@, i as int) == (j - i) + zero_run(g@, j as int),
        decreases g@.len() - j,
    {
        j = j + 1;
    }
    j - i
}

/// Append the text of the IPv6 address with segments `g`.
pub fn push_ipv6(s: &mut String, g: &[u16])
    requires
        g@.len() == 8,
    ensures
        final(s)@ == old(s)@ + ipv6_display(g@),
{
    proof {
        reveal_strlit("::");
        reveal_strlit("::1");
        reveal_strlit("ffff:");
    }
    let mut leading: usize = 0;
    while leading < 8 && g[leading] == 0
        invariant
            leading <= 8,
            g@.len() == 8,
            forall|i: int| 0 <= i < leading ==> g@[i] == 0,
        decreases 8 - leading,
    {
        leading = leading + 1;
    }
    if leading == 8 {
        push_str(s, "::");
    } else if leading == 7 && g[7] == 1 {
        push_str(s, "::1");
    } else if leading >= 5 && (g[5] == 0 || g[5] == 0xffff) {
        push_str(s, "::");
        if g[5] == 0xffff {
            push_str(s, "ffff:");
        }
        let o = [(g[6] >> 8) as u8, (g[6] & 0xff) as u8, (g[7] >> 8) as u8, (g[7] & 0xff) as u8];
        proof {
            let (a, b) = (g@[6], g@[7]);
            assert((a >> 8u16) as u8 == (a / 256) as u8 && (a & 0xffu16) as u8 == (a % 256) as u8)
                by (bit_vector);
            assert((b >> 8u16) as u8 == (b / 256) as u8 && (b & 0xffu16) as u8 == (b % 256) as u8)
                by (bit_vector);
            assert(o@ =~= embedded_octets(g@));
        }
        push_ipv4(s, &o);
        proof {
            assert(!(forall|i: int| 0 <= i < 8 ==> g@[i] == 0)) by {
                assert(g@[leading as int] != 0);
            }
            assert(!((forall|i: int| 0 <= i < 7 ==> g@[i] == 0) && g@[7] == 1)) by {
                if forall|i: int| 0 <= i < 7 ==> g@[i] == 0 {
                    if leading < 7 {
                        assert(g@[leading as int] != 0);
                    }
                }
            }
            assert(s@ =~= old(s)@ + ipv6_display(g@));
        }
    } else {
        let mut best: usize = 0;
        let mut best_len: usize = 0;
        let mut i: usize = 0;
        while i < 8
            invariant
                i <= 8,
                g@.len() == 8,
                longest_zero_run(g@, i as int) == (best as int, best_len as nat),
                best + best_len <= 8,
            decreases 8 - i,
        {
            let r = zero_run_at(g, i);
            if r > best_len {
                best = i;
                best_len = r;
            }
            i = i + 1;
        }
        if best_len > 1 {
            push_groups(s, g, 0, best);
            push_str(s, "::");
            push_groups(s, g, best + best_len, 8);
            proof {
                assert(g@.subrange(0, best as int) =~= g@.take(best as int));
                assert(g@.subrange((best + best_len) as int, 8) =~= g@.skip(
                    (best + best_len) as int,
                ));
            }
        } else {
            push_groups(s, g, 0, 8);
            proof {
                assert(g@.subrange(0, 8) =~= g@);
            }
        }
        proof {
            assert(!(forall|i: int| 0 <= i < 8 ==> g@[i] == 0)) by {
                assert(g@[leading as int] != 0);
            }
            assert(!((forall|i: int| 0 <= i < 7 ==> g@[i] == 0) && g@[7] == 1)) by {
                if forall|i: int| 0 <= i < 7 ==> g@[i] == 0 {
                    if leading < 7 {
                        assert(g@[leading as int] != 0);
                    }
                }
            }
            assert(!((forall|i: int| 0 <= i < 5 ==> g@[i] == 0) && (g@[5] == 0 || g@[5]
                == 0xffff))) by {
                if forall|i: int| 0 <= i < 5 ==> g@[i] == 0 {
                    if leading < 5 {
                        assert(g@[leading as int] != 0);
                    }
                }
            }
            assert(s@ =~= old(s)@ + ipv6_display(g@));
        }
    }
}

/// The eight big-endian segments of a 128-bit value.
pub fn segments_of(v: u128) -> (r: [u16; 8])
    ensures
        r@ == be_segments(v),
{
    let mut r = [0u16; 8];
    let mut i: usize = 0;
    while i < 8
        invariant
            i <= 8,
            r@.len() == 8,
            forall|j: int| 0 <= j < i ==> r@[j] == be_segment(v, j),
        decreases 8 - i,
    {
        let shift: u32 = (112 - 16 * i) as u32;
        r[i] = (v >> shift) as u16;
        i = i + 1;
    }
    assert(r@ =~= be_segments(v));
    r
}

} // verus!
