use vstd::prelude::*;

verus! {

/// `c` is an ASCII decimal digit.
pub open spec fn is_dec_digit(c: u8) -> bool {
    48 <= c <= 57
}

/// The value of an ASCII hexadecimal digit (either case).
pub open spec fn hex_digit(c: u8) -> Option<nat> {
    if 48 <= c <= 57 {
        Some((c - 48) as nat)
    } else if 97 <= c <= 102 {
        Some((c - 87) as nat)
    } else if 65 <= c <= 70 {
        Some((c - 55) as nat)
    } else {
        None
    }
}

/// Hexadecimal digits are read without regard to case: each of the letters
/// `a` to `f` has the values 10 to 15, and its upper-case form `A` to `F`
/// has the same value; no other letter is a digit.
pub proof fn lemma_hex_digit_case(c: u8)
    ensures
        97 <= c <= 102 ==> hex_digit(c) == Some((c - 87) as nat) && hex_digit((c - 32) as u8) == hex_digit(c),
        48 <= c <= 57 ==> hex_digit(c) == Some((c - 48) as nat),
        (hex_digit(c) is Some) == (48 <= c <= 57 || 97 <= c <= 102 || 65 <= c <= 70),
{
}

/// The value of a string of decimal digits.
pub open spec fn dec_value(t: Seq<u8>) -> nat
    decreases t.len(),
{
    if t.len() == 0 {
        0
    } else {
        dec_value(t.drop_last()) * 10 + (t.last() - 48) as nat
    }
}

/// The value of a string of hexadecimal digits.
pub open spec fn hex_value(t: Seq<u8>) -> nat
    decreases t.len(),
{
    if t.len() == 0 {
        0
    } else {
        hex_value(t.drop_last()) * 16 + hex_digit(t.last())->0
    }
}

/// A decimal number of one to three digits, without leading zeros, of value
/// at most 255.
pub open spec fn dec_number(t: Seq<u8>) -> Option<u8> {
    if 1 <= t.len() <= 3 && (forall|i: int| 0 <= i < t.len() ==> is_dec_digit(#[trigger] t[i])) && (
    t.len() == 1 || t[0] != 48) && dec_value(t) <= 255 {
        Some(dec_value(t) as u8)
    } else {
        None
    }
}

/// A group of one to four hexadecimal digits.
pub open spec fn h16(t: Seq<u8>) -> Option<u16> {
    if 1 <= t.len() <= 4 && (forall|i: int| 0 <= i < t.len() ==> (#[trigger] hex_digit(t[i])) is Some) {
        Some(hex_value(t) as u16)
    } else {
        None
    }
}

/// The index of the first occurrence of `c` in `s`.
pub open spec fn find_byte(s: Seq<u8>, c: u8) -> Option<int>
    decreases s.len(),
{
    if s.len() == 0 {
        None
    } else if s[0] == c {
        Some(0)
    } else {
        match find_byte(s.drop_first(), c) {
            Some(i) => Some(i + 1),
            None => None,
        }
    }
}

pub proof fn lemma_find_byte(s: Seq<u8>, c: u8)
    ensures
        find_byte(s, c) matches Some(i) ==> 0 <= i < s.len() && s[i] == c && forall|k: int|
            0 <= k < i ==> s[k] != c,
        find_byte(s, c) is None ==> forall|k: int| 0 <= k < s.len() ==> s[k] != c,
    decreases s.len(),
{
    if s.len() > 0 {
        lemma_find_byte(s.drop_first(), c);
        if s[0] != c {
            assert forall|k: int| 1 <= k < s.len() implies s[k] == s.drop_first()[k - 1] by {}
        }
    }
}

/// The pieces of `s` separated by `c` (at least one piece).
pub open spec fn split(s: Seq<u8>, c: u8) -> Seq<Seq<u8>>
    decreases s.len(),
{
    match find_byte(s, c) {
        None => seq![s],
        Some(i) => {
            proof {
                lemma_find_byte(s, c);
            }
            seq![s.take(i)] + split(s.skip(i + 1), c)
        },
    }
}

/// The text of an IPv4 address: four decimal octets separated by dots.
pub open spec fn ipv4_octets(t: Seq<u8>) -> Option<Seq<u8>> {
    let p = split(t, 46);
    if p.len() == 4 && forall|i: int| 0 <= i < 4 ==> (#[trigger] dec_number(p[i])) is Some {
        Some(Seq::new(4, |i: int| dec_number(p[i])->0))
    } else {
        None
    }
}

} // verus!

verus! {

/// The index of the first "::" in `t`.
pub open spec fn first_dc(t: Seq<u8>) -> Option<int>
    decreases t.len(),
{
    if t.len() < 2 {
        None
    } else if t[0] == 58 && t[1] == 58 {
        Some(0)
    } else {
        match first_dc(t.drop_first()) {
            Some(i) => Some(i + 1),
            None => None,
        }
    }
}

/// The colon separated pieces of `t`; none for an empty `t`.
pub open spec fn colon_groups(t: Seq<u8>) -> Seq<Seq<u8>> {
    if t.len() == 0 {
        seq![]
    } else {
        split(t, 58)
    }
}

/// Every piece is a group of hexadecimal digits; their values.
pub open spec fn h16_all(p: Seq<Seq<u8>>) -> Option<Seq<u16>>
    decreases p.len(),
{
    if p.len() == 0 {
        Some(seq![])
    } else {
        match (h16_all(p.drop_last()), h16(p.last())) {
            (Some(g), Some(x)) => Some(g.push(x)),
            _ => None,
        }
    }
}

/// The two 16-bit groups of an embedded IPv4 address.
pub open spec fn ipv4_groups(o: Seq<u8>) -> Seq<u16> {
    seq![(o[0] as nat * 256 + o[1] as nat) as u16, (o[2] as nat * 256 + o[3] as nat) as u16]
}

/// Groups of hexadecimal digits, the last of which may instead be an
/// embedded IPv4 address standing for two groups; their values.
pub open spec fn tail_groups(p: Seq<Seq<u8>>) -> Option<Seq<u16>> {
    if p.len() == 0 {
        Some(seq![])
    } else {
        match h16_all(p.drop_last()) {
            None => None,
            Some(g) => match h16(p.last()) {
                Some(x) => Some(g.push(x)),
                None => match ipv4_octets(p.last()) {
                    Some(o) => Some(g + ipv4_groups(o)),
                    None => None,
                },
            },
        }
    }
}

/// The eight 16-bit segments of the text of an IPv6 address: either eight
/// groups (the last two possibly written as an IPv4 address), or groups
/// before and after a single "::" that stands for at least one zero group.
pub open spec fn ipv6_segments(t: Seq<u8>) -> Option<Seq<u16>> {
    match first_dc(t) {
        None => match tail_groups(split(t, 58)) {
            Some(g) => if g.len() == 8 {
                Some(g)
            } else {
                None
            },
            None => None,
        },
        Some(i) => match (h16_all(colon_groups(t.take(i))), tail_groups(colon_groups(t.skip(i + 2)))) {
            (Some(h), Some(tl)) => if h.len() + tl.len() <= 7 {
                Some(h + Seq::new((8 - h.len() - tl.len()) as nat, |k: int| 0u16) + tl)
            } else {
                None
            },
            _ => None,
        },
    }
}

/// Address text followed by "/" and a decimal length.
pub open spec fn with_length<T>(t: Seq<u8>, addr: spec_fn(Seq<u8>) -> Option<T>) -> Option<(T, u8)> {
    let p = split(t, 47);
    if p.len() == 2 {
        match (addr(p[0]), dec_number(p[1])) {
            (Some(a), Some(l)) => Some((a, l)),
            _ => None,
        }
    } else {
        None
    }
}

/// Address text followed by "/" and three decimal numbers separated by ",".
pub open spec fn with_length_range<T>(t: Seq<u8>, addr: spec_fn(Seq<u8>) -> Option<T>) -> Option<
    (T, u8, u8, u8),
> {
    let p = split(t, 47);
    if p.len() == 2 {
        let n = split(p[1], 44);
        if n.len() == 3 {
            match (addr(p[0]), dec_number(n[0]), dec_number(n[1]), dec_number(n[2])) {
                (Some(a), Some(l), Some(lo), Some(hi)) => Some((a, l, lo, hi)),
                _ => None,
            }
        } else {
            None
        }
    } else {
        None
    }
}

pub proof fn lemma_h16_all(p: Seq<Seq<u8>>)
    ensures
        h16_all(p) is Some <==> forall|i: int| 0 <= i < p.len() ==> (#[trigger] h16(p[i])) is Some,
        h16_all(p) matches Some(g) ==> g.len() == p.len() && forall|i: int|
            0 <= i < p.len() ==> h16(p[i]) == Some(#[trigger] g[i]),
    decreases p.len(),
{
    if p.len() > 0 {
        lemma_h16_all(p.drop_last());
        assert forall|i: int| 0 <= i < p.len() - 1 implies p.drop_last()[i] == p[i] by {}
        if h16_all(p) is None {
            if h16_all(p.drop_last()) is None {
                let i = choose|i: int| 0 <= i < p.drop_last().len() && (#[trigger] h16(p.drop_last()[i])) is None;
                assert(h16(p[i]) is None);
            } else {
                assert(h16(p[p.len() - 1]) is None);
            }
        }
    }
}

} // verus!
