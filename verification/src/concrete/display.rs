use vstd::prelude::*;

use crate::afi::{Afi, AfiEnum, Ipv4, Ipv6};
use crate::bits::ones;
use crate::parser::roundtrip::{ascii_bytes, lemma_ipv4_text_parse};
use crate::parser::roundtrip6::{lemma_ipv6_text_not_ipv4, lemma_ipv6_text_parse};
use crate::parser::roundtrip_prefix::{lemma_ipv4_prefix_text, lemma_ipv6_prefix_text};
use crate::model::{truncate, valid_prefix};
use crate::bits::{be_bytes, be_segments};
use crate::text::{dec_text, ipv4_display, ipv6_display, push_dec, push_ipv4, push_ipv6, push_str, segments_of};
use super::addr::Address;
use super::interface::Interface;
use super::len::PrefixLength;
use super::prefix::Prefix;
use super::range::Range;

verus! {

/// The text of the address of family `A` with value `v`: dotted decimal for
/// IPv4, the canonical compressed hexadecimal form for IPv6.
pub open spec fn address_display<A: Afi>(v: u128) -> Seq<char> {
    if A::spec_afi() == AfiEnum::Ipv4 {
        ipv4_display(be_bytes(v, 32))
    } else {
        ipv6_display(be_segments(v))
    }
}

/// The text of a prefix or an interface: the address, "/" and the length.
pub open spec fn prefix_display<A: Afi>(v: u128, l: u8) -> Seq<char> {
    address_display::<A>(v) + seq!['/'] + dec_text(l as nat)
}

/// The text of an IPv4 address is ASCII, and parsing it as an IPv4 address
/// gives back the address.
pub proof fn lemma_ipv4_display_parse(v: u128)
    requires
        v <= ones(32),
    ensures
        vstd::utf8::is_ascii_chars(address_display::<Ipv4>(v)),
        <Ipv4 as Afi>::address_text(ascii_bytes(address_display::<Ipv4>(v))) == Some(v),
{
    lemma_ipv4_text_parse(v);
}

/// The text of an IPv6 address is ASCII; parsing it as an IPv6 address gives
/// back the address, and it is not the text of an IPv4 address.
pub proof fn lemma_ipv6_display_parse(v: u128)
    ensures
        vstd::utf8::is_ascii_chars(address_display::<Ipv6>(v)),
        <Ipv6 as Afi>::address_text(ascii_bytes(address_display::<Ipv6>(v))) == Some(v),
        <Ipv4 as Afi>::address_text(ascii_bytes(address_display::<Ipv6>(v))) is None,
{
    lemma_ipv6_text_parse(v);
    lemma_ipv6_text_not_ipv4(be_segments(v));
}

/// Parsing the text of an IPv4 prefix gives back its network address and
/// length; a prefix with no host bits set is unchanged by the truncation
/// that parsing applies.
pub proof fn lemma_ipv4_prefix_display_parse(v: u128, l: u8)
    requires
        v <= ones(32),
    ensures
        <Ipv4 as Afi>::prefix_text(ascii_bytes(prefix_display::<Ipv4>(v, l))) == Some((v, l)),
        valid_prefix(32, (v, l)) ==> truncate(32, v, l) == (v, l),
{
    lemma_ipv4_prefix_text(v, l);
    if valid_prefix(32, (v, l)) {
        crate::bits::lemma_network_fixed(32, l as u128, v);
    }
}

/// Parsing the text of an IPv6 prefix gives back its network address and
/// length; a prefix with no host bits set is unchanged by the truncation
/// that parsing applies.
pub proof fn lemma_ipv6_prefix_display_parse(v: u128, l: u8)
    ensures
        <Ipv6 as Afi>::prefix_text(ascii_bytes(prefix_display::<Ipv6>(v, l))) == Some((v, l)),
        valid_prefix(128, (v, l)) ==> truncate(128, v, l) == (v, l),
{
    lemma_ipv6_prefix_text(v, l);
    if valid_prefix(128, (v, l)) {
        crate::bits::lemma_network_fixed(128, l as u128, v);
    }
}

impl<A: Afi> Address<A> {
    /// Append the text of `self` to `s`.
    pub fn push_text(&self, s: &mut String)
        ensures
            final(s)@ == old(s)@ + address_display::<A>(self@),
    {
        proof {
            A::lemma_afi();
            use_type_invariant(self);
            A::lemma_afi();
        }
        match A::as_afi() {
            AfiEnum::Ipv4 => {
                let o = <Ipv4 as Afi>::octets_of(self.value());
                push_ipv4(s, &o);
            },
            AfiEnum::Ipv6 => {
                let g = segments_of(self.value());
                push_ipv6(s, &g);
            },
        }
    }

    /// The text of the address: dotted decimal for IPv4, the canonical
    /// compressed hexadecimal form for IPv6.
    pub fn to_string(&self) -> (r: String)
        ensures
            r@ == address_display::<A>(self@),
    {
        let mut s = String::new();
        self.push_text(&mut s);
        assert(s@ =~= address_display::<A>(self@));
        s
    }
}

impl<A: Afi> PrefixLength<A> {
    /// The decimal text of the prefix length.
    pub fn to_string(&self) -> (r: String)
        ensures
            r@ == dec_text(self@ as nat),
    {
        let mut s = String::new();
        push_dec(&mut s, self.into_primitive());
        assert(s@ =~= dec_text(self@ as nat));
        s
    }
}

impl<A: Afi> Prefix<A> {
    /// Append the text of `self` to `s`.
    pub fn push_text(&self, s: &mut String)
        ensures
            final(s)@ == old(s)@ + prefix_display::<A>(self@.0, self@.1),
    {
        proof {
            reveal_strlit("/");
        }
        self.prefix().push_text(s);
        push_str(s, "/");
        push_dec(s, self.length().into_primitive());
        assert(s@ =~= old(s)@ + prefix_display::<A>(self@.0, self@.1));
    }

    /// The text of the prefix: its address, "/" and its length.
    pub fn to_string(&self) -> (r: String)
        ensures
            r@ == prefix_display::<A>(self@.0, self@.1),
    {
        let mut s = String::new();
        self.push_text(&mut s);
        assert(s@ =~= prefix_display::<A>(self@.0, self@.1));
        s
    }
}

impl<A: Afi> Interface<A> {
    /// The text of the interface: its address, "/" and its length.
    pub fn to_string(&self) -> (r: String)
        ensures
            r@ == prefix_display::<A>(self@.0, self@.1),
    {
        proof {
            reveal_strlit("/");
        }
        let mut s = String::new();
        self.address().push_text(&mut s);
        push_str(&mut s, "/");
        push_dec(&mut s, self.length().into_primitive());
        assert(s@ =~= prefix_display::<A>(self@.0, self@.1));
        s
    }
}

impl<A: Afi> Range<A> {
    /// The text of the range: its covering prefix, "^", and the bounds of
    /// the lengths of its members separated by "-".
    pub fn to_string(&self) -> (r: String)
        ensures
            r@ == prefix_display::<A>(self@.0.0, self@.0.1) + seq!['^'] + dec_text(self@.1 as nat)
                + seq!['-'] + dec_text(self@.2 as nat),
    {
        proof {
            reveal_strlit("^");
            reveal_strlit("-");
        }
        let mut s = String::new();
        self.prefix().push_text(&mut s);
        push_str(&mut s, "^");
        push_dec(&mut s, self.lower().into_primitive());
        push_str(&mut s, "-");
        push_dec(&mut s, self.upper().into_primitive());
        assert(s@ =~= prefix_display::<A>(self@.0.0, self@.0.1) + seq!['^'] + dec_text(
            self@.1 as nat,
        ) + seq!['-'] + dec_text(self@.2 as nat));
        s
    }
}

} // verus!
