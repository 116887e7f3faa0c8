use vstd::prelude::*;
use vstd::string::StringSliceAdditionalSpecFns;

use core::str::FromStr;

use crate::afi::{AfiEnum, Ipv4, Ipv6};
use crate::concrete;
use crate::afi::afi_width;
use crate::bits::ones;
use crate::concrete::display::{address_display, lemma_ipv4_display_parse, lemma_ipv6_display_parse};
use crate::parser::roundtrip::ascii_bytes;
use crate::error::{Error, Kind};
use crate::parser::ipv4::ipv4_address;
use crate::parser::ipv6::ipv6_address;
use crate::registry::{
    benchmark_span, broadcast_value, documentation_spans, global, in_any_span, in_opt_span,
    in_span, link_local_span, localhost_span, multicast_span, private_spans, reserved_span,
    shared_span, thisnet_span, ula_span,
};

verus! {

/// An IP address of either address family.
#[derive(Copy, Debug, Hash)]
pub enum Address {
    /// An IPv4 address.
    Ipv4(concrete::Address<Ipv4>),
    /// An IPv6 address.
    Ipv6(concrete::Address<Ipv6>),
}

impl View for Address {
    type V = (AfiEnum, u128);

    open spec fn view(&self) -> (AfiEnum, u128) {
        match self {
            Address::Ipv4(a) => (AfiEnum::Ipv4, a@),
            Address::Ipv6(a) => (AfiEnum::Ipv6, a@),
        }
    }
}

/// The text of the address `a` of either family.
pub open spec fn any_address_display(a: (AfiEnum, u128)) -> Seq<char> {
    match a.0 {
        AfiEnum::Ipv4 => address_display::<Ipv4>(a.1),
        AfiEnum::Ipv6 => address_display::<Ipv6>(a.1),
    }
}

/// The address of either family written as `t`: as an IPv4 address, and
/// failing that, as an IPv6 address.
pub open spec fn any_address_text(t: Seq<u8>) -> Option<(AfiEnum, u128)> {
    match ipv4_address(t) {
        Some(v) => Some((AfiEnum::Ipv4, v)),
        None => match ipv6_address(t) {
            Some(v) => Some((AfiEnum::Ipv6, v)),
            None => None,
        },
    }
}

/// Parsing the text of an address of either family gives back that address,
/// and the text is ASCII.
pub proof fn lemma_address_display_parse(a: (AfiEnum, u128))
    requires
        a.1 <= ones(afi_width(a.0)),
    ensures
        vstd::utf8::is_ascii_chars(any_address_display(a)),
        any_address_text(ascii_bytes(any_address_display(a))) == Some(a),
{
    match a.0 {
        AfiEnum::Ipv4 => lemma_ipv4_display_parse(a.1),
        AfiEnum::Ipv6 => lemma_ipv6_display_parse(a.1),
    }
}

/// The canonical form of the IPv6 address `v`: the embedded IPv4 address of
/// an IPv4-mapped address, the IPv6 address otherwise.
pub open spec fn canonical_ipv6(v: u128) -> (AfiEnum, u128) {
    if v >> 32u128 == 0xffff {
        (AfiEnum::Ipv4, v & 0xffff_ffff)
    } else {
        (AfiEnum::Ipv6, v)
    }
}

impl concrete::Address<Ipv6> {
    /// The canonical form of the address: the embedded IPv4 address of an
    /// IPv4-mapped address, the IPv6 address otherwise.
    pub fn to_canonical(&self) -> (r: Address)
        ensures
            r@ == canonical_ipv6(self@),
    {
        match self.to_ipv4_mapped() {
            Some(a) => Address::Ipv4(a),
            None => Address::Ipv6(*self),
        }
    }
}

impl Address {
    /// Returns [`true`] if this is an IPv4 address.
    pub fn is_ipv4(&self) -> (r: bool)
        ensures
            r == (self@.0 == AfiEnum::Ipv4),
    {
        match self {
            Address::Ipv4(_) => true,
            Address::Ipv6(_) => false,
        }
    }

    /// Returns [`true`] if this is an IPv6 address.
    pub fn is_ipv6(&self) -> (r: bool)
        ensures
            r == (self@.0 == AfiEnum::Ipv6),
    {
        match self {
            Address::Ipv4(_) => false,
            Address::Ipv6(_) => true,
        }
    }

    /// The address family of the address.
    pub fn afi(&self) -> (r: AfiEnum)
        ensures
            r == self@.0,
    {
        match self {
            Address::Ipv4(_) => AfiEnum::Ipv4,
            Address::Ipv6(_) => AfiEnum::Ipv6,
        }
    }

    /// The canonical form of the address: an IPv4-mapped IPv6 address
    /// becomes the embedded IPv4 address; any other address is unchanged.
    pub fn to_canonical(&self) -> (r: Self)
        ensures
            r@ == (match self@.0 {
                AfiEnum::Ipv4 => self@,
                AfiEnum::Ipv6 => canonical_ipv6(self@.1),
            }),
    {
        match self {
            Address::Ipv4(_) => *self,
            Address::Ipv6(a) => a.to_canonical(),
        }
    }

    /// Returns [`true`] if this is the limited broadcast address.
    pub fn is_broadcast(&self) -> (r: bool)
        ensures
            r == (broadcast_value(self@.0) == Some(self@.1)),
    {
        match self {
            Address::Ipv4(a) => a.is_broadcast(),
            Address::Ipv6(a) => a.is_broadcast(),
        }
    }

    /// Returns [`true`] if this is a link-local address.
    pub fn is_link_local(&self) -> (r: bool)
        ensures
            r == in_span(self@.1, link_local_span(self@.0)),
    {
        match self {
            Address::Ipv4(a) => a.is_link_local(),
            Address::Ipv6(a) => a.is_link_local(),
        }
    }

    /// Returns [`true`] if this is a private-use address.
    pub fn is_private(&self) -> (r: bool)
        ensures
            r == in_any_span(self@.1, private_spans(self@.0)),
    {
        match self {
            Address::Ipv4(a) => a.is_private(),
            Address::Ipv6(a) => a.is_private(),
        }
    }

    /// Returns [`true`] if this address is reserved for future use.
    pub fn is_reserved(&self) -> (r: bool)
        ensures
            r == in_opt_span(self@.1, reserved_span(self@.0)),
    {
        match self {
            Address::Ipv4(a) => a.is_reserved(),
            Address::Ipv6(a) => a.is_reserved(),
        }
    }

    /// Returns [`true`] if this address is in the shared address space.
    pub fn is_shared(&self) -> (r: bool)
        ensures
            r == in_opt_span(self@.1, shared_span(self@.0)),
    {
        match self {
            Address::Ipv4(a) => a.is_shared(),
            Address::Ipv6(a) => a.is_shared(),
        }
    }

    /// Returns [`true`] if this address is in "this network".
    pub fn is_thisnet(&self) -> (r: bool)
        ensures
            r == in_opt_span(self@.1, thisnet_span(self@.0)),
    {
        match self {
            Address::Ipv4(a) => a.is_thisnet(),
            Address::Ipv6(a) => a.is_thisnet(),
        }
    }

    /// Returns [`true`] if this is a benchmarking address.
    pub fn is_benchmarking(&self) -> (r: bool)
        ensures
            r == in_span(self@.1, benchmark_span(self@.0)),
    {
        match self {
            Address::Ipv4(a) => a.is_benchmarking(),
            Address::Ipv6(a) => a.is_benchmarking(),
        }
    }

    /// Returns [`true`] if this is a documentation address.
    pub fn is_documentation(&self) -> (r: bool)
        ensures
            r == in_any_span(self@.1, documentation_spans(self@.0)),
    {
        match self {
            Address::Ipv4(a) => a.is_documentation(),
            Address::Ipv6(a) => a.is_documentation(),
        }
    }

    /// Returns [`true`] if this address is globally reachable.
    pub fn is_global(&self) -> (r: bool)
        ensures
            r == global(self@.0, self@.1),
    {
        match self {
            Address::Ipv4(a) => a.is_global(),
            Address::Ipv6(a) => a.is_global(),
        }
    }

    /// Returns [`true`] if this is a loopback address.
    pub fn is_loopback(&self) -> (r: bool)
        ensures
            r == in_span(self@.1, localhost_span(self@.0)),
    {
        match self {
            Address::Ipv4(a) => a.is_loopback(),
            Address::Ipv6(a) => a.is_loopback(),
        }
    }

    /// Returns [`true`] if this is a multicast address.
    pub fn is_multicast(&self) -> (r: bool)
        ensures
            r == in_span(self@.1, multicast_span(self@.0)),
    {
        match self {
            Address::Ipv4(a) => a.is_multicast(),
            Address::Ipv6(a) => a.is_multicast(),
        }
    }

    /// Returns [`true`] if this is neither a multicast nor the broadcast address.
    pub fn is_unicast(&self) -> (r: bool)
        ensures
            r == !(in_span(self@.1, multicast_span(self@.0)) || broadcast_value(self@.0) == Some(
                self@.1,
            )),
    {
        match self {
            Address::Ipv4(a) => a.is_unicast(),
            Address::Ipv6(a) => a.is_unicast(),
        }
    }

    /// Returns [`true`] if this is a globally reachable unicast address.
    pub fn is_unicast_global(&self) -> (r: bool)
        ensures
            r == (!(in_span(self@.1, multicast_span(self@.0)) || broadcast_value(self@.0) == Some(
                self@.1,
            )) && global(self@.0, self@.1)),
    {
        match self {
            Address::Ipv4(a) => a.is_unicast_global(),
            Address::Ipv6(a) => a.is_unicast_global(),
        }
    }

    /// Returns [`true`] if this is the unspecified address (all zeros).
    pub fn is_unspecified(&self) -> (r: bool)
        ensures
            r == (self@.1 == 0),
    {
        match self {
            Address::Ipv4(a) => a.is_unspecified(),
            Address::Ipv6(a) => a.is_unspecified(),
        }
    }

    /// Returns [`true`] if this is a unique local address.
    pub fn is_unique_local(&self) -> (r: bool)
        ensures
            r == in_opt_span(self@.1, ula_span(self@.0)),
    {
        match self {
            Address::Ipv4(a) => a.is_unique_local(),
            Address::Ipv6(a) => a.is_unique_local(),
        }
    }

    /// Parse the text of an address: as an IPv4 address, and failing that,
    /// as an IPv6 address.
    ///
    /// # Errors
    ///
    /// Fails with [`Kind::ParserError`] if `s` is the text of an address of
    /// neither family.
    pub fn parse(s: &str) -> (r: Result<Self, Error>)
        ensures
            match any_address_text(s.spec_bytes()) {
                Some(x) => r matches Ok(a) && a@ == x,
                None => r matches Err(e) && e.spec_kind() == Kind::ParserError,
            },
    {
        match concrete::Address::<Ipv4>::parse(s) {
            Ok(a) => Ok(Address::Ipv4(a)),
            Err(_) => match concrete::Address::<Ipv6>::parse(s) {
                Ok(a) => Ok(Address::Ipv6(a)),
                Err(e) => Err(e),
            },
        }
    }

    /// The text of the address.
    pub fn to_string(&self) -> (r: String)
        ensures
            r@ == any_address_display(self@),
    {
        match self {
            Address::Ipv4(a) => a.to_string(),
            Address::Ipv6(a) => a.to_string(),
        }
    }
}

impl Clone for Address {
    fn clone(&self) -> (r: Self)
        ensures
            r == *self,
    {
        *self
    }
}

impl PartialEq for Address {
    fn eq(&self, other: &Self) -> (r: bool) {
        match (self, other) {
            (Address::Ipv4(a), Address::Ipv4(b)) => a.equals(b),
            (Address::Ipv6(a), Address::Ipv6(b)) => a.equals(b),
            _ => false,
        }
    }
}

impl vstd::std_specs::cmp::PartialEqSpecImpl for Address {
    open spec fn obeys_eq_spec() -> bool {
        true
    }

    open spec fn eq_spec(&self, other: &Self) -> bool {
        self@ == other@
    }
}

impl Eq for Address {
}

impl From<concrete::Address<Ipv4>> for Address {
    fn from(a: concrete::Address<Ipv4>) -> (r: Self) {
        Address::Ipv4(a)
    }
}

impl vstd::std_specs::convert::FromSpecImpl<concrete::Address<Ipv4>> for Address {
    open spec fn obeys_from_spec() -> bool {
        true
    }

    open spec fn from_spec(a: concrete::Address<Ipv4>) -> Self {
        Address::Ipv4(a)
    }
}

impl From<concrete::Address<Ipv6>> for Address {
    fn from(a: concrete::Address<Ipv6>) -> (r: Self) {
        Address::Ipv6(a)
    }
}

impl vstd::std_specs::convert::FromSpecImpl<concrete::Address<Ipv6>> for Address {
    open spec fn obeys_from_spec() -> bool {
        true
    }

    open spec fn from_spec(a: concrete::Address<Ipv6>) -> Self {
        Address::Ipv6(a)
    }
}

impl FromStr for Address {
    type Err = Error;

    fn from_str(s: &str) -> (r: Result<Self, Error>)
        ensures
            match any_address_text(s.spec_bytes()) {
                Some(x) => r matches Ok(a) && a@ == x,
                None => r matches Err(e) && e.spec_kind() == Kind::ParserError,
            },
    {
        Self::parse(s)
    }
}

} // verus!

verus! {

impl crate::traits::Address for Address {
    open spec fn is_broadcast_result(&self, r: bool) -> bool {
        &&& r == (broadcast_value(self@.0) == Some(self@.1))
    }

    fn is_broadcast(&self) -> (r: bool) {
        Address::is_broadcast(self)
    }

    open spec fn is_link_local_result(&self, r: bool) -> bool {
        &&& r == in_span(self@.1, link_local_span(self@.0))
    }

    fn is_link_local(&self) -> (r: bool) {
        Address::is_link_local(self)
    }

    open spec fn is_private_result(&self, r: bool) -> bool {
        &&& r == in_any_span(self@.1, private_spans(self@.0))
    }

    fn is_private(&self) -> (r: bool) {
        Address::is_private(self)
    }

    open spec fn is_reserved_result(&self, r: bool) -> bool {
        &&& r == in_opt_span(self@.1, reserved_span(self@.0))
    }

    fn is_reserved(&self) -> (r: bool) {
        Address::is_reserved(self)
    }

    open spec fn is_shared_result(&self, r: bool) -> bool {
        &&& r == in_opt_span(self@.1, shared_span(self@.0))
    }

    fn is_shared(&self) -> (r: bool) {
        Address::is_shared(self)
    }

    open spec fn is_thisnet_result(&self, r: bool) -> bool {
        &&& r == in_opt_span(self@.1, thisnet_span(self@.0))
    }

    fn is_thisnet(&self) -> (r: bool) {
        Address::is_thisnet(self)
    }

    open spec fn is_benchmarking_result(&self, r: bool) -> bool {
        &&& r == in_span(self@.1, benchmark_span(self@.0))
    }

    fn is_benchmarking(&self) -> (r: bool) {
        Address::is_benchmarking(self)
    }

    open spec fn is_documentation_result(&self, r: bool) -> bool {
        &&& r == in_any_span(self@.1, documentation_spans(self@.0))
    }

    fn is_documentation(&self) -> (r: bool) {
        Address::is_documentation(self)
    }

    open spec fn is_global_result(&self, r: bool) -> bool {
        &&& r == global(self@.0, self@.1)
    }

    fn is_global(&self) -> (r: bool) {
        Address::is_global(self)
    }

    open spec fn is_loopback_result(&self, r: bool) -> bool {
        &&& r == in_span(self@.1, localhost_span(self@.0))
    }

    fn is_loopback(&self) -> (r: bool) {
        Address::is_loopback(self)
    }

    open spec fn is_multicast_result(&self, r: bool) -> bool {
        &&& r == in_span(self@.1, multicast_span(self@.0))
    }

    fn is_multicast(&self) -> (r: bool) {
        Address::is_multicast(self)
    }

    open spec fn is_unspecified_result(&self, r: bool) -> bool {
        &&& r == (self@.1 == 0)
    }

    fn is_unspecified(&self) -> (r: bool) {
        Address::is_unspecified(self)
    }

    open spec fn is_unique_local_result(&self, r: bool) -> bool {
        &&& r == in_opt_span(self@.1, ula_span(self@.0))
    }

    fn is_unique_local(&self) -> (r: bool) {
        Address::is_unique_local(self)
    }
}

} // verus!

verus! {

/// An IPv6 address whose upper 96 bits are those of an IPv4-mapped address
/// is the mapped form of its low 32 bits.
proof fn lemma_mapped_split(v: u128)
    by (bit_vector)
    ensures
        v >> 32u128 == 0xffff ==> v == 0xffff_0000_0000 + (v & 0xffff_ffff) && v & 0xffff_ffff <= 0xffff_ffff,
{
}

/// `v` is the IPv4-mapped IPv6 form `::ffff:a.b.c.d` of the IPv4 address `a`.
pub open spec fn is_mapped_form(v: u128, a: u128) -> bool {
    a <= 0xffff_ffff && v == 0xffff_0000_0000 + a
}

/// The canonical form of an IPv6 address is an IPv4 address exactly when
/// the IPv6 address is the IPv4-mapped form `::ffff:a.b.c.d` of some IPv4
/// address, and it is then that IPv4 address; every other IPv6 address,
/// IPv4-compatible ones such as `::1` included, is its own canonical form.
pub proof fn lemma_canonical_mapped(v: u128)
    ensures
        (canonical_ipv6(v).0 == AfiEnum::Ipv4) == exists|a: u128| #[trigger] is_mapped_form(v, a),
        forall|a: u128| #[trigger] is_mapped_form(v, a) ==> canonical_ipv6(v) == (AfiEnum::Ipv4, a),
        canonical_ipv6(v).0 == AfiEnum::Ipv6 ==> canonical_ipv6(v).1 == v,
{
    lemma_mapped_split(v);
    if v >> 32u128 == 0xffff {
        let a = v & 0xffff_ffff;
        assert(is_mapped_form(v, a));
    }
    assert forall|a: u128| #[trigger] is_mapped_form(v, a) implies canonical_ipv6(v) == (AfiEnum::Ipv4, a) by {
        concrete::classify::lemma_embedded_round_trip(a);
    }
}

} // verus!
