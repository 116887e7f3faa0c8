use vstd::prelude::*;

use crate::afi::{width, Afi, AfiEnum, Ipv4, Ipv6};
use crate::bits::{be_segments, ones};
use crate::registry::{
    benchmark, benchmark_span, broadcast, broadcast_value, contains_any, contains_opt,
    documentation, documentation_spans, global, in_any_span, in_opt_span, in_span, ipv4_is_global,
    ipv6_is_global, link_local, link_local_span, localhost, localhost_span, multicast,
    multicast_span, private, private_spans, reserved, reserved_span, shared, shared_span, thisnet,
    thisnet_span, ula, ula_span,
};
use crate::text::segments_of;
use super::addr::Address;
use super::addr_range::AddressRange;

verus! {

/// The span of addresses `s` as an [`AddressRange<A>`].
fn span_range<A: Afi>(s: (u128, u128)) -> (r: AddressRange<A>)
    requires
        s.0 <= ones(width::<A>()),
        s.1 <= ones(width::<A>()),
    ensures
        r@ == s,
{
    AddressRange::from_values(s.0, s.1)
}

impl<A: Afi> Address<A> {
    /// Returns [`true`] if this is the limited broadcast address.
    pub fn is_broadcast(&self) -> (r: bool)
        ensures
            r == (broadcast_value(A::spec_afi()) == Some(self@)),
    {
        match broadcast(A::as_afi()) {
            Some(b) => self.value() == b,
            None => false,
        }
    }

    /// Returns [`true`] if this is a link-local address.
    pub fn is_link_local(&self) -> (r: bool)
        ensures
            r == in_span(self@, link_local_span(A::spec_afi())),
    {
        proof {
            A::lemma_afi();
        }
        span_range::<A>(link_local(A::as_afi())).contains(self)
    }

    /// Returns [`true`] if this is a private-use address.
    pub fn is_private(&self) -> (r: bool)
        ensures
            r == in_any_span(self@, private_spans(A::spec_afi())),
    {
        contains_any(&private(A::as_afi()), self.value())
    }

    /// Returns [`true`] if this address is reserved for future use.
    pub fn is_reserved(&self) -> (r: bool)
        ensures
            r == in_opt_span(self@, reserved_span(A::spec_afi())),
    {
        proof {
            A::lemma_afi();
        }
        match reserved(A::as_afi()) {
            Some(s) => span_range::<A>(s).contains(self),
            None => false,
        }
    }

    /// Returns [`true`] if this address is in the shared address space.
    pub fn is_shared(&self) -> (r: bool)
        ensures
            r == in_opt_span(self@, shared_span(A::spec_afi())),
    {
        proof {
            A::lemma_afi();
        }
        match shared(A::as_afi()) {
            Some(s) => span_range::<A>(s).contains(self),
            None => false,
        }
    }

    /// Returns [`true`] if this address is in "this network".
    pub fn is_thisnet(&self) -> (r: bool)
        ensures
            r == in_opt_span(self@, thisnet_span(A::spec_afi())),
    {
        proof {
            A::lemma_afi();
        }
        match thisnet(A::as_afi()) {
            Some(s) => span_range::<A>(s).contains(self),
            None => false,
        }
    }

    /// Returns [`true`] if this is a benchmarking address.
    pub fn is_benchmarking(&self) -> (r: bool)
        ensures
            r == in_span(self@, benchmark_span(A::spec_afi())),
    {
        proof {
            A::lemma_afi();
        }
        span_range::<A>(benchmark(A::as_afi())).contains(self)
    }

    /// Returns [`true`] if this is a documentation address.
    pub fn is_documentation(&self) -> (r: bool)
        ensures
            r == in_any_span(self@, documentation_spans(A::spec_afi())),
    {
        contains_any(&documentation(A::as_afi()), self.value())
    }

    /// Returns [`true`] if this address is globally reachable.
    pub fn is_global(&self) -> (r: bool)
        ensures
            r == global(A::spec_afi(), self@),
    {
        match A::as_afi() {
            AfiEnum::Ipv4 => ipv4_is_global(self.value()),
            AfiEnum::Ipv6 => ipv6_is_global(self.value()),
        }
    }

    /// Returns [`true`] if this is a loopback address.
    pub fn is_loopback(&self) -> (r: bool)
        ensures
            r == in_span(self@, localhost_span(A::spec_afi())),
    {
        proof {
            A::lemma_afi();
        }
        span_range::<A>(localhost(A::as_afi())).contains(self)
    }

    /// Returns [`true`] if this is a multicast address.
    pub fn is_multicast(&self) -> (r: bool)
        ensures
            r == in_span(self@, multicast_span(A::spec_afi())),
    {
        proof {
            A::lemma_afi();
        }
        span_range::<A>(multicast(A::as_afi())).contains(self)
    }

    /// Returns [`true`] if this is the unspecified address (all zeros).
    pub fn is_unspecified(&self) -> (r: bool)
        ensures
            r == (self@ == 0),
    {
        self.value() == 0
    }

    /// Returns [`true`] if this is a unique local address.
    pub fn is_unique_local(&self) -> (r: bool)
        ensures
            r == in_opt_span(self@, ula_span(A::spec_afi())),
    {
        proof {
            A::lemma_afi();
        }
        match ula(A::as_afi()) {
            Some(s) => span_range::<A>(s).contains(self),
            None => false,
        }
    }

    /// Returns [`true`] if this is neither a multicast nor the broadcast
    /// address.
    pub fn is_unicast(&self) -> (r: bool)
        ensures
            r == !(in_span(self@, multicast_span(A::spec_afi())) || broadcast_value(A::spec_afi())
                == Some(self@)),
    {
        !(self.is_multicast() || self.is_broadcast())
    }

    /// Returns [`true`] if this is a globally reachable unicast address.
    pub fn is_unicast_global(&self) -> (r: bool)
        ensures
            r == (!(in_span(self@, multicast_span(A::spec_afi())) || broadcast_value(A::spec_afi())
                == Some(self@)) && global(A::spec_afi(), self@)),
    {
        self.is_unicast() && self.is_global()
    }
}

impl Address<Ipv4> {
    /// Converts this address to the IPv4-compatible IPv6 address
    /// `::a.b.c.d`.
    pub fn to_ipv6_compatible(&self) -> (r: Address<Ipv6>)
        ensures
            r@ == self@,
    {
        proof {
            use_type_invariant(self);
        }
        Address::from_value(self.value())
    }

    /// Converts this address to the IPv4-mapped IPv6 address
    /// `::ffff:a.b.c.d`.
    pub fn to_ipv6_mapped(&self) -> (r: Address<Ipv6>)
        ensures
            r@ == 0xffff_0000_0000 + self@,
    {
        proof {
            use_type_invariant(self);
        }
        Address::from_value(0xffff_0000_0000 + self.value())
    }
}

/// IPv6 multicast address scopes.
#[derive(Clone, Copy, Debug, Hash, PartialEq, Eq, Structural)]
pub enum MulticastScope {
    /// Reserved.
    Reserved,
    /// Scope values not yet assigned to a multicast scope.
    Unassigned,
    /// Interface local scope.
    InterfaceLocal,
    /// Link local scope.
    LinkLocal,
    /// Realm local scope.
    RealmLocal,
    /// Locally administered scope.
    AdminLocal,
    /// Site local scope.
    SiteLocal,
    /// Organization local scope.
    OrganizationLocal,
    /// Global scope.
    Global,
}

/// The multicast scope named by the four-bit scope field `s`.
pub open spec fn scope_of(s: u128) -> MulticastScope {
    if s == 0x0 || s == 0xf {
        MulticastScope::Reserved
    } else if s == 0x1 {
        MulticastScope::InterfaceLocal
    } else if s == 0x2 {
        MulticastScope::LinkLocal
    } else if s == 0x3 {
        MulticastScope::RealmLocal
    } else if s == 0x4 {
        MulticastScope::AdminLocal
    } else if s == 0x5 {
        MulticastScope::SiteLocal
    } else if s == 0x8 {
        MulticastScope::OrganizationLocal
    } else if s == 0xe {
        MulticastScope::Global
    } else {
        MulticastScope::Unassigned
    }
}

impl Address<Ipv6> {
    /// Returns [`true`] if the address is unicast link local.
    pub fn is_unicast_link_local(&self) -> (r: bool)
        ensures
            r == in_span(self@, link_local_span(AfiEnum::Ipv6)),
    {
        self.is_link_local()
    }

    /// The multicast scope of a multicast address, named by the low four
    /// bits of its second octet; [`None`] for other addresses.
    pub fn multicast_scope(&self) -> (r: Option<MulticastScope>)
        ensures
            r == (if in_span(self@, multicast_span(AfiEnum::Ipv6)) {
                Some(scope_of((self@ >> 112u128) & 0xf))
            } else {
                None
            }),
    {
        if self.is_multicast() {
            let v = self.value();
            let s = (v >> 112u32) & 0xf;
            let scope = if s == 0x0 || s == 0xf {
                MulticastScope::Reserved
            } else if s == 0x1 {
                MulticastScope::InterfaceLocal
            } else if s == 0x2 {
                MulticastScope::LinkLocal
            } else if s == 0x3 {
                MulticastScope::RealmLocal
            } else if s == 0x4 {
                MulticastScope::AdminLocal
            } else if s == 0x5 {
                MulticastScope::SiteLocal
            } else if s == 0x8 {
                MulticastScope::OrganizationLocal
            } else if s == 0xe {
                MulticastScope::Global
            } else {
                MulticastScope::Unassigned
            };
            Some(scope)
        } else {
            None
        }
    }

    /// The eight big-endian 16-bit segments of the address.
    pub fn segments(&self) -> (r: [u16; 8])
        ensures
            r@ == be_segments(self@),
    {
        segments_of(self.value())
    }

    /// The embedded IPv4 address of an IPv4-mapped address
    /// (`::ffff:a.b.c.d`), or [`None`] otherwise.
    pub fn to_ipv4_mapped(&self) -> (r: Option<Address<Ipv4>>)
        ensures
            r is Some <==> self@ >> 32u128 == 0xffff,
            r matches Some(a) ==> a@ == self@ & 0xffff_ffff,
    {
        let v = self.value();
        if v >> 32u32 == 0xffff {
            let x = v & 0xffff_ffff;
            assert(x <= 0xffff_ffff) by (bit_vector)
                requires
                    x == v & 0xffff_ffff,
            ;
            Some(Address::from_value(x))
        } else {
            None
        }
    }

    /// The embedded IPv4 address of an IPv4-mapped (`::ffff:a.b.c.d`) or
    /// IPv4-compatible (`::a.b.c.d`) address, or [`None`] otherwise.
    pub fn to_ipv4(&self) -> (r: Option<Address<Ipv4>>)
        ensures
            r is Some <==> (self@ >> 32u128 == 0xffff || self@ >> 32u128 == 0),
            r matches Some(a) ==> a@ == self@ & 0xffff_ffff,
    {
        match self.to_ipv4_mapped() {
            Some(a) => Some(a),
            None => {
                let v = self.value();
                if v >> 32u32 == 0 {
                    let x = v & 0xffff_ffff;
                    assert(x <= 0xffff_ffff) by (bit_vector)
                        requires
                            x == v & 0xffff_ffff,
                    ;
                    Some(Address::from_value(x))
                } else {
                    None
                }
            },
        }
    }
}

/// The IPv4-mapped and IPv4-compatible forms of an IPv4 address give it
/// back: as the embedded address of the mapped form and of the compatible
/// form, and as the canonical form of the mapped one.
pub proof fn lemma_embedded_round_trip(v: u128)
    by (bit_vector)
    requires
        v <= 0xffff_ffff,
    ensures
        ((0xffff_0000_0000 + v) as u128) >> 32u128 == 0xffff,
        ((0xffff_0000_0000 + v) as u128) & 0xffff_ffff == v,
        v >> 32u128 == 0,
        v & 0xffff_ffff == v,
{
}

} // verus!

verus! {

impl<A: Afi> crate::traits::Address for Address<A> {
    open spec fn is_broadcast_result(&self, r: bool) -> bool {
        &&& r == (broadcast_value(A::spec_afi()) == Some(self@))
    }

    fn is_broadcast(&self) -> (r: bool) {
        Address::<A>::is_broadcast(self)
    }

    open spec fn is_link_local_result(&self, r: bool) -> bool {
        &&& r == in_span(self@, link_local_span(A::spec_afi()))
    }

    fn is_link_local(&self) -> (r: bool) {
        Address::<A>::is_link_local(self)
    }

    open spec fn is_private_result(&self, r: bool) -> bool {
        &&& r == in_any_span(self@, private_spans(A::spec_afi()))
    }

    fn is_private(&self) -> (r: bool) {
        Address::<A>::is_private(self)
    }

    open spec fn is_reserved_result(&self, r: bool) -> bool {
        &&& r == in_opt_span(self@, reserved_span(A::spec_afi()))
    }

    fn is_reserved(&self) -> (r: bool) {
        Address::<A>::is_reserved(self)
    }

    open spec fn is_shared_result(&self, r: bool) -> bool {
        &&& r == in_opt_span(self@, shared_span(A::spec_afi()))
    }

    fn is_shared(&self) -> (r: bool) {
        Address::<A>::is_shared(self)
    }

    open spec fn is_thisnet_result(&self, r: bool) -> bool {
        &&& r == in_opt_span(self@, thisnet_span(A::spec_afi()))
    }

    fn is_thisnet(&self) -> (r: bool) {
        Address::<A>::is_thisnet(self)
    }

    open spec fn is_benchmarking_result(&self, r: bool) -> bool {
        &&& r == in_span(self@, benchmark_span(A::spec_afi()))
    }

    fn is_benchmarking(&self) -> (r: bool) {
        Address::<A>::is_benchmarking(self)
    }

    open spec fn is_documentation_result(&self, r: bool) -> bool {
        &&& r == in_any_span(self@, documentation_spans(A::spec_afi()))
    }

    fn is_documentation(&self) -> (r: bool) {
        Address::<A>::is_documentation(self)
    }

    open spec fn is_global_result(&self, r: bool) -> bool {
        &&& r == global(A::spec_afi(), self@)
    }

    fn is_global(&self) -> (r: bool) {
        Address::<A>::is_global(self)
    }

    open spec fn is_loopback_result(&self, r: bool) -> bool {
        &&& r == in_span(self@, localhost_span(A::spec_afi()))
    }

    fn is_loopback(&self) -> (r: bool) {
        Address::<A>::is_loopback(self)
    }

    open spec fn is_multicast_result(&self, r: bool) -> bool {
        &&& r == in_span(self@, multicast_span(A::spec_afi()))
    }

    fn is_multicast(&self) -> (r: bool) {
        Address::<A>::is_multicast(self)
    }

    open spec fn is_unspecified_result(&self, r: bool) -> bool {
        &&& r == (self@ == 0)
    }

    fn is_unspecified(&self) -> (r: bool) {
        Address::<A>::is_unspecified(self)
    }

    open spec fn is_unique_local_result(&self, r: bool) -> bool {
        &&& r == in_opt_span(self@, ula_span(A::spec_afi()))
    }

    fn is_unique_local(&self) -> (r: bool) {
        Address::<A>::is_unique_local(self)
    }
}

} // verus!

verus! {

/// The scope of an IPv6 multicast address is named by its four-bit scope
/// field as RFC 4291 assigns it: 1 interface-local, 2 link-local, 3
/// realm-local, 4 admin-local, 5 site-local, 8 organization-local, 14
/// global, 0 and 15 reserved, and every other value unassigned.
pub proof fn lemma_scope_table(s: u128)
    requires
        s < 16,
    ensures
        s == 1 ==> scope_of(s) == MulticastScope::InterfaceLocal,
        s == 2 ==> scope_of(s) == MulticastScope::LinkLocal,
        s == 3 ==> scope_of(s) == MulticastScope::RealmLocal,
        s == 4 ==> scope_of(s) == MulticastScope::AdminLocal,
        s == 5 ==> scope_of(s) == MulticastScope::SiteLocal,
        s == 8 ==> scope_of(s) == MulticastScope::OrganizationLocal,
        s == 14 ==> scope_of(s) == MulticastScope::Global,
        s == 0 || s == 15 ==> scope_of(s) == MulticastScope::Reserved,
        s == 6 || s == 7 || s == 9 || s == 10 || s == 11 || s == 12 || s == 13 ==> scope_of(s)
            == MulticastScope::Unassigned,
{
}

} // verus!
