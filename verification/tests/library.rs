use ip::any;
use ip::concrete::{Address, Prefix, PrefixLength, PrefixRange, PrefixSet};
use ip::error::Kind;
use ip::{Ipv4, Ipv6};

#[test]
fn insert_then_contains_and_remove_then_not() {
    let mut s = PrefixSet::<Ipv4>::new();
    let p: Prefix<Ipv4> = "198.51.100.0/24".parse().unwrap();
    let q: Prefix<Ipv4> = "198.51.100.0/25".parse().unwrap();
    s.insert(q);
    s.insert(p);
    assert!(s.contains(p));
    assert!(s.contains(q));
    s.remove(p);
    assert!(!s.contains(p));
    assert!(s.contains(q));
}

#[test]
fn range_insert_adds_every_member() {
    let mut s = PrefixSet::<Ipv6>::new();
    let r: PrefixRange<Ipv6> = "2001:db8::/32,33,34".parse().unwrap();
    s.insert(r);
    assert!(s.contains("2001:db8::/33".parse().unwrap()));
    assert!(s.contains("2001:db8:8000::/33".parse().unwrap()));
    assert!(s.contains("2001:db8:c000::/34".parse().unwrap()));
    assert!(!s.contains("2001:db8::/32".parse().unwrap()));
    assert!(!s.contains("2001:db8::/35".parse().unwrap()));
    let mut it = s.prefixes();
    let mut n = 0;
    while it.next().is_some() {
        n += 1;
    }
    assert_eq!(n, 6);
}

#[test]
fn mixed_family_comparisons() {
    let a: any::Address = "192.0.2.1".parse().unwrap();
    let b: any::Address = "2001:db8::1".parse().unwrap();
    let x: Address<Ipv4> = "192.0.2.1".parse().unwrap();
    let y: Address<Ipv4> = "192.0.2.9".parse().unwrap();
    assert!(a == x);
    assert!(x == a);
    assert!(b != x);
    assert!(a < y);
    assert!(y > a);
    assert_eq!(a.partial_cmp(&b), None);
    assert_eq!(b.partial_cmp(&a), None);
}

#[test]
fn conversions_from_integers_octets_and_segments() {
    let a = Address::<Ipv4>::from(0xc000_0201u32);
    assert_eq!(a.to_string(), "192.0.2.1");
    assert_eq!(u32::from(a), 0xc000_0201);
    let b = Address::<Ipv4>::from([192u8, 0, 2, 1]);
    assert!(a == b);
    let c = Address::<Ipv6>::from([0x2001u16, 0xdb8, 0, 0, 0, 0, 0, 1]);
    assert_eq!(c.to_string(), "2001:db8::1");
    assert_eq!(c.segments(), [0x2001u16, 0xdb8, 0, 0, 0, 0, 0, 1]);
    let d = any::Address::from(1u128);
    assert_eq!(d.to_string(), "::1");
    let e = any::Address::from([10u8, 0, 0, 1]);
    assert_eq!(e.to_string(), "10.0.0.1");
}

#[test]
fn ipv4_mapped_round_trip() {
    let a: Address<Ipv4> = "203.0.113.7".parse().unwrap();
    let m = a.to_ipv6_mapped();
    assert_eq!(m.to_string(), "::ffff:203.0.113.7");
    assert!(m.to_ipv4_mapped().unwrap() == a);
    assert!(m.to_canonical() == any::Address::Ipv4(a));
}

#[test]
fn parse_errors_have_their_kind() {
    let e = "10.0.0.256".parse::<Address<Ipv4>>().unwrap_err();
    assert_eq!(e.kind(), Kind::ParserError);
    let e = "10.0.0.0/33".parse::<Prefix<Ipv4>>().unwrap_err();
    assert_eq!(e.kind(), Kind::PrefixLength);
    let e = PrefixLength::<Ipv6>::from_primitive(129).unwrap_err();
    assert_eq!(e.kind(), Kind::PrefixLength);
    let e = "192.0.2.0/24,23,24".parse::<PrefixRange<Ipv4>>().unwrap_err();
    assert_eq!(e.kind(), Kind::PrefixLengthRange);
}

#[test]
fn afi_mismatch_between_families() {
    let p: any::Prefix = "192.0.2.0/24".parse().unwrap();
    let q: any::Prefix = "2001:db8::/32".parse().unwrap();
    let e = p.subprefixes(q.prefix_len()).unwrap_err();
    assert_eq!(e.kind(), Kind::AfiMismatch);
}

#[test]
fn prefix_length_steps() {
    let l = PrefixLength::<Ipv4>::from_primitive(31).unwrap();
    let m = l.increment().unwrap();
    assert_eq!(m.into_primitive(), 32);
    assert!(m.increment().is_err());
    assert_eq!(m.decrement().unwrap().into_primitive(), 31);
    assert!(PrefixLength::<Ipv4>::minimum().decrement().is_err());
}

#[test]
fn subprefixes_in_address_order() {
    let p: Prefix<Ipv4> = "10.0.0.0/30".parse().unwrap();
    let len = p.new_prefix_length(32).unwrap();
    let mut it = p.subprefixes(len).unwrap();
    let mut seen = Vec::new();
    while let Some(q) = it.next() {
        seen.push(q.to_string());
    }
    assert_eq!(seen, vec!["10.0.0.0/32", "10.0.0.1/32", "10.0.0.2/32", "10.0.0.3/32"]);
}

#[test]
fn special_purpose_edges() {
    let a: any::Address = "172.31.255.255".parse().unwrap();
    assert!(a.is_private());
    let b: any::Address = "172.32.0.0".parse().unwrap();
    assert!(!b.is_private());
    let c: any::Address = "100.127.255.255".parse().unwrap();
    assert!(c.is_shared());
    let d: any::Address = "100.128.0.0".parse().unwrap();
    assert!(!d.is_shared());
    let e: any::Address = "198.19.255.255".parse().unwrap();
    assert!(e.is_benchmarking());
    let f: any::Address = "fe80::".parse().unwrap();
    assert!(f.is_link_local());
    let g: any::Address = "fec0::".parse().unwrap();
    assert!(!g.is_link_local());
}

#[test]
fn try_from_either_family() {
    let i: any::Interface = "192.0.2.1/24".parse().unwrap();
    let v4 = ip::concrete::Interface::<Ipv4>::try_from(i).unwrap();
    assert_eq!(v4.to_string(), "192.0.2.1/24");
    let e = ip::concrete::Interface::<Ipv6>::try_from(i).unwrap_err();
    assert_eq!(e.kind(), Kind::AfiMismatch);
    let r: any::Range = "2001:db8::/32,48,64".parse().unwrap();
    assert!(PrefixRange::<Ipv6>::try_from(r).is_ok());
    assert_eq!(PrefixRange::<Ipv4>::try_from(r).unwrap_err().kind(), Kind::AfiMismatch);
}

#[test]
fn conversions_between_library_types() {
    let p: Prefix<Ipv4> = "192.0.2.0/24".parse().unwrap();
    let r: PrefixRange<Ipv4> = p.into();
    assert_eq!(r.to_string(), "192.0.2.0/24^24-24");
    let a: Address<Ipv4> = "192.0.2.7".parse().unwrap();
    let h: Prefix<Ipv4> = a.into();
    assert_eq!(h.to_string(), "192.0.2.7/32");
    let i: ip::concrete::Interface<Ipv4> = "192.0.2.7/24".parse().unwrap();
    let n: Prefix<Ipv4> = i.into();
    assert_eq!(n.to_string(), "192.0.2.0/24");
    let l = PrefixLength::<Ipv4>::from_primitive(20).unwrap();
    let m: ip::concrete::Netmask<Ipv4> = l.into();
    assert_eq!(m.into_primitive(), 0xffff_f000);
    let hm: ip::concrete::Hostmask<Ipv4> = l.into();
    assert_eq!(hm.into_primitive(), 0x0000_0fff);
    let ap: any::Prefix = p.into();
    assert_eq!(ap.to_string(), "192.0.2.0/24");
    let ar: any::Range = ap.into();
    assert_eq!(ar.to_string(), "192.0.2.0/24^24-24");
    let class: any::AfiClass = ip::concrete::Afi::Ipv6.into();
    assert!(class == any::AfiClass::Ipv6);
}

#[test]
fn mask_and_address_operators() {
    let l = PrefixLength::<Ipv4>::from_primitive(8).unwrap();
    let ones = ip::concrete::Netmask::<Ipv4>::ones();
    assert_eq!((ones << l).into_primitive(), 0xffff_ff00);
    assert_eq!((ones >> l).into_primitive(), 0x00ff_ffff);
    let max = PrefixLength::<Ipv4>::maximum();
    assert_eq!((ones << max).into_primitive(), 0);
    let a: Address<Ipv4> = "192.0.2.77".parse().unwrap();
    let net: ip::concrete::Netmask<Ipv4> = PrefixLength::<Ipv4>::from_primitive(24).unwrap().into();
    assert_eq!((a & net).to_string(), "192.0.2.0");
    let host: ip::concrete::Hostmask<Ipv4> = PrefixLength::<Ipv4>::from_primitive(24).unwrap().into();
    assert_eq!((a | host).to_string(), "192.0.2.255");
    assert_eq!((a + host).unwrap().to_string(), "192.0.3.76");
    let top: Address<Ipv4> = "255.255.255.77".parse().unwrap();
    assert_eq!(top + host, None);
    let b: Address<Ipv4> = "192.0.2.0".parse().unwrap();
    assert_eq!((b + host).unwrap().to_string(), "192.0.2.255");
    assert_eq!(a ^ b, 77);
    assert_eq!((net & host).into_primitive(), 0);
}

#[test]
fn address_range_from_integers() {
    let r = ip::concrete::AddressRange::<Ipv4>::from(&(0xc000_0200u32..=0xc000_02ffu32));
    let a: Address<Ipv4> = "192.0.2.77".parse().unwrap();
    let b: Address<Ipv4> = "192.0.3.0".parse().unwrap();
    assert!(r.contains(&a));
    assert!(!r.contains(&b));
    let r6 = ip::concrete::AddressRange::<Ipv6>::from(&(1u128..=1u128));
    assert!(r6.contains(&"::1".parse().unwrap()));
    assert!(!r6.contains(&"::2".parse().unwrap()));
}

#[test]
fn either_family_set_operators() {
    let mut a = any::PrefixSet::new();
    let r: any::Range = "192.0.2.0/24,24,25".parse().unwrap();
    a.insert(r);
    let mut b = any::PrefixSet::new();
    let p: any::Prefix = "2001:db8::/32".parse().unwrap();
    b.insert(p);
    let q: any::Prefix = "192.0.2.0/24".parse().unwrap();
    b.insert(q);
    let mut c = b.copy();
    c.remove(p);
    assert!(!c.contains(p));
    assert!(c.contains(q));
    let u = a.copy() | b.copy();
    assert!(u.contains("2001:db8::/32".parse().unwrap()));
    assert!(u.contains("192.0.2.128/25".parse().unwrap()));
    let i = a.copy() & b.copy();
    assert!(i.contains("192.0.2.0/24".parse().unwrap()));
    assert!(!i.contains("192.0.2.128/25".parse().unwrap()));
    let d = a.copy() - b.copy();
    assert!(!d.contains("192.0.2.0/24".parse().unwrap()));
    assert!(d.contains("192.0.2.0/25".parse().unwrap()));
    let x = a.copy() ^ b.copy();
    assert!(x.contains("2001:db8::/32".parse().unwrap()));
    assert!(!x.contains("192.0.2.0/24".parse().unwrap()));
    assert!((!any::PrefixSet::zero()) == any::PrefixSet::one());
}

struct RibEntry<A: ip::Afi> {
    prefix: Prefix<A>,
    next_hop: Address<A>,
}

impl<A: ip::Afi> RibEntry<A> {
    fn get_next_hop(&self, addr: Address<A>) -> Option<Address<A>> {
        if self.prefix >= addr {
            Some(self.next_hop)
        } else {
            None
        }
    }
}

#[test]
fn next_hop_lookup() -> Result<(), ip::Error> {
    let v4: RibEntry<Ipv4> = RibEntry {
        prefix: "192.0.2.0/24".parse()?,
        next_hop: "198.51.100.1".parse()?,
    };
    let v6: RibEntry<Ipv6> = RibEntry {
        prefix: "2001:db8::/48".parse()?,
        next_hop: "2001:db8:f00::1".parse()?,
    };
    assert_eq!(
        v4.get_next_hop("192.0.2.127".parse()?),
        Some("198.51.100.1".parse()?)
    );
    assert_eq!(v6.get_next_hop("2001:db8:ffff::ffff".parse()?), None);
    let host: Address<Ipv4> = "192.0.2.1".parse()?;
    let p: Prefix<Ipv4> = "192.0.2.1/32".parse()?;
    assert!(p == host);
    Ok(())
}

#[test]
fn either_family_ranges_list_ipv4_first() {
    let mut s = any::PrefixSet::new();
    let p6: any::Prefix = "2001:db8::/32".parse().unwrap();
    s.insert(p6);
    let a: any::Prefix = "192.0.2.0/25".parse().unwrap();
    s.insert(a);
    let b: any::Prefix = "192.0.2.128/25".parse().unwrap();
    s.insert(b);
    let r4: any::Range = "192.0.2.0/24,25,25".parse().unwrap();
    let r6: any::Range = "2001:db8::/32,32,32".parse().unwrap();
    assert_eq!(s.ranges(), vec![r4, r6]);
}

#[test]
fn range_iteration_by_length_then_address() {
    let r: PrefixRange<Ipv4> = "192.0.2.0/24,25,26".parse().unwrap();
    let mut it = r.into_iter();
    let mut got: Vec<Prefix<Ipv4>> = Vec::new();
    while let Some(p) = it.next() {
        got.push(p);
    }
    let want: Vec<Prefix<Ipv4>> = vec![
        "192.0.2.0/25".parse().unwrap(),
        "192.0.2.128/25".parse().unwrap(),
        "192.0.2.0/26".parse().unwrap(),
        "192.0.2.64/26".parse().unwrap(),
        "192.0.2.128/26".parse().unwrap(),
        "192.0.2.192/26".parse().unwrap(),
    ];
    assert_eq!(got, want);
    assert!(it.next().is_none());
}

#[test]
fn compare_by_longest_common_prefix() {
    let p: Prefix<Ipv4> = "192.0.2.0/24".parse().unwrap();
    let q: Prefix<Ipv4> = "192.0.3.0/24".parse().unwrap();
    let c: Prefix<Ipv4> = "192.0.2.0/23".parse().unwrap();
    assert_eq!(p.compare(&q), ip::concrete::PrefixOrdering::Divergent(c));
    assert_eq!(q.compare(&p), ip::concrete::PrefixOrdering::Divergent(c));
    let a: Prefix<Ipv4> = "10.0.0.0/8".parse().unwrap();
    let b: Prefix<Ipv4> = "10.1.0.0/16".parse().unwrap();
    assert_eq!(a.compare(&b), ip::concrete::PrefixOrdering::Subprefix(a));
    assert_eq!(b.compare(&a), ip::concrete::PrefixOrdering::Superprefix(a));
    assert_eq!(a.compare(&a), ip::concrete::PrefixOrdering::Equal);
}

#[test]
fn either_family_set_counts_both_families() {
    let mut set = any::PrefixSet::new();
    let a: any::Range = "192.0.2.0/24,25,26".parse().unwrap();
    let b: any::Range = "2001:db8::/48,52,52".parse().unwrap();
    set.insert(a).insert(b);
    assert_eq!(set.len(), 6 + 16);
    assert!(!set.is_empty());
}

fn generic_count<S: ip::traits::PrefixSet>(set: &S) -> usize {
    ip::traits::PrefixSet::len(set)
}

fn generic_broadcast<P: ip::traits::Prefix>(prefix: &P) -> P::Address {
    ip::traits::Prefix::broadcast(prefix)
}

fn generic_is_loopback<T: ip::traits::Address>(addr: &T) -> bool {
    ip::traits::Address::is_loopback(addr)
}

fn afi_class_network<A: ip::AfiClass>(prefix: &ip::Prefix<A>) -> <ip::Prefix<A> as ip::traits::Prefix>::Address {
    ip::traits::Prefix::network(prefix)
}

#[test]
fn interface_traits_work_generically() {
    let mut s = PrefixSet::<Ipv4>::new();
    let r: PrefixRange<Ipv4> = "192.0.2.0/24,25,26".parse().unwrap();
    s.insert(r);
    assert_eq!(generic_count(&s), 6);
    let mut t = any::PrefixSet::new();
    let p: any::Prefix = "2001:db8::/126".parse().unwrap();
    t.insert(p);
    assert_eq!(generic_count(&t), 1);
    let q: Prefix<Ipv4> = "192.0.2.0/24".parse().unwrap();
    let b: Address<Ipv4> = "192.0.2.255".parse().unwrap();
    assert_eq!(generic_broadcast(&q), b);
    let n: Address<Ipv4> = "192.0.2.0".parse().unwrap();
    assert_eq!(afi_class_network::<Ipv4>(&q), n);
    let lo: any::Address = "::1".parse().unwrap();
    assert!(generic_is_loopback(&lo));
    let l: Address<Ipv4> = "127.0.0.1".parse().unwrap();
    assert!(generic_is_loopback(&l));
    let len: PrefixLength<Ipv4> = "24".parse().unwrap();
    let longer = ip::traits::PrefixLength::increment(len).unwrap();
    assert_eq!(longer.into_primitive(), 25);
}
