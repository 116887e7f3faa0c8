use ip::any::AfiClass;
use ip::concrete::Prefix;
use ip::{Ipv4, Ipv6};

#[test]
fn any_contains_ipv4() {
    assert!(AfiClass::Any > AfiClass::Ipv4);
}

#[test]
fn ipv6_contained_in_any() {
    assert!(AfiClass::Ipv6 < AfiClass::Any);
}

#[test]
fn equal() {
    let x = "10.0.0.0/8".parse::<Prefix<Ipv4>>().unwrap();
    let y = "10.0.0.0/8".parse::<Prefix<Ipv4>>().unwrap();
    assert!(x == y);
}

#[test]
fn ord_equal() {
    let x = "2001:db8::/32".parse::<Prefix<Ipv6>>().unwrap();
    let y = "2001:db8::/32".parse::<Prefix<Ipv6>>().unwrap();
    assert!(x == y);
}

#[test]
fn lt() {
    let x = "10.0.0.0/16".parse::<Prefix<Ipv4>>().unwrap();
    let y = "10.0.0.0/8".parse::<Prefix<Ipv4>>().unwrap();
    assert!(x < y);
}

#[test]
fn ord_lt() {
    let x = "2001:db8::/48".parse::<Prefix<Ipv6>>().unwrap();
    let y = "2001:db8::/32".parse::<Prefix<Ipv6>>().unwrap();
    assert!(x < y);
}

#[test]
fn gt() {
    let x = "10.0.0.0/16".parse::<Prefix<Ipv4>>().unwrap();
    let y = "10.0.0.0/24".parse::<Prefix<Ipv4>>().unwrap();
    assert!(x > y);
}

#[test]
fn ord_gt() {
    let x = "2001:db8::/48".parse::<Prefix<Ipv6>>().unwrap();
    let y = "2001:db8::/64".parse::<Prefix<Ipv6>>().unwrap();
    assert!(x > y);
}

#[test]
fn divergent() {
    let x = "10.0.0.0/16".parse::<Prefix<Ipv4>>().unwrap();
    let y = "10.1.0.0/16".parse::<Prefix<Ipv4>>().unwrap();
    assert!(x.partial_cmp(&y).is_none());
}

#[test]
fn ord_divergent() {
    let x = "2001:db8:f::/48".parse::<Prefix<Ipv6>>().unwrap();
    let y = "2001:db8:a::/48".parse::<Prefix<Ipv6>>().unwrap();
    assert!(x.partial_cmp(&y).is_none());
}
