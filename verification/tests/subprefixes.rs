use ip::{Any, Ipv4, Ipv6, Prefix};

#[test]
fn singleton_subprefix_ipv4() {
    let p: Prefix<Ipv4> = "192.0.2.0/24".parse().unwrap();
    let mut subprefixes = p.subprefixes(p.prefix_len()).unwrap();
    assert_eq!(subprefixes.next(), Some(p));
    assert_eq!(subprefixes.next(), None);
}

#[test]
fn singleton_subprefix_ipv6() {
    let p: Prefix<Ipv6> = "2001:db8::/48".parse().unwrap();
    let mut subprefixes = p.subprefixes(p.prefix_len()).unwrap();
    assert_eq!(subprefixes.next(), Some(p));
    assert_eq!(subprefixes.next(), None);
}

#[test]
fn singleton_subprefix_any() {
    let p: Prefix<Any> = "2001:db8:f00::/64".parse().unwrap();
    let mut subprefixes = p.subprefixes(p.prefix_len()).unwrap();
    assert_eq!(subprefixes.next(), Some(p));
    assert_eq!(subprefixes.next(), None);
}

#[test]
fn count_subprefixes_of_default() {
    let p: Prefix<Ipv4> = "0.0.0.0/0".parse().unwrap();
    let len = p.new_prefix_length(8).unwrap();
    let mut subprefixes = p.subprefixes(len).unwrap();
    let mut count = 0;
    while subprefixes.next().is_some() {
        count += 1;
    }
    assert_eq!(count, 256);
}
