use ip::concrete::{Address, Prefix, PrefixLength, PrefixRange};
use ip::{Ipv4, Ipv6};

fn v4(v: u32) -> String {
    Address::<Ipv4>::new(v as u128).to_string()
}

fn v6(v: u128) -> String {
    Address::<Ipv6>::new(v).to_string()
}

#[test]
fn display_ipv4_unspecified() {
    assert_eq!(v4(0), "0.0.0.0");
}

#[test]
fn display_ipv4_loopback() {
    assert_eq!(v4(0x7f00_0001), "127.0.0.1");
}

#[test]
fn display_ipv4_all_ones() {
    assert_eq!(v4(0xffff_ffff), "255.255.255.255");
}

#[test]
fn display_ipv6_unspecified() {
    assert_eq!(v6(0), "::");
}

#[test]
fn display_ipv6_loopback() {
    assert_eq!(v6(1), "::1");
}

#[test]
fn display_ipv6_ipv4_compat() {
    assert_eq!(v6(0x7f00_0001), "::127.0.0.1");
}

#[test]
fn display_ipv6_ipv4_mapped() {
    assert_eq!(v6(0xffff_7f00_0001), "::ffff:127.0.0.1");
}

#[test]
fn display_ipv6_simple() {
    assert_eq!(v6(0x2001_0db8_0001_0001_0001_0001_0001_0001), "2001:db8:1:1:1:1:1:1");
}

#[test]
fn display_ipv6_elided_tail() {
    assert_eq!(v6(0x2001_0db8_0001_0001_0000_0000_0000_0000), "2001:db8:1:1::");
}

#[test]
fn display_ipv6_elided_head() {
    assert_eq!(v6(0x000f_dead_beef), "::f:dead:beef");
}

#[test]
fn display_ipv6_elided_mid() {
    assert_eq!(v6(0x0001_0000_0000_0000_0000_0000_0000_0001), "1::1");
}

#[test]
fn display_ipv6_first_longest_run_is_elided() {
    assert_eq!(v6(0x0001_0000_0000_0001_0000_0000_0001_0001), "1::1:0:0:1:1");
    assert_eq!(v6(0x0001_0000_0001_0000_0000_0000_0001_0001), "1:0:1::1:1");
}

#[test]
fn display_ipv6_single_zero_is_not_elided() {
    assert_eq!(v6(0x0001_0000_0001_0001_0001_0001_0001_0001), "1:0:1:1:1:1:1:1");
}

#[test]
fn display_prefix_and_length() {
    let p: Prefix<Ipv4> = "192.0.2.0/24".parse().unwrap();
    assert_eq!(p.to_string(), "192.0.2.0/24");
    let l: PrefixLength<Ipv6> = "64".parse().unwrap();
    assert_eq!(l.to_string(), "64");
    let r: PrefixRange<Ipv4> = "192.0.0.0/16,24,26".parse().unwrap();
    assert_eq!(r.to_string(), "192.0.0.0/16^24-26");
}

#[test]
fn ipv4_text_round_trip() {
    for v in [0u32, 1, 0x0a01_0101, 0x7f00_0001, 0xc000_0201, 0xffff_ffff, 0x0102_0304] {
        let text = v4(v);
        let parsed: Address<Ipv4> = text.parse().unwrap();
        assert_eq!(parsed.into_primitive(), v as u128);
    }
}

#[test]
fn ipv6_text_round_trip() {
    for v in [
        0u128,
        1,
        0x7f00_0001,
        0xffff_7f00_0001,
        0x2001_0db8_0000_0000_0000_0000_dead_beef,
        0x0001_0000_0000_0001_0000_0000_0001_0001,
        u128::MAX,
    ] {
        let text = v6(v);
        let parsed: Address<Ipv6> = text.parse().unwrap();
        assert_eq!(parsed.into_primitive(), v);
    }
}

#[test]
fn prefix_parse_truncates_host_bits() {
    let p: Prefix<Ipv4> = "192.0.2.77/24".parse().unwrap();
    assert_eq!(p.to_string(), "192.0.2.0/24");
}

#[test]
fn prefix_text_round_trip() {
    for text in ["0.0.0.0/0", "10.0.0.0/8", "192.0.2.128/25", "255.255.255.255/32"] {
        let p: Prefix<Ipv4> = text.parse().unwrap();
        assert_eq!(p.to_string(), text);
        let q: Prefix<Ipv4> = p.to_string().parse().unwrap();
        assert!(p == q);
    }
    for text in ["::/0", "2001:db8::/32", "::ffff:192.0.2.0/120", "fe80::/10", "2001:db8:0:1::/64"] {
        let p: Prefix<Ipv6> = text.parse().unwrap();
        assert_eq!(p.to_string(), text);
        let q: Prefix<Ipv6> = p.to_string().parse().unwrap();
        assert!(p == q);
    }
}
