use ip::parser::ipv4;
use ip::parser::ipv6;

#[test]
fn parse_ipv4_addr() {
    let input = "10.1.1.1";
    let addr = ipv4::parse_addr(input).unwrap();
    assert_eq!(addr, 0x0a01_0101);
}

#[test]
fn empty_octets() {
    let input = "...";
    let addr = ipv4::parse_addr(input);
    assert!(addr.is_err());
}

#[test]
fn disallow_octal() {
    let input = "1.01.0.0";
    let addr = ipv4::parse_addr(input);
    println!("{addr:?}");
    assert!(addr.is_err());
}

#[test]
fn consume_all_input() {
    let input = "192.168.0.1\0";
    let addr = ipv4::parse_addr(input);
    assert!(addr.is_err());
}

#[test]
fn prefix_range() {
    let input = "192.0.2.0/24,25,26";
    let range = ipv4::parse_range(input).unwrap();
    assert_eq!(range, (0xc000_0200, 24, 25, 26));
}

#[test]
fn simple() {
    let input = "2001:db8:0:0:0:0:0:1";
    let addr = ipv6::parse_addr(input).unwrap();
    assert_eq!(addr, 0x2001_0db8_0000_0000_0000_0000_0000_0001)
}

#[test]
fn simple_elided() {
    let input = "2001:db8::";
    let addr = ipv6::parse_addr(input).unwrap();
    assert_eq!(addr, 0x2001_0db8_0000_0000_0000_0000_0000_0000)
}

#[test]
fn complex_elided() {
    let input = "2001:db8::dead:beef";
    let addr = ipv6::parse_addr(input).unwrap();
    assert_eq!(addr, 0x2001_0db8_0000_0000_0000_0000_dead_beef)
}

#[test]
fn ipv4_mapped() {
    let input = "::ffff:192.0.2.1";
    let addr = ipv6::parse_addr(input).unwrap();
    assert_eq!(addr, 0x0000_0000_0000_0000_0000_ffff_c000_0201)
}

#[test]
fn trailing_elided() {
    let input = "::1";
    let addr = ipv6::parse_addr(input).unwrap();
    assert_eq!(addr, 0x0000_0000_0000_0000_0000_0000_0000_0001)
}

#[test]
fn explicit_ipv4_mapped() {
    let input = "0:0:0:0:0:ffff:192.0.2.1";
    let addr = ipv6::parse_addr(input).unwrap();
    assert_eq!(addr, 0x0000_0000_0000_0000_0000_ffff_c000_0201)
}

#[test]
fn disallow_excess_digits() {
    let input = "1:0ffff::";
    let addr = ipv6::parse_addr(input);
    assert!(addr.is_err());
}

#[test]
fn disallow_excess_parts() {
    let input = "1:2::4:5:6:7:8:9";
    let addr = ipv6::parse_addr(input);
    assert!(addr.is_err());
}

#[test]
fn disallow_mapped_ipv4_overflow() {
    let input = "::1:2:3:4:5:6:7.8.9.0";
    let addr = ipv6::parse_addr(input);
    assert!(addr.is_err());
}

#[test]
fn disallow_empty() {
    let input = "";
    let addr = ipv6::parse_addr(input);
    assert!(addr.is_err());
}

#[test]
fn disallow_missing_colons() {
    let input = "0";
    let addr = ipv6::parse_addr(input);
    assert!(addr.is_err());
}

#[test]
fn simple_prefix() {
    let input = "2001:db8::/32";
    let addr = ipv6::parse_prefix(input).unwrap();
    assert_eq!(addr, (0x2001_0db8_0000_0000_0000_0000_0000_0000, 32))
}

#[test]
fn ipv4_mapped_prefix() {
    let input = "::ffff:192.0.0.0/112";
    let addr = ipv6::parse_prefix(input).unwrap();
    assert_eq!(addr, (0x0000_0000_0000_0000_0000_ffff_c000_0000, 112))
}
