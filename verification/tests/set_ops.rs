use ip::concrete::{Prefix, PrefixRange, PrefixSet};
use ip::{Ipv4, Ipv6};

fn set_of(items: &[&str]) -> PrefixSet<Ipv4> {
    let mut s = PrefixSet::new();
    for item in items {
        match item.parse::<PrefixRange<Ipv4>>() {
            Ok(r) => s.insert(r),
            Err(_) => s.insert(item.parse::<Prefix<Ipv4>>().unwrap()),
        };
    }
    s
}

#[test]
fn ipv4_intersect_disjoint_nodes() {
    let res = set_of(&["1.0.0.0/8,8,16"]) & set_of(&["2.0.0.0/8,8,16"]);
    assert!(res == PrefixSet::zero());
}

#[test]
fn ipv4_intersect_disjoint_ranges() {
    let res = set_of(&["1.0.0.0/8,8,11"]) & set_of(&["1.0.0.0/8,12,15"]);
    assert!(res == PrefixSet::zero());
}

#[test]
fn ipv4_intersect_overlapping_nodes() {
    let res = set_of(&["1.0.0.0/8,12,16"]) & set_of(&["1.0.0.0/12,12,16"]);
    assert!(res == set_of(&["1.0.0.0/12,12,16"]));
}

#[test]
fn ipv4_intersect_overlapping_ranges() {
    let res = set_of(&["1.0.0.0/8,8,12"]) & set_of(&["1.0.0.0/8,12,16"]);
    assert!(res == set_of(&["1.0.0.0/8,12,12"]));
}

#[test]
fn ipv4_intersect_overlapping_set_with_parent() {
    let res = set_of(&["1.0.0.0/8", "1.0.0.0/16"]) & set_of(&["1.0.0.0/16"]);
    assert!(res == set_of(&["1.0.0.0/16"]));
}

#[test]
fn ipv4_intersect_overlapping_set_with_sibling() {
    let res = set_of(&["1.0.0.0/8", "2.0.0.0/8"]) & set_of(&["1.0.0.0/8"]);
    assert!(res == set_of(&["1.0.0.0/8"]));
}

#[test]
fn ipv4_intersect_overlapping_set_with_child() {
    let res = set_of(&["1.0.0.0/8", "1.0.0.0/16"]) & set_of(&["1.0.0.0/8"]);
    assert!(res == set_of(&["1.0.0.0/8"]));
}

#[test]
fn ipv4_intersect_covering_parent() {
    let res = set_of(&["1.0.0.0/16"]) & set_of(&["1.0.0.0/8,16,16"]);
    assert!(res == set_of(&["1.0.0.0/16"]));
}

#[test]
fn ipv4_intersect_covered_child() {
    let res = set_of(&["1.0.0.0/8,16,16"]) & set_of(&["1.0.0.0/16"]);
    assert!(res == set_of(&["1.0.0.0/16"]));
}

#[test]
fn ipv4_intersect_overlapping_set_with_covered_child() {
    let res = set_of(&["1.0.0.0/8", "1.0.0.0/16"]) & set_of(&["1.0.0.0/8,16,16"]);
    assert!(res == set_of(&["1.0.0.0/16"]));
}

#[test]
fn ipv4_union_disjoint_nodes() {
    let res = set_of(&["2.0.0.0/8,8,16"]) | set_of(&["3.0.0.0/8,8,16"]);
    assert!(res == set_of(&["2.0.0.0/7,8,16"]));
}

#[test]
fn ipv4_union_disjoint_ranges() {
    let res = set_of(&["1.0.0.0/8,8,11"]) | set_of(&["1.0.0.0/8,12,15"]);
    assert!(res == set_of(&["1.0.0.0/8,8,15"]));
}

#[test]
fn ipv4_union_overlapping_nodes() {
    let res = set_of(&["1.0.0.0/8,12,16"]) | set_of(&["1.0.0.0/12,12,16"]);
    assert!(res == set_of(&["1.0.0.0/8,12,16"]));
}

#[test]
fn ipv4_union_overlapping_ranges() {
    let res = set_of(&["1.0.0.0/8,8,12"]) | set_of(&["1.0.0.0/8,12,16"]);
    assert!(res == set_of(&["1.0.0.0/8,8,16"]));
}

#[test]
fn ipv4_union_overlapping_set_with_parent() {
    let res = set_of(&["1.0.0.0/8", "1.0.0.0/16"]) | set_of(&["1.0.0.0/16"]);
    assert!(res == set_of(&["1.0.0.0/8", "1.0.0.0/16"]));
}

#[test]
fn ipv4_union_overlapping_set_with_sibling() {
    let res = set_of(&["1.0.0.0/8", "2.0.0.0/8"]) | set_of(&["1.0.0.0/8"]);
    assert!(res == set_of(&["1.0.0.0/8", "2.0.0.0/8"]));
}

#[test]
fn ipv4_union_overlapping_set_with_child() {
    let res = set_of(&["1.0.0.0/8", "1.0.0.0/16"]) | set_of(&["1.0.0.0/8"]);
    assert!(res == set_of(&["1.0.0.0/8", "1.0.0.0/16"]));
}

#[test]
fn ipv4_union_covering_parent() {
    let res = set_of(&["1.0.0.0/16"]) | set_of(&["1.0.0.0/8,16,16"]);
    assert!(res == set_of(&["1.0.0.0/8,16,16"]));
}

#[test]
fn ipv4_union_covered_child() {
    let res = set_of(&["1.0.0.0/8,16,16"]) | set_of(&["1.0.0.0/16"]);
    assert!(res == set_of(&["1.0.0.0/8,16,16"]));
}

#[test]
fn ipv4_union_overlapping_set_with_covered_child() {
    let res = set_of(&["1.0.0.0/8", "1.0.0.0/16"]) | set_of(&["1.0.0.0/8,16,16"]);
    assert!(res == set_of(&["1.0.0.0/8", "1.0.0.0/8,16,16"]));
}

#[test]
fn ipv4_xor_disjoint_nodes() {
    let res = set_of(&["2.0.0.0/8,8,16"]) ^ set_of(&["3.0.0.0/8,8,16"]);
    assert!(res == set_of(&["2.0.0.0/7,8,16"]));
}

#[test]
fn ipv4_xor_disjoint_ranges() {
    let res = set_of(&["1.0.0.0/8,8,11"]) ^ set_of(&["1.0.0.0/8,12,15"]);
    assert!(res == set_of(&["1.0.0.0/8,8,15"]));
}

#[test]
fn ipv4_xor_overlapping_nodes() {
    let res = set_of(&["1.0.0.0/8,12,16"]) ^ set_of(&["1.0.0.0/12,12,16"]);
    assert!(res == set_of(&["1.16.0.0/12,12,16", "1.32.0.0/11,12,16", "1.64.0.0/10,12,16", "1.128.0.0/9,12,16"]));
}

#[test]
fn ipv4_xor_overlapping_ranges() {
    let res = set_of(&["1.0.0.0/8,8,12"]) ^ set_of(&["1.0.0.0/8,12,16"]);
    assert!(res == set_of(&["1.0.0.0/8,8,11", "1.0.0.0/8,13,16"]));
}

#[test]
fn ipv4_xor_overlapping_set_with_parent() {
    let res = set_of(&["1.0.0.0/8", "1.0.0.0/16"]) ^ set_of(&["1.0.0.0/16"]);
    assert!(res == set_of(&["1.0.0.0/8"]));
}

#[test]
fn ipv4_xor_overlapping_set_with_sibling() {
    let res = set_of(&["1.0.0.0/8", "2.0.0.0/8"]) ^ set_of(&["1.0.0.0/8"]);
    assert!(res == set_of(&["2.0.0.0/8"]));
}

#[test]
fn ipv4_xor_overlapping_set_with_child() {
    let res = set_of(&["1.0.0.0/8", "1.0.0.0/16"]) ^ set_of(&["1.0.0.0/8"]);
    assert!(res == set_of(&["1.0.0.0/16"]));
}

#[test]
fn ipv4_xor_covering_parent() {
    let res = set_of(&["1.0.0.0/16"]) ^ set_of(&["1.0.0.0/8,16,16"]);
    assert!(res == set_of(&["1.1.0.0/16", "1.2.0.0/15,16,16", "1.4.0.0/14,16,16", "1.8.0.0/13,16,16", "1.16.0.0/12,16,16", "1.32.0.0/11,16,16", "1.64.0.0/10,16,16", "1.128.0.0/9,16,16"]));
}

#[test]
fn ipv4_xor_covered_child() {
    let res = set_of(&["1.0.0.0/8,16,16"]) ^ set_of(&["1.0.0.0/16"]);
    assert!(res == set_of(&["1.1.0.0/16", "1.2.0.0/15,16,16", "1.4.0.0/14,16,16", "1.8.0.0/13,16,16", "1.16.0.0/12,16,16", "1.32.0.0/11,16,16", "1.64.0.0/10,16,16", "1.128.0.0/9,16,16"]));
}

#[test]
fn ipv4_xor_overlapping_set_with_covered_child() {
    let res = set_of(&["1.0.0.0/8", "1.0.0.0/16"]) ^ set_of(&["1.0.0.0/8,16,16"]);
    assert!(res == set_of(&["1.0.0.0/8", "1.1.0.0/16", "1.2.0.0/15,16,16", "1.4.0.0/14,16,16", "1.8.0.0/13,16,16", "1.16.0.0/12,16,16", "1.32.0.0/11,16,16", "1.64.0.0/10,16,16", "1.128.0.0/9,16,16"]));
}

#[test]
fn ipv4_sub_disjoint_nodes() {
    let res = set_of(&["2.0.0.0/8,8,16"]) - set_of(&["3.0.0.0/8,8,16"]);
    assert!(res == set_of(&["2.0.0.0/8,8,16"]));
}

#[test]
fn ipv4_sub_disjoint_ranges() {
    let res = set_of(&["1.0.0.0/8,8,11"]) - set_of(&["1.0.0.0/8,12,15"]);
    assert!(res == set_of(&["1.0.0.0/8,8,11"]));
}

#[test]
fn ipv4_sub_overlapping_nodes() {
    let res = set_of(&["1.0.0.0/8,12,16"]) - set_of(&["1.0.0.0/12,12,16"]);
    assert!(res == set_of(&["1.16.0.0/12,12,16", "1.32.0.0/11,12,16", "1.64.0.0/10,12,16", "1.128.0.0/9,12,16"]));
}

#[test]
fn ipv4_sub_overlapping_ranges() {
    let res = set_of(&["1.0.0.0/8,8,12"]) - set_of(&["1.0.0.0/8,12,16"]);
    assert!(res == set_of(&["1.0.0.0/8,8,11"]));
}

#[test]
fn ipv4_sub_overlapping_set_with_parent() {
    let res = set_of(&["1.0.0.0/8", "1.0.0.0/16"]) - set_of(&["1.0.0.0/16"]);
    assert!(res == set_of(&["1.0.0.0/8"]));
}

#[test]
fn ipv4_sub_overlapping_set_with_sibling() {
    let res = set_of(&["1.0.0.0/8", "2.0.0.0/8"]) - set_of(&["1.0.0.0/8"]);
    assert!(res == set_of(&["2.0.0.0/8"]));
}

#[test]
fn ipv4_sub_overlapping_set_with_child() {
    let res = set_of(&["1.0.0.0/8", "1.0.0.0/16"]) - set_of(&["1.0.0.0/8"]);
    assert!(res == set_of(&["1.0.0.0/16"]));
}

#[test]
fn ipv4_sub_covering_parent() {
    let res = set_of(&["1.0.0.0/16"]) - set_of(&["1.0.0.0/8,16,16"]);
    assert!(res == PrefixSet::zero());
}

#[test]
fn ipv4_sub_covered_child() {
    let res = set_of(&["1.0.0.0/8,16,16"]) - set_of(&["1.0.0.0/16"]);
    assert!(res == set_of(&["1.1.0.0/16", "1.2.0.0/15,16,16", "1.4.0.0/14,16,16", "1.8.0.0/13,16,16", "1.16.0.0/12,16,16", "1.32.0.0/11,16,16", "1.64.0.0/10,16,16", "1.128.0.0/9,16,16"]));
}

#[test]
fn ipv4_sub_overlapping_set_with_covered_child() {
    let res = set_of(&["1.0.0.0/8", "1.0.0.0/16"]) - set_of(&["1.0.0.0/8,16,16"]);
    assert!(res == set_of(&["1.0.0.0/8"]));
}

#[test]
fn ipv4_sub_complex_deaggregation() {
    let res = set_of(&["2.0.0.0/8,8,10", "3.0.0.0/8,8,9"]) - set_of(&["2.0.0.0/10", "3.0.0.0/8,8,10"]);
    assert!(res == set_of(&["2.0.0.0/8,8,9", "2.64.0.0/10", "2.128.0.0/10", "2.192.0.0/10"]));
}

#[test]
fn ipv4_not_zero_is_one() {
    assert!(!PrefixSet::<Ipv4>::zero() == PrefixSet::<Ipv4>::one());
}

#[test]
fn ipv4_not_one_is_zero() {
    assert!(!PrefixSet::<Ipv4>::one() == PrefixSet::<Ipv4>::zero());
}

#[test]
fn ipv4_zero_bitand_zero_is_zero() {
    assert!((PrefixSet::<Ipv4>::zero() & PrefixSet::<Ipv4>::zero()) == PrefixSet::<Ipv4>::zero());
}

#[test]
fn ipv4_zero_bitand_one_is_zero() {
    assert!((PrefixSet::<Ipv4>::zero() & PrefixSet::<Ipv4>::one()) == PrefixSet::<Ipv4>::zero());
}

#[test]
fn ipv4_one_bitand_zero_is_zero() {
    assert!((PrefixSet::<Ipv4>::one() & PrefixSet::<Ipv4>::zero()) == PrefixSet::<Ipv4>::zero());
}

#[test]
fn ipv4_one_bitand_one_is_one() {
    assert!((PrefixSet::<Ipv4>::one() & PrefixSet::<Ipv4>::one()) == PrefixSet::<Ipv4>::one());
}

#[test]
fn ipv4_zero_bitor_zero_is_zero() {
    assert!((PrefixSet::<Ipv4>::zero() | PrefixSet::<Ipv4>::zero()) == PrefixSet::<Ipv4>::zero());
}

#[test]
fn ipv4_zero_bitor_one_is_one() {
    assert!((PrefixSet::<Ipv4>::zero() | PrefixSet::<Ipv4>::one()) == PrefixSet::<Ipv4>::one());
}

#[test]
fn ipv4_one_bitor_zero_is_one() {
    assert!((PrefixSet::<Ipv4>::one() | PrefixSet::<Ipv4>::zero()) == PrefixSet::<Ipv4>::one());
}

#[test]
fn ipv4_one_bitor_one_is_one() {
    assert!((PrefixSet::<Ipv4>::one() | PrefixSet::<Ipv4>::one()) == PrefixSet::<Ipv4>::one());
}

#[test]
fn ipv4_zero_bitxor_zero_is_zero() {
    assert!((PrefixSet::<Ipv4>::zero() ^ PrefixSet::<Ipv4>::zero()) == PrefixSet::<Ipv4>::zero());
}

#[test]
fn ipv4_zero_bitxor_one_is_one() {
    assert!((PrefixSet::<Ipv4>::zero() ^ PrefixSet::<Ipv4>::one()) == PrefixSet::<Ipv4>::one());
}

#[test]
fn ipv4_one_bitxor_zero_is_one() {
    assert!((PrefixSet::<Ipv4>::one() ^ PrefixSet::<Ipv4>::zero()) == PrefixSet::<Ipv4>::one());
}

#[test]
fn ipv4_one_bitxor_one_is_zero() {
    assert!((PrefixSet::<Ipv4>::one() ^ PrefixSet::<Ipv4>::one()) == PrefixSet::<Ipv4>::zero());
}

#[test]
fn ipv4_zero_add_zero_is_zero() {
    assert!((PrefixSet::<Ipv4>::zero() + PrefixSet::<Ipv4>::zero()) == PrefixSet::<Ipv4>::zero());
}

#[test]
fn ipv4_zero_add_one_is_one() {
    assert!((PrefixSet::<Ipv4>::zero() + PrefixSet::<Ipv4>::one()) == PrefixSet::<Ipv4>::one());
}

#[test]
fn ipv4_one_add_zero_is_one() {
    assert!((PrefixSet::<Ipv4>::one() + PrefixSet::<Ipv4>::zero()) == PrefixSet::<Ipv4>::one());
}

#[test]
fn ipv4_one_add_one_is_one() {
    assert!((PrefixSet::<Ipv4>::one() + PrefixSet::<Ipv4>::one()) == PrefixSet::<Ipv4>::one());
}

#[test]
fn ipv4_zero_sub_zero_is_zero() {
    assert!((PrefixSet::<Ipv4>::zero() - PrefixSet::<Ipv4>::zero()) == PrefixSet::<Ipv4>::zero());
}

#[test]
fn ipv4_zero_sub_one_is_zero() {
    assert!((PrefixSet::<Ipv4>::zero() - PrefixSet::<Ipv4>::one()) == PrefixSet::<Ipv4>::zero());
}

#[test]
fn ipv4_one_sub_zero_is_one() {
    assert!((PrefixSet::<Ipv4>::one() - PrefixSet::<Ipv4>::zero()) == PrefixSet::<Ipv4>::one());
}

#[test]
fn ipv4_one_sub_one_is_zero() {
    assert!((PrefixSet::<Ipv4>::one() - PrefixSet::<Ipv4>::one()) == PrefixSet::<Ipv4>::zero());
}

#[test]
fn ipv4_zero_mul_zero_is_zero() {
    assert!((PrefixSet::<Ipv4>::zero() * PrefixSet::<Ipv4>::zero()) == PrefixSet::<Ipv4>::zero());
}

#[test]
fn ipv4_zero_mul_one_is_zero() {
    assert!((PrefixSet::<Ipv4>::zero() * PrefixSet::<Ipv4>::one()) == PrefixSet::<Ipv4>::zero());
}

#[test]
fn ipv4_one_mul_zero_is_zero() {
    assert!((PrefixSet::<Ipv4>::one() * PrefixSet::<Ipv4>::zero()) == PrefixSet::<Ipv4>::zero());
}

#[test]
fn ipv4_one_mul_one_is_one() {
    assert!((PrefixSet::<Ipv4>::one() * PrefixSet::<Ipv4>::one()) == PrefixSet::<Ipv4>::one());
}

#[test]
fn ipv6_not_zero_is_one() {
    assert!(!PrefixSet::<Ipv6>::zero() == PrefixSet::<Ipv6>::one());
}

#[test]
fn ipv6_not_one_is_zero() {
    assert!(!PrefixSet::<Ipv6>::one() == PrefixSet::<Ipv6>::zero());
}

#[test]
fn ipv6_zero_bitand_zero_is_zero() {
    assert!((PrefixSet::<Ipv6>::zero() & PrefixSet::<Ipv6>::zero()) == PrefixSet::<Ipv6>::zero());
}

#[test]
fn ipv6_zero_bitand_one_is_zero() {
    assert!((PrefixSet::<Ipv6>::zero() & PrefixSet::<Ipv6>::one()) == PrefixSet::<Ipv6>::zero());
}

#[test]
fn ipv6_one_bitand_zero_is_zero() {
    assert!((PrefixSet::<Ipv6>::one() & PrefixSet::<Ipv6>::zero()) == PrefixSet::<Ipv6>::zero());
}

#[test]
fn ipv6_one_bitand_one_is_one() {
    assert!((PrefixSet::<Ipv6>::one() & PrefixSet::<Ipv6>::one()) == PrefixSet::<Ipv6>::one());
}

#[test]
fn ipv6_zero_bitor_zero_is_zero() {
    assert!((PrefixSet::<Ipv6>::zero() | PrefixSet::<Ipv6>::zero()) == PrefixSet::<Ipv6>::zero());
}

#[test]
fn ipv6_zero_bitor_one_is_one() {
    assert!((PrefixSet::<Ipv6>::zero() | PrefixSet::<Ipv6>::one()) == PrefixSet::<Ipv6>::one());
}

#[test]
fn ipv6_one_bitor_zero_is_one() {
    assert!((PrefixSet::<Ipv6>::one() | PrefixSet::<Ipv6>::zero()) == PrefixSet::<Ipv6>::one());
}

#[test]
fn ipv6_one_bitor_one_is_one() {
    assert!((PrefixSet::<Ipv6>::one() | PrefixSet::<Ipv6>::one()) == PrefixSet::<Ipv6>::one());
}

#[test]
fn ipv6_zero_bitxor_zero_is_zero() {
    assert!((PrefixSet::<Ipv6>::zero() ^ PrefixSet::<Ipv6>::zero()) == PrefixSet::<Ipv6>::zero());
}

#[test]
fn ipv6_zero_bitxor_one_is_one() {
    assert!((PrefixSet::<Ipv6>::zero() ^ PrefixSet::<Ipv6>::one()) == PrefixSet::<Ipv6>::one());
}

#[test]
fn ipv6_one_bitxor_zero_is_one() {
    assert!((PrefixSet::<Ipv6>::one() ^ PrefixSet::<Ipv6>::zero()) == PrefixSet::<Ipv6>::one());
}

#[test]
fn ipv6_one_bitxor_one_is_zero() {
    assert!((PrefixSet::<Ipv6>::one() ^ PrefixSet::<Ipv6>::one()) == PrefixSet::<Ipv6>::zero());
}

#[test]
fn ipv6_zero_add_zero_is_zero() {
    assert!((PrefixSet::<Ipv6>::zero() + PrefixSet::<Ipv6>::zero()) == PrefixSet::<Ipv6>::zero());
}

#[test]
fn ipv6_zero_add_one_is_one() {
    assert!((PrefixSet::<Ipv6>::zero() + PrefixSet::<Ipv6>::one()) == PrefixSet::<Ipv6>::one());
}

#[test]
fn ipv6_one_add_zero_is_one() {
    assert!((PrefixSet::<Ipv6>::one() + PrefixSet::<Ipv6>::zero()) == PrefixSet::<Ipv6>::one());
}

#[test]
fn ipv6_one_add_one_is_one() {
    assert!((PrefixSet::<Ipv6>::one() + PrefixSet::<Ipv6>::one()) == PrefixSet::<Ipv6>::one());
}

#[test]
fn ipv6_zero_sub_zero_is_zero() {
    assert!((PrefixSet::<Ipv6>::zero() - PrefixSet::<Ipv6>::zero()) == PrefixSet::<Ipv6>::zero());
}

#[test]
fn ipv6_zero_sub_one_is_zero() {
    assert!((PrefixSet::<Ipv6>::zero() - PrefixSet::<Ipv6>::one()) == PrefixSet::<Ipv6>::zero());
}

#[test]
fn ipv6_one_sub_zero_is_one() {
    assert!((PrefixSet::<Ipv6>::one() - PrefixSet::<Ipv6>::zero()) == PrefixSet::<Ipv6>::one());
}

#[test]
fn ipv6_one_sub_one_is_zero() {
    assert!((PrefixSet::<Ipv6>::one() - PrefixSet::<Ipv6>::one()) == PrefixSet::<Ipv6>::zero());
}

#[test]
fn ipv6_zero_mul_zero_is_zero() {
    assert!((PrefixSet::<Ipv6>::zero() * PrefixSet::<Ipv6>::zero()) == PrefixSet::<Ipv6>::zero());
}

#[test]
fn ipv6_zero_mul_one_is_zero() {
    assert!((PrefixSet::<Ipv6>::zero() * PrefixSet::<Ipv6>::one()) == PrefixSet::<Ipv6>::zero());
}

#[test]
fn ipv6_one_mul_zero_is_zero() {
    assert!((PrefixSet::<Ipv6>::one() * PrefixSet::<Ipv6>::zero()) == PrefixSet::<Ipv6>::zero());
}

#[test]
fn ipv6_one_mul_one_is_one() {
    assert!((PrefixSet::<Ipv6>::one() * PrefixSet::<Ipv6>::one()) == PrefixSet::<Ipv6>::one());
}

#[test]
fn ipv4_not_singleton() {
    let res = !set_of(&["1.0.0.0/8"]);
    let expect = set_of(&[
        "0.0.0.0/0,0,7",
        "0.0.0.0/0,9,32",
        "0.0.0.0/8",
        "2.0.0.0/7,8,8",
        "4.0.0.0/6,8,8",
        "8.0.0.0/5,8,8",
        "16.0.0.0/4,8,8",
        "32.0.0.0/3,8,8",
        "64.0.0.0/2,8,8",
        "128.0.0.0/1,8,8",
    ]);
    assert!(res == expect);
}

#[test]
fn ipv4_not_range() {
    let res = !set_of(&["1.0.0.0/8,8,16"]);
    let expect = set_of(&[
        "0.0.0.0/0,0,7",
        "0.0.0.0/0,17,32",
        "0.0.0.0/8,8,16",
        "2.0.0.0/7,8,16",
        "4.0.0.0/6,8,16",
        "8.0.0.0/5,8,16",
        "16.0.0.0/4,8,16",
        "32.0.0.0/3,8,16",
        "64.0.0.0/2,8,16",
        "128.0.0.0/1,8,16",
    ]);
    assert!(res == expect);
}
