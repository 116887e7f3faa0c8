use ip::concrete::{Prefix, PrefixLength, PrefixRange, PrefixSet};
use ip::{Error, Ipv4, Ipv6};

type TestResult = Result<(), Error>;

fn assert_send<T: Send>(_: T) {}

fn assert_sync<T: Sync>(_: T) {}

fn prefixes_of<A: ip::Afi>(s: &PrefixSet<A>) -> Vec<Prefix<A>> {
    let mut it = s.prefixes();
    let mut out = Vec::new();
    while let Some(p) = it.next() {
        out.push(p);
    }
    out
}

fn empty_set() -> PrefixSet<Ipv4> {
    PrefixSet::new()
}

fn with_a_prefix_added() -> PrefixSet<Ipv4> {
    let mut s = empty_set();
    let p = "192.0.2.0/24".parse::<Prefix<Ipv4>>().unwrap();
    s.insert(p);
    s
}

fn and_removed() -> PrefixSet<Ipv4> {
    let mut s = with_a_prefix_added();
    let p = "192.0.2.0/24".parse::<Prefix<Ipv4>>().unwrap();
    s.remove(p);
    s
}

fn with_another_prefix_added() -> PrefixSet<Ipv4> {
    let mut s = with_a_prefix_added();
    let p = "192.0.0.0/22".parse::<Prefix<Ipv4>>().unwrap();
    s.insert(p);
    s
}

fn and_a_range_removed() -> PrefixSet<Ipv4> {
    let mut s = with_another_prefix_added();
    let r: PrefixRange<Ipv4> = "192.0.0.0/16,24,24".parse().unwrap();
    s.remove(r);
    s
}

fn with_a_third_prefix_added() -> PrefixSet<Ipv4> {
    let mut s = with_another_prefix_added();
    let p: Prefix<Ipv4> = "192.0.3.0/24".parse().unwrap();
    s.insert(p);
    s
}

fn and_another_range_removed() -> PrefixSet<Ipv4> {
    let mut s = with_a_third_prefix_added();
    let r: PrefixRange<Ipv4> = "192.0.2.0/23,24,24".parse().unwrap();
    s.remove(r);
    s
}

#[test]
fn is_send() {
    let s = empty_set();
    assert_send(s);
}

#[test]
fn is_sync() {
    let s = empty_set();
    assert_sync(s);
}

#[test]
fn is_emtpy() {
    let s = empty_set();
    assert!(s.is_empty());
}

#[test]
fn tests_is_emtpy() {
    let s = and_removed();
    assert!(s.is_empty());
}

#[test]
fn contains_no_prefixes() -> TestResult {
    let s = empty_set();
    assert_eq!(prefixes_of(&s).len(), 0);
    assert!(!s.contains("192.0.2.0/24".parse()?));
    assert!(!s.contains("192.0.0.0/22".parse()?));
    assert!(!s.contains("192.0.2.128/25".parse()?));
    assert!(!s.contains("192.0.4.0/24".parse()?));
    Ok(())
}

#[test]
fn iter_over_prefixes_is_empty() {
    let s = empty_set();
    let c: Vec<_> = prefixes_of(&s);
    assert_eq!(Vec::<Prefix<Ipv4>>::new(), c);
}

#[test]
fn contains_one_prefix() {
    let s = with_a_prefix_added();
    assert_eq!(prefixes_of(&s).len(), 1);
}

#[test]
fn tests_contains_one_prefix() {
    let s = and_a_range_removed();
    assert_eq!(prefixes_of(&s).len(), 1);

    let s = and_another_range_removed();
    assert_eq!(prefixes_of(&s).len(), 1);
}

#[test]
fn contains_that_prefix() -> TestResult {
    let s = with_a_prefix_added();
    assert!(s.contains("192.0.2.0/24".parse()?));
    Ok(())
}

#[test]
fn does_not_contain_others() -> TestResult {
    let s = with_a_prefix_added();
    assert!(!s.contains("192.0.0.0/22".parse()?));
    assert!(!s.contains("192.0.2.128/25".parse()?));
    assert!(!s.contains("192.0.4.0/24".parse()?));
    Ok(())
}

#[test]
fn iter_over_prefixes_is_singleton() -> TestResult {
    let s = with_a_prefix_added();
    let c: Vec<Prefix<Ipv4>> = prefixes_of(&s);
    assert_eq!(vec!["192.0.2.0/24".parse::<Prefix<Ipv4>>()?], c);
    Ok(())
}

#[test]
fn contains_two_prefixes() {
    let s = with_another_prefix_added();
    assert_eq!(prefixes_of(&s).len(), 2);
}

#[test]
fn contains_both_prefixes() -> TestResult {
    let s = with_another_prefix_added();
    assert!(s.contains("192.0.2.0/24".parse()?));
    assert!(s.contains("192.0.0.0/22".parse()?));
    Ok(())
}

#[test]
fn iter_over_prefixes_is_len_two() -> TestResult {
    let s = with_another_prefix_added();
    let c: Vec<_> = prefixes_of(&s);
    assert_eq!(
        vec![
            "192.0.0.0/22".parse::<Prefix<Ipv4>>()?,
            "192.0.2.0/24".parse::<Prefix<Ipv4>>()?,
        ],
        c
    );
    Ok(())
}

#[test]
fn contains_the_remaining_prefix() -> TestResult {
    let s = and_a_range_removed();
    assert!(&s.contains("192.0.0.0/22".parse()?));
    Ok(())
}

#[test]
fn tests_contains_the_remaining_prefix() -> TestResult {
    let s = and_another_range_removed();
    assert!(s.contains("192.0.0.0/22".parse()?));
    Ok(())
}

#[test]
fn contains_three_prefixes() {
    let s = with_a_third_prefix_added();
    assert_eq!(prefixes_of(&s).len(), 3);
}

#[test]
fn contains_two_prefix_ranges() {
    let s = with_a_third_prefix_added();
    assert_eq!(s.ranges().len(), 2);
}

#[test]
fn contains_all_prefixes() -> TestResult {
    let s = with_a_third_prefix_added();
    assert!(s.contains("192.0.2.0/24".parse()?));
    assert!(s.contains("192.0.3.0/24".parse()?));
    assert!(s.contains("192.0.0.0/22".parse()?));
    Ok(())
}

#[test]
fn iter_over_prefixes_is_len_three() -> TestResult {
    let s = with_a_third_prefix_added();
    let c: Vec<_> = prefixes_of(&s);
    assert_eq!(
        vec![
            "192.0.0.0/22".parse::<Prefix<Ipv4>>()?,
            "192.0.2.0/24".parse::<Prefix<Ipv4>>()?,
            "192.0.3.0/24".parse::<Prefix<Ipv4>>()?,
        ],
        c
    );
    Ok(())
}

#[test]
fn ipv4_zero_set_is_empty() -> TestResult {
    assert_eq!(prefixes_of(&PrefixSet::<Ipv4>::zero()).len(), 0);
    Ok(())
}

#[test]
fn ipv6_zero_set_is_empty() -> TestResult {
    assert_eq!(prefixes_of(&PrefixSet::<Ipv6>::zero()).len(), 0);
    Ok(())
}

fn range_of<A: ip::Afi>(prefix: &str, lower: u8, upper: u8) -> Result<PrefixRange<A>, Error> {
    let p: Prefix<A> = prefix.parse()?;
    PrefixRange::new(p, PrefixLength::from_primitive(lower)?..=PrefixLength::from_primitive(upper)?)
}

#[test]
fn sibling_prefixes_aggregate_into_one_range() -> TestResult {
    let mut s = PrefixSet::<Ipv6>::new();
    let items: Vec<Prefix<Ipv6>> =
        vec!["2001:db8::/37".parse()?, "2001:db8:f00::/37".parse()?];
    s.insert_from(items);
    assert_eq!(s.ranges(), vec![range_of::<Ipv6>("2001:db8::/36", 37, 37)?]);
    assert_eq!(prefixes_of(&s).len(), 2);
    Ok(())
}

#[test]
fn three_prefixes_aggregate_into_two_ranges() -> TestResult {
    let s = with_a_third_prefix_added();
    assert_eq!(
        s.ranges(),
        vec![range_of::<Ipv4>("192.0.0.0/22", 22, 22)?, range_of::<Ipv4>("192.0.2.0/23", 24, 24)?]
    );
    Ok(())
}

#[test]
fn ranges_join_consecutive_lengths() -> TestResult {
    let mut s = PrefixSet::<Ipv4>::new();
    let items: Vec<Prefix<Ipv4>> =
        vec!["10.0.0.0/8".parse()?, "10.0.0.0/9".parse()?, "10.128.0.0/9".parse()?];
    s.insert_from(items);
    assert_eq!(s.ranges(), vec![range_of::<Ipv4>("10.0.0.0/8", 8, 9)?]);
    Ok(())
}

#[test]
fn ranges_keep_separate_lengths_apart() -> TestResult {
    let mut s = PrefixSet::<Ipv4>::new();
    let items: Vec<Prefix<Ipv4>> = vec![
        "10.0.0.0/8".parse()?,
        "10.0.0.0/10".parse()?,
        "10.64.0.0/10".parse()?,
        "10.128.0.0/10".parse()?,
        "10.192.0.0/10".parse()?,
    ];
    s.insert_from(items);
    assert_eq!(
        s.ranges(),
        vec![range_of::<Ipv4>("10.0.0.0/8", 8, 8)?, range_of::<Ipv4>("10.0.0.0/8", 10, 10)?]
    );
    Ok(())
}

#[test]
fn unaligned_run_splits_into_largest_blocks() -> TestResult {
    let mut s = PrefixSet::<Ipv4>::new();
    let items: Vec<Prefix<Ipv4>> = vec![
        "192.0.3.0/24".parse()?,
        "192.0.4.0/24".parse()?,
        "192.0.5.0/24".parse()?,
        "192.0.6.0/24".parse()?,
        "192.0.7.0/24".parse()?,
        "192.0.8.0/24".parse()?,
    ];
    s.insert_from(items);
    assert_eq!(
        s.ranges(),
        vec![
            range_of::<Ipv4>("192.0.3.0/24", 24, 24)?,
            range_of::<Ipv4>("192.0.4.0/22", 24, 24)?,
            range_of::<Ipv4>("192.0.8.0/24", 24, 24)?,
        ]
    );
    Ok(())
}

#[test]
fn insert_chains_and_counts_one() -> TestResult {
    let set = PrefixSet::<Ipv4>::new().insert("192.0.2.0/24".parse::<Prefix<Ipv4>>()?).to_owned();
    assert_eq!(set.len(), 1);
    Ok(())
}

#[test]
fn inserted_range_counts_its_members() -> TestResult {
    let range: PrefixRange<Ipv6> = "2001:db8:f00::/48,64,64".parse()?;
    let set = PrefixSet::<Ipv6>::new().insert(range).to_owned();
    assert_eq!(set.len(), 1 << 16);
    Ok(())
}

#[test]
fn insert_from_chains_and_counts() -> TestResult {
    let prefixes: Vec<Prefix<Ipv4>> = vec!["192.0.2.0/26".parse()?, "192.0.2.64/26".parse()?];
    let set = PrefixSet::<Ipv4>::new().insert_from(prefixes).to_owned();
    assert_eq!(set.len(), 2);
    Ok(())
}

#[test]
fn remove_chains_and_counts() -> TestResult {
    let prefixes: Vec<Prefix<Ipv6>> = vec!["2001:db8:f00::/48".parse()?, "2001:db8:baa::/48".parse()?];
    let set = PrefixSet::<Ipv6>::new()
        .insert_from(prefixes)
        .remove("2001:db8:f00::/48".parse::<Prefix<Ipv6>>()?)
        .to_owned();
    assert_eq!(set.len(), 1);
    Ok(())
}

#[test]
fn remove_from_chains_and_counts() -> TestResult {
    let prefixes: Vec<Prefix<Ipv4>> = vec!["192.0.2.0/26".parse()?, "192.0.2.64/26".parse()?];
    let mut set = PrefixSet::<Ipv4>::new()
        .insert("192.0.2.0/24,26,26".parse::<PrefixRange<Ipv4>>()?)
        .to_owned();
    assert_eq!(set.remove_from(prefixes).len(), 2);
    Ok(())
}

#[test]
fn clear_empties_the_set() -> TestResult {
    let mut set = PrefixSet::<Ipv6>::new().insert("2001:db8::/32".parse::<Prefix<Ipv6>>()?).to_owned();
    assert!(!set.is_empty());
    set.clear();
    assert!(set.is_empty());
    assert_eq!(set.len(), 0);
    Ok(())
}
