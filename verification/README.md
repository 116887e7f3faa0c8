# ip

Types and algorithms for IP addresses, prefixes, prefix ranges and prefix
sets of either address family, verified with Verus.

- `src/afi.rs`, `src/family.rs`: the address families (`Ipv4`, `Ipv6`) and
  the classes of families (`AfiClass`, `Any`).
- `src/concrete/`: the objects of one family — addresses, masks, prefix
  lengths, prefixes, interfaces, prefix ranges, address ranges — with their
  text forms, orders, special-purpose classification and conversions;
  `src/concrete/set/` holds the prefix set with its set algebra and
  iterators.
- `src/any/`: the same objects for either family.
- `src/traits.rs`: the interfaces that the types of one family and those of
  either family share, for code generic over the family.
- `src/parser/`: the grammar of address, prefix and range texts, the
  parsers, and the proofs that parsing a displayed value gives it back.
- `src/model.rs`, `src/bits.rs`, `src/intervals.rs`, `src/registry.rs`,
  `src/text.rs`: the mathematical models the contracts are stated in.
- `app/`: conversions to and from `std::net` and `ipnet` types.
