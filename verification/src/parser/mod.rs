pub mod grammar;
pub mod scan;
pub mod ipv4;
pub mod ipv6;
pub mod length;
pub mod roundtrip;
pub mod roundtrip6;
pub mod roundtrip_prefix;
