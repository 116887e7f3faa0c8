use vstd::prelude::*;

pub mod afi;
pub mod any;
pub mod bits;
pub mod concrete;
pub mod error;
mod family;
pub mod intervals;
pub mod model;
pub mod parser;
pub mod registry;
pub mod text;
pub mod traits;

pub use self::afi::{Afi, AfiClass};
pub use self::any::Any;
pub use self::concrete::{Ipv4, Ipv6};
pub use self::error::Error;

verus! {

/// The address type of the address-family class `A`.
pub type Address<A> = <A as AfiClass>::Address;

/// The interface type of the address-family class `A`.
pub type Interface<A> = <A as AfiClass>::Interface;

/// The prefix-length type of the address-family class `A`.
pub type PrefixLength<A> = <A as AfiClass>::PrefixLength;

/// The prefix type of the address-family class `A`.
pub type Prefix<A> = <A as AfiClass>::Prefix;

/// The netmask type of the address-family class `A`.
pub type Netmask<A> = <A as AfiClass>::Netmask;

/// The hostmask type of the address-family class `A`.
pub type Hostmask<A> = <A as AfiClass>::Hostmask;

/// The prefix-range type of the address-family class `A`.
pub type PrefixRange<A> = <A as AfiClass>::PrefixRange;

/// The prefix-set type of the address-family class `A`.
pub type PrefixSet<A> = <A as AfiClass>::PrefixSet;

} // verus!
