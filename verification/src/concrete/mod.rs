pub use crate::afi::AfiEnum as Afi;
pub use crate::afi::{Ipv4, Ipv6};

pub mod addr;
pub use self::addr::Address;

pub mod len;
pub use self::len::PrefixLength;

pub mod mask;
pub use self::mask::{Bit, Bitmask, Host, Hostmask, Mask, Net, Netmask, Type};
pub use self::mask as mask_types;

pub mod prefix;
pub use self::prefix::{common_length, Prefix};

pub mod ord;
pub use self::ord::PrefixOrdering;

pub mod interface;
pub use self::interface::Interface;

pub mod ops;

pub mod convert;

pub mod from;

pub mod operators;

pub mod subprefixes;
pub use self::subprefixes::Subprefixes;

pub mod range;
pub use self::range::{IntoIter, Range as PrefixRange};

pub mod parse;

pub mod display;

pub mod addr_range;
pub use self::addr_range::AddressRange;

pub mod classify;
pub use self::classify::MulticastScope;

pub mod set;
pub use self::set::{PrefixSet, Prefixes, SetItem};


