pub mod af;
pub use self::af::{AfiClass, Any};

pub mod addr;
pub use self::addr::Address;

pub mod prefix;
pub use self::prefix::{Bitmask, Hostmask, Length, Mask, Netmask, Prefix, Subprefixes};
pub use self::prefix::Length as PrefixLength;

pub mod range;
pub use self::range::{IntoIter, Range};
pub use self::range::Range as PrefixRange;

pub mod interface;
pub use self::interface::Interface;

pub mod set;
pub use self::set::{AnySetItem, PrefixSet, Prefixes};

pub mod ord;

pub mod convert;

pub mod from;

pub mod set_ops;
