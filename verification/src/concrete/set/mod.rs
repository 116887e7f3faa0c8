pub mod index;
pub mod prefix_set;
pub mod traits;
pub mod ord;

pub use self::prefix_set::{PrefixSet, Prefixes, SetItem};
