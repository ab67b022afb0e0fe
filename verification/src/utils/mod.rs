//! Insertion-ordered maps and sets keyed by small copyable keys.

pub mod assoc;
pub mod copy_map;
pub mod map;
pub mod set;

pub use self::assoc::MapKey;
pub use self::copy_map::WystCopyMap;
pub use self::map::WystMap;
pub use self::set::WystSet;
