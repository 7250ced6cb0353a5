//! Resolution-and-caching engine for cloud compute instances.
//!
//! The library normalizes raw provider instance records into flat
//! [`instance::AshufInfo`] values, partitions them by a tag-based pattern
//! match, decides when a disk-cached instance set is still fresh, and draws
//! one instance uniformly at random from a matched set.  File and network
//! transport stay outside the library.  Every function here is verified
//! against its contract; the few calls into outside crates — the regular
//! expression engine, the clock, the random index — stand behind small
//! trusted wrappers whose contracts name what those calls return.

pub mod cache;
pub mod errors;
pub mod instance;
pub mod matcher;
pub mod normalize;
pub mod raw;
pub mod resolver;
pub mod selector;

pub use cache::CacheData;
pub use instance::AshufInfo;
