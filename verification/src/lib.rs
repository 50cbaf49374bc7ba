//! Verified core of the ferridriver browser-automation toolkit: the error
//! taxonomy, deterministic test sharding and the offline fixture URL rules.

pub mod text;
pub mod error;
pub mod shard;
pub mod offline_fixture;
