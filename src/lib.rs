//! Shard-splitting core of a sharded chain node: splits one parent shard's
//! state into two children at a boundary account, rebuilds the children's
//! chunk headers and congestion counters, and stages every write in a single
//! batch that is committed all at once. Also holds the argument logic of the
//! mirror tool that replays one chain's traffic on another.

pub mod bytes;
pub mod chunk_extra;
pub mod congestion;
pub mod error;
pub mod flat_storage;
pub mod hash;
pub mod layout;
pub mod manager;
pub mod mirror;
pub mod root;
pub mod shard_uid;
pub mod split;
pub mod store;
pub mod trie;
pub mod tries;
