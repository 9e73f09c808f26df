use vstd::prelude::*;

verus! {

/// Why a resharding attempt failed. A block after which no split is due is not
/// an error: resharding then succeeds with no effect.
#[derive(Clone, Copy, Debug, PartialEq, Eq, Structural)]
pub enum ReshardingError {
    /// The parent shard's in-memory trie is not loaded.
    MemtrieNotLoaded,
    /// The parent's chunk extra for the block is not in the store.
    ChunkExtraNotFound,
    /// A child shard is missing from the next shard layout.
    ShardNotInLayout,
    /// The recomputed congestion counters disagree with the receipt queues or
    /// with the child's bootstrapped congestion info.
    CongestionMismatch,
    /// An entry of the parent state is too large to encode.
    TrieCorruption,
    /// The loaded parent state does not hash to the state root committed in
    /// the parent's chunk extra.
    StateRootMismatch,
    /// The flat-storage resharder refused to start.
    FlatStorageStartFailed,
    /// No such split is in progress in flat storage.
    FlatStorageNotInProgress,
    /// Flat-storage work was asked to stop before it finished.
    FlatStorageCancelled,
}

} // verus!
