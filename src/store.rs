//! Model of the node's store: writes are typed, and the committed store is the
//! sequence of writes in the order they became durable.

use vstd::prelude::*;
use crate::chunk_extra::{ChunkExtra, ChunkExtraView};
use crate::hash::CryptoHash;
use crate::root::append_bytes;
use crate::shard_uid::{shard_uid_bytes, u64_le, u64_to_le, ShardUId};

verus! {

/// One write of a batch.
#[derive(Debug)]
pub enum StoreOp {
    /// Reads of `child`'s state fall through to `parent`'s key prefix.
    SetShardUIdMapping { child: ShardUId, parent: ShardUId },
    /// The chunk extra of a shard at a block.
    SaveChunkExtra { block_hash: CryptoHash, shard_uid: ShardUId, chunk_extra: ChunkExtra },
    /// The witness that lets others re-execute a shard's transition at a block.
    SaveStateTransitionData { block_hash: CryptoHash, shard_id: u64, partial_state: Vec<Vec<u8>> },
    /// A trie node under its physical key: owning shard prefix, then node hash.
    InsertStateNode { key: Vec<u8>, value: Vec<u8> },
}

pub enum StoreOpView {
    SetShardUIdMapping { child: ShardUId, parent: ShardUId },
    SaveChunkExtra { block_hash: Seq<u8>, shard_uid: ShardUId, chunk_extra: ChunkExtraView },
    SaveStateTransitionData { block_hash: Seq<u8>, shard_id: u64, partial_state: Seq<Seq<u8>> },
    InsertStateNode { key: Seq<u8>, value: Seq<u8> },
}

impl View for StoreOp {
    type V = StoreOpView;

    open spec fn view(&self) -> StoreOpView {
        match self {
            StoreOp::SetShardUIdMapping { child, parent } => StoreOpView::SetShardUIdMapping {
                child: *child,
                parent: *parent,
            },
            StoreOp::SaveChunkExtra { block_hash, shard_uid, chunk_extra } =>
                StoreOpView::SaveChunkExtra {
                block_hash: block_hash.0@,
                shard_uid: *shard_uid,
                chunk_extra: chunk_extra@,
            },
            StoreOp::SaveStateTransitionData { block_hash, shard_id, partial_state } =>
                StoreOpView::SaveStateTransitionData {
                block_hash: block_hash.0@,
                shard_id: *shard_id,
                partial_state: partial_state@.map_values(|b: Vec<u8>| b@),
            },
            StoreOp::InsertStateNode { key, value } => StoreOpView::InsertStateNode {
                key: key@,
                value: value@,
            },
        }
    }
}

/// The column a write goes to.
#[derive(Clone, Copy, Debug, PartialEq, Eq, Structural)]
pub enum DBCol {
    State,
    ChunkExtra,
    ShardUIdMapping,
    StateTransitionData,
}

pub open spec fn op_column(op: StoreOpView) -> DBCol {
    match op {
        StoreOpView::SetShardUIdMapping { .. } => DBCol::ShardUIdMapping,
        StoreOpView::SaveChunkExtra { .. } => DBCol::ChunkExtra,
        StoreOpView::SaveStateTransitionData { .. } => DBCol::StateTransitionData,
        StoreOpView::InsertStateNode { .. } => DBCol::State,
    }
}

/// The physical key of a write: the child's 8-byte prefix for a mapping; the
/// block hash then the shard uid for a chunk extra; the block hash then the
/// little-endian shard id for transition data; a trie node's own key.
pub open spec fn op_key(op: StoreOpView) -> Seq<u8> {
    match op {
        StoreOpView::SetShardUIdMapping { child, .. } => shard_uid_bytes(child),
        StoreOpView::SaveChunkExtra { block_hash, shard_uid, .. } => block_hash + shard_uid_bytes(
            shard_uid,
        ),
        StoreOpView::SaveStateTransitionData { block_hash, shard_id, .. } => block_hash + u64_le(
            shard_id,
        ),
        StoreOpView::InsertStateNode { key, .. } => key,
    }
}

impl StoreOp {
    pub fn column(&self) -> (r: DBCol)
        ensures
            r == op_column(self@),
    {
        match self {
            StoreOp::SetShardUIdMapping { .. } => DBCol::ShardUIdMapping,
            StoreOp::SaveChunkExtra { .. } => DBCol::ChunkExtra,
            StoreOp::SaveStateTransitionData { .. } => DBCol::StateTransitionData,
            StoreOp::InsertStateNode { .. } => DBCol::State,
        }
    }

    pub fn key(&self) -> (r: Vec<u8>)
        ensures
            r@ == op_key(self@),
    {
        match self {
            StoreOp::SetShardUIdMapping { child, .. } => child.to_bytes(),
            StoreOp::SaveChunkExtra { block_hash, shard_uid, .. } => {
                let mut k: Vec<u8> = Vec::new();
                append_bytes(&mut k, block_hash.0.as_slice());
                let u = shard_uid.to_bytes();
                append_bytes(&mut k, u.as_slice());
                k
            },
            StoreOp::SaveStateTransitionData { block_hash, shard_id, .. } => {
                let mut k: Vec<u8> = Vec::new();
                append_bytes(&mut k, block_hash.0.as_slice());
                u64_to_le(*shard_id, &mut k);
                k
            },
            StoreOp::InsertStateNode { key, .. } => crate::bytes::copy_bytes(key),
        }
    }
}

pub open spec fn ops_view(ops: Seq<StoreOp>) -> Seq<StoreOpView> {
    ops.map_values(|o: StoreOp| o@)
}

/// Writes gathered in memory; nothing is visible until the batch is committed.
#[derive(Debug)]
pub struct StoreUpdate {
    pub ops: Vec<StoreOp>,
}

impl View for StoreUpdate {
    type V = Seq<StoreOpView>;

    open spec fn view(&self) -> Seq<StoreOpView> {
        ops_view(self.ops@)
    }
}

impl StoreUpdate {
    pub fn new() -> (r: StoreUpdate)
        ensures
            r@ == Seq::<StoreOpView>::empty(),
    {
        let r = StoreUpdate { ops: Vec::new() };
        assert(r@ =~= Seq::<StoreOpView>::empty());
        r
    }

    pub fn push(&mut self, op: StoreOp)
        ensures
            final(self)@ == old(self)@.push(op@),
    {
        self.ops.push(op);
        assert(final(self)@ =~= old(self)@.push(op@));
    }
}

/// The committed writes, in the order they became durable.
#[derive(Debug)]
pub struct Store {
    pub ops: Vec<StoreOp>,
}

impl View for Store {
    type V = Seq<StoreOpView>;

    open spec fn view(&self) -> Seq<StoreOpView> {
        ops_view(self.ops@)
    }
}

/// The chunk extra most recently written for (`block_hash`, `shard_uid`).
pub open spec fn latest_chunk_extra(ops: Seq<StoreOpView>, block_hash: Seq<u8>, shard_uid: ShardUId) -> Option<
    ChunkExtraView,
>
    decreases ops.len(),
{
    if ops.len() == 0 {
        None
    } else {
        match ops.last() {
            StoreOpView::SaveChunkExtra { block_hash: b, shard_uid: u, chunk_extra } if b
                == block_hash && u == shard_uid => Some(chunk_extra),
            _ => latest_chunk_extra(ops.drop_last(), block_hash, shard_uid),
        }
    }
}

impl Store {
    pub fn new() -> (r: Store)
        ensures
            r@ == Seq::<StoreOpView>::empty(),
    {
        let r = Store { ops: Vec::new() };
        assert(r@ =~= Seq::<StoreOpView>::empty());
        r
    }

    /// Makes every write of `update` durable at once.
    pub fn commit(&mut self, update: StoreUpdate)
        ensures
            final(self)@ == old(self)@ + update@,
    {
        let mut update = update;
        let ghost start = self.ops@;
        let ghost all = update.ops@;
        let n: usize = update.ops.len();
        let mut moved: usize = 0;
        while update.ops.len() > 0
            invariant
                all.len() == n,
                moved <= all.len(),
                self.ops@ == start + all.subrange(0, moved as int),
                update.ops@ == all.subrange(moved as int, all.len() as int),
            decreases update.ops.len(),
        {
            assert(all.len() - moved == update.ops@.len());
            let op = update.ops.remove(0);
            self.ops.push(op);
            moved = moved + 1;
            assert(self.ops@ =~= start + all.subrange(0, moved as int));
            assert(update.ops@ =~= all.subrange(moved as int, all.len() as int));
        }
        assert(all.subrange(0, moved as int) =~= all);
        assert(ops_view(start + all) =~= ops_view(start) + ops_view(all));
    }

    /// The chunk extra last written for a shard at a block.
    pub fn get_chunk_extra(&self, block_hash: &CryptoHash, shard_uid: ShardUId) -> (r: Option<ChunkExtra>)
        ensures
            match latest_chunk_extra(self@, block_hash.0@, shard_uid) {
                Some(v) => r is Some && r->Some_0@ == v,
                None => r is None,
            },
    {
        let ghost ops = self@;
        let mut i: usize = self.ops.len();
        assert(ops.subrange(0, i as int) =~= ops);
        while i > 0
            invariant
                i <= self.ops.len(),
                ops == self@,
                latest_chunk_extra(ops, block_hash.0@, shard_uid) == latest_chunk_extra(
                    ops.subrange(0, i as int),
                    block_hash.0@,
                    shard_uid,
                ),
            decreases i,
        {
            let ghost sub = ops.subrange(0, i as int);
            assert(sub.drop_last() =~= ops.subrange(0, i - 1));
            assert(sub.last() == self.ops@[i - 1]@);
            if let StoreOp::SaveChunkExtra { block_hash: b, shard_uid: u, chunk_extra } = &self.ops[i - 1] {
                if b.same_as(block_hash) && *u == shard_uid {
                    return Some(chunk_extra.duplicate());
                }
            }
            i = i - 1;
        }
        None
    }
}

} // verus!
