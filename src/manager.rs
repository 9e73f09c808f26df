use vstd::prelude::*;
use crate::chunk_extra::{child_chunk_extra, get_child_chunk_extra, ChunkExtraView};
use crate::congestion::{CongestionInfo, ReceiptGroupTotals};
use crate::error::ReshardingError;
use crate::flat_storage::{finish, handoff, FlatStorageResharder, FlatStorageStatusView, ReshardingHandle};
use crate::hash::CryptoHash;
use crate::layout::{ShardLayout, ShardLayoutView, SplitShardEvent, SplitShardEventView};
use crate::root::{
    append_bytes, compute_state_root, zero_hash, concat, concat_leaf_hashes, entries_fit, entry_fits, leaf_hashes,
    leaf_hashes_of, state_root,
};
use crate::shard_uid::{lemma_shard_uid_bytes_injective, shard_uid_bytes, ShardUId};
use crate::split::{
    bytes_view, lemma_witness_replays, replay_root, retain_split_shard, witness_of, SplitResult,
};
use crate::store::{
    latest_chunk_extra, op_column, op_key, DBCol, Store, StoreOp, StoreOpView, StoreUpdate,
};
use crate::bytes::bytes_lt;
use crate::trie::{entries_view, lemma_retain_one_side, retain, EntryView, RetainMode, TrieEntry};
use crate::tries::{loaded_state, ShardTries};

verus! {

/// The block after which the shard layout may change.
#[derive(Clone, Copy, Debug)]
pub struct BlockInfo {
    pub hash: CryptoHash,
    pub height: u64,
}

/// What the epoch schedule says about a block.
#[derive(Debug)]
pub struct EpochView {
    pub is_next_block_epoch_start: bool,
    pub shard_layout: ShardLayout,
    pub next_shard_layout: ShardLayout,
    /// The split that the next layout makes, if one can be derived from it.
    pub split_event: Option<SplitShardEvent>,
}

/// Outcome of the resharding gate.
#[derive(Clone, Copy, Debug, PartialEq, Eq, Structural)]
pub enum GateDecision {
    /// The next block does not start an epoch with a new layout.
    SameLayout,
    /// The next layout cannot split shards.
    NotSplitLayout,
    /// No split can be derived from the next layout.
    NoSplitEvent,
    /// The split is of another parent shard.
    OtherParent,
    /// Split this shard.
    Split,
}

pub open spec fn gate(epoch: EpochView, shard_uid: ShardUId) -> GateDecision {
    if !(epoch.is_next_block_epoch_start && epoch.shard_layout@ != epoch.next_shard_layout@) {
        GateDecision::SameLayout
    } else if !epoch.next_shard_layout.is_v2 {
        GateDecision::NotSplitLayout
    } else {
        match epoch.split_event {
            None => GateDecision::NoSplitEvent,
            Some(ev) => if ev.parent_shard != shard_uid {
                GateDecision::OtherParent
            } else {
                GateDecision::Split
            },
        }
    }
}

/// Decides whether this block and shard start a split.
pub fn check_gate(epoch: &EpochView, shard_uid: ShardUId) -> (r: GateDecision)
    ensures
        r == gate(*epoch, shard_uid),
{
    if !(epoch.is_next_block_epoch_start && !epoch.shard_layout.same_as(&epoch.next_shard_layout)) {
        return GateDecision::SameLayout;
    }
    if !epoch.next_shard_layout.is_v2 {
        return GateDecision::NotSplitLayout;
    }
    match &epoch.split_event {
        None => GateDecision::NoSplitEvent,
        Some(ev) => if ev.parent_shard != shard_uid {
            GateDecision::OtherParent
        } else {
            GateDecision::Split
        },
    }
}

/// What the congestion recomputation reads besides the parent's chunk extra:
/// the parent's outgoing queue totals, one per destination of the current
/// layout, and the right child's congestion info bootstrapped from its state.
#[derive(Debug)]
pub struct CongestionInputs {
    pub receipt_groups: Vec<Option<ReceiptGroupTotals>>,
    pub right_child_bootstrapped: CongestionInfo,
}

/// The trie node a child adds under the parent's key prefix: its root node,
/// which lists its leaf hashes. An empty child adds none.
pub open spec fn node_ops(parent: ShardUId, kept: Seq<EntryView>) -> Seq<StoreOpView> {
    if kept.len() == 0 {
        seq![]
    } else {
        seq![
            StoreOpView::InsertStateNode {
                key: shard_uid_bytes(parent) + state_root(kept),
                value: concat(leaf_hashes(kept)),
            },
        ]
    }
}

/// The writes for one child: its chunk extra, its witness, its new node.
pub open spec fn child_ops(
    ev: SplitShardEventView,
    mode: RetainMode,
    child: ShardUId,
    parent_state: Seq<EntryView>,
    parent_extra: ChunkExtraView,
    block_hash: Seq<u8>,
    next_shard_ids: Seq<u64>,
    groups: Seq<Option<ReceiptGroupTotals>>,
    bootstrapped: CongestionInfo,
) -> Result<Seq<StoreOpView>, ReshardingError> {
    let kept = retain(parent_state, ev.boundary_account, mode);
    match child_chunk_extra(
        parent_extra,
        state_root(kept),
        child,
        mode,
        groups,
        bootstrapped,
        next_shard_ids,
    ) {
        Err(e) => Err(e),
        Ok(x) => Ok(
            seq![
                StoreOpView::SaveChunkExtra { block_hash, shard_uid: child, chunk_extra: x },
                StoreOpView::SaveStateTransitionData {
                    block_hash,
                    shard_id: child.shard_id as u64,
                    partial_state: witness_of(parent_state, ev.boundary_account, mode),
                },
            ] + node_ops(ev.parent_shard, kept),
        ),
    }
}

/// Both children mapped to the parent.
pub open spec fn shard_uid_mappings(ev: SplitShardEventView) -> Seq<StoreOpView> {
    seq![
        StoreOpView::SetShardUIdMapping { child: ev.left_child_shard, parent: ev.parent_shard },
        StoreOpView::SetShardUIdMapping { child: ev.right_child_shard, parent: ev.parent_shard },
    ]
}

/// The writes of a split, given the parent's state and chunk extra: both
/// shard-uid mappings, then the left child's writes, then the right child's.
pub open spec fn split_ops(
    ev: SplitShardEventView,
    parent_state: Seq<EntryView>,
    parent_extra: ChunkExtraView,
    block_hash: Seq<u8>,
    next_shard_ids: Seq<u64>,
    groups: Seq<Option<ReceiptGroupTotals>>,
    bootstrapped: CongestionInfo,
) -> Result<Seq<StoreOpView>, ReshardingError> {
    let mappings = shard_uid_mappings(ev);
    match child_ops(
        ev,
        RetainMode::Left,
        ev.left_child_shard,
        parent_state,
        parent_extra,
        block_hash,
        next_shard_ids,
        groups,
        bootstrapped,
    ) {
        Err(e) => Err(e),
        Ok(l) => match child_ops(
            ev,
            RetainMode::Right,
            ev.right_child_shard,
            parent_state,
            parent_extra,
            block_hash,
            next_shard_ids,
            groups,
            bootstrapped,
        ) {
            Err(e) => Err(e),
            Ok(r) => Ok(mappings + l + r),
        },
    }
}

/// The writes of a split as read from the committed store and the loaded
/// in-memory tries, or why it cannot be made. The loaded parent state must
/// hash to the state root committed in the parent's chunk extra, so the
/// children split the committed state.
pub open spec fn split_plan(
    store: Seq<StoreOpView>,
    tries: Seq<crate::tries::MemTrieView>,
    block_hash: Seq<u8>,
    ev: SplitShardEventView,
    next_shard_ids: Seq<u64>,
    groups: Seq<Option<ReceiptGroupTotals>>,
    bootstrapped: CongestionInfo,
) -> Result<Seq<StoreOpView>, ReshardingError> {
    match loaded_state(tries, ev.parent_shard) {
        None => Err(ReshardingError::MemtrieNotLoaded),
        Some(s) => match latest_chunk_extra(store, block_hash, ev.parent_shard) {
            None => Err(ReshardingError::ChunkExtraNotFound),
            Some(x) => if !entries_fit(s) {
                Err(ReshardingError::TrieCorruption)
            } else if state_root(s) != x.state_root {
                Err(ReshardingError::StateRootMismatch)
            } else {
                split_ops(ev, s, x, block_hash, next_shard_ids, groups, bootstrapped)
            },
        },
    }
}

fn all_entries_fit(entries: &Vec<TrieEntry>) -> (r: bool)
    ensures
        r == entries_fit(entries_view(entries@)),
{
    let ghost s = entries_view(entries@);
    let mut i: usize = 0;
    while i < entries.len()
        invariant
            i <= entries.len(),
            s == entries_view(entries@),
            forall|j: int| 0 <= j < i ==> entry_fits(#[trigger] s[j]),
        decreases entries.len() - i,
    {
        assert(s[i as int] == entries@[i as int]@);
        if entries[i].account.len() > 4294967295 || entries[i].key.len() > 4294967295 {
            assert(!entry_fits(s[i as int]));
            return false;
        }
        i = i + 1;
    }
    true
}

/// Appends one child's writes to the batch.
fn push_child_ops(
    update: &mut StoreUpdate,
    ev: &SplitShardEvent,
    mode: RetainMode,
    child: ShardUId,
    parent_entries: &Vec<TrieEntry>,
    kept_entries: &Vec<TrieEntry>,
    kept_root: CryptoHash,
    witness: Vec<Vec<u8>>,
    parent_extra: &crate::chunk_extra::ChunkExtra,
    block_hash: &CryptoHash,
    next_shard_ids: &Vec<u64>,
    congestion: &CongestionInputs,
) -> (r: Result<(), ReshardingError>)
    requires
        entries_fit(entries_view(parent_entries@)),
        entries_view(kept_entries@) == retain(
            entries_view(parent_entries@),
            ev.boundary_account@,
            mode,
        ),
        kept_root.0@ == state_root(
            retain(entries_view(parent_entries@), ev.boundary_account@, mode),
        ),
        bytes_view(witness@) == witness_of(
            entries_view(parent_entries@),
            ev.boundary_account@,
            mode,
        ),
    ensures
        match child_ops(
            ev@,
            mode,
            child,
            entries_view(parent_entries@),
            parent_extra@,
            block_hash.0@,
            next_shard_ids@,
            congestion.receipt_groups@,
            congestion.right_child_bootstrapped,
        ) {
            Ok(ops) => r is Ok && final(update)@ == old(update)@ + ops,
            Err(e) => r == Err::<(), ReshardingError>(e),
        },
{
    let ghost kept = retain(entries_view(parent_entries@), ev.boundary_account@, mode);
    let extra = match get_child_chunk_extra(
        parent_extra,
        kept_root,
        child,
        mode,
        &congestion.receipt_groups,
        &congestion.right_child_bootstrapped,
        next_shard_ids,
    ) {
        Ok(x) => x,
        Err(e) => {
            return Err(e);
        },
    };
    let ghost start = update@;
    update.push(StoreOp::SaveChunkExtra { block_hash: *block_hash, shard_uid: child, chunk_extra: extra });
    update.push(
        StoreOp::SaveStateTransitionData {
            block_hash: *block_hash,
            shard_id: child.shard_id as u64,
            partial_state: witness,
        },
    );
    if kept_entries.len() > 0 {
        proof {
            crate::split::lemma_retain_fits(
                entries_view(parent_entries@),
                ev.boundary_account@,
                mode,
            );
        }
        let leaves = leaf_hashes_of(kept_entries);
        let value = concat_leaf_hashes(&leaves);
        let mut key = ev.parent_shard.to_bytes();
        append_bytes(&mut key, kept_root.0.as_slice());
        update.push(StoreOp::InsertStateNode { key, value });
    }
    assert(update@ =~= start + child_ops(
        ev@,
        mode,
        child,
        entries_view(parent_entries@),
        parent_extra@,
        block_hash.0@,
        next_shard_ids@,
        congestion.receipt_groups@,
        congestion.right_child_bootstrapped,
    )->Ok_0);
    Ok(())
}

/// Sequences a split: gate, shard-uid mappings, in-memory split of both
/// children, one atomic commit, then the flat-storage hand-off.
#[derive(Debug)]
pub struct ReshardingManager {
    pub store: Store,
    /// Lets the node interrupt background resharding work.
    pub resharding_handle: ReshardingHandle,
    /// Takes over the flat-storage part of a committed split.
    pub flat_storage_resharder: FlatStorageResharder,
}

impl ReshardingManager {
    pub fn new(store: Store) -> (r: ReshardingManager)
        ensures
            r.store@ == store@,
            !r.resharding_handle.cancelled,
            r.flat_storage_resharder.status@ == FlatStorageStatusView::Idle,
    {
        ReshardingManager {
            store,
            resharding_handle: ReshardingHandle::new(),
            flat_storage_resharder: FlatStorageResharder::new(),
        }
    }

    /// Marks the flat-storage part of `event` done, unless this manager's
    /// handle has asked background work to stop.
    pub fn finish_flat_storage_resharding(&mut self, event: &SplitShardEvent) -> (r: Result<(), ReshardingError>)
        ensures
            final(self).store@ == old(self).store@,
            final(self).resharding_handle == old(self).resharding_handle,
            match finish(old(self).flat_storage_resharder.status@, event@, old(self).resharding_handle.cancelled) {
                Ok(next) => r is Ok && final(self).flat_storage_resharder.status@ == next,
                Err(e) => r == Err::<(), ReshardingError>(e)
                    && final(self).flat_storage_resharder.status@ == old(self).flat_storage_resharder.status@,
            },
    {
        let handle = self.resharding_handle;
        self.flat_storage_resharder.finish_resharding(event, &handle)
    }

    /// Splits `shard_uid` if the layout changes after `block` and the split is
    /// of this shard; otherwise succeeds without any effect.
    pub fn start_resharding(
        &mut self,
        chain_store_update: StoreUpdate,
        block: &BlockInfo,
        epoch: &EpochView,
        shard_uid: ShardUId,
        tries: &mut ShardTries,
        congestion: &CongestionInputs,
    ) -> (r: Result<(), ReshardingError>)
        requires
            epoch.split_event is Some ==> epoch.split_event->Some_0.wf(),
        ensures
            gate(*epoch, shard_uid) != GateDecision::Split ==> {
                &&& r is Ok
                &&& final(self).store@ == old(self).store@
                &&& final(self).flat_storage_resharder.status@ == old(self).flat_storage_resharder.status@
                &&& final(tries)@ == old(tries)@
            },
            gate(*epoch, shard_uid) == GateDecision::Split ==> split_done(
                *old(self),
                *final(self),
                chain_store_update@,
                block.hash.0@,
                epoch.split_event->Some_0@,
                epoch.next_shard_layout@,
                *congestion,
                old(tries)@,
                final(tries)@,
                r,
            ),
    {
        match check_gate(epoch, shard_uid) {
            GateDecision::Split => {},
            _ => {
                return Ok(());
            },
        }
        match &epoch.split_event {
            Some(ev) => self.split_shard(
                chain_store_update,
                block,
                ev,
                &epoch.next_shard_layout,
                tries,
                congestion,
            ),
            None => Ok(()),
        }
    }

    fn split_shard(
        &mut self,
        chain_store_update: StoreUpdate,
        block: &BlockInfo,
        ev: &SplitShardEvent,
        next_layout: &ShardLayout,
        tries: &mut ShardTries,
        congestion: &CongestionInputs,
    ) -> (r: Result<(), ReshardingError>)
        requires
            ev.wf(),
        ensures
            split_done(
                *old(self),
                *final(self),
                chain_store_update@,
                block.hash.0@,
                ev@,
                next_layout@,
                *congestion,
                old(tries)@,
                final(tries)@,
                r,
            ),
    {
        let ghost tries_before = tries@;
        match tries.freeze_mem_tries(ev.parent_shard) {
            Err(e) => {
                return Err(e);
            },
            Ok(()) => {},
        }
        assert(loaded_state(tries@, ev.parent_shard) == loaded_state(tries_before, ev.parent_shard));
        let (update, left_entries, right_entries) = match process_memtrie_resharding_storage_update(
            &self.store,
            tries,
            chain_store_update,
            block,
            ev,
            &next_layout.shard_ids,
            congestion,
        ) {
            Ok(t) => t,
            Err(e) => {
                return Err(e);
            },
        };
        let ghost plan = split_plan(
            self.store@,
            tries_before,
            block.hash.0@,
            ev@,
            next_layout.shard_ids@,
            congestion.receipt_groups@,
            congestion.right_child_bootstrapped,
        );
        let ghost store_before = self.store@;
        self.store.commit(update);
        assert(self.store@ =~= store_before + chain_store_update@ + plan->Ok_0);
        tries.load_mem_trie(ev.left_child_shard, left_entries);
        let ghost after_left = tries@;
        tries.load_mem_trie(ev.right_child_shard, right_entries);
        assert(loaded_state(tries@, ev.left_child_shard) == loaded_state(after_left, ev.left_child_shard));
        assert(forall|u: ShardUId|
            u != ev.left_child_shard && u != ev.right_child_shard ==> loaded_state(tries@, u)
                == loaded_state(tries_before, u));
        self.flat_storage_resharder.start_resharding(ev, next_layout)
    }
}

/// Adds to the batch the mapping of both children to the parent, so that
/// reads of a child's state use the parent's key prefix.
fn set_state_shard_uid_mapping(update: &mut StoreUpdate, ev: &SplitShardEvent)
    ensures
        final(update)@ == old(update)@ + shard_uid_mappings(ev@),
{
    let ghost start = update@;
    let children = ev.children_shards();
    let mut i: usize = 0;
    while i < children.len()
        invariant
            i <= children.len(),
            children@ == seq![ev.left_child_shard, ev.right_child_shard],
            update@ == start + shard_uid_mappings(ev@).subrange(0, i as int),
        decreases children.len() - i,
    {
        update.push(StoreOp::SetShardUIdMapping { child: children[i], parent: ev.parent_shard });
        i = i + 1;
        assert(update@ =~= start + shard_uid_mappings(ev@).subrange(0, i as int));
    }
    assert(shard_uid_mappings(ev@).subrange(0, 2) =~= shard_uid_mappings(ev@));
}

/// Splits the parent's in-memory state for both children, left first, and
/// gathers the caller's batch, the shard-uid mappings and both children's
/// writes into one batch; returns it with the children's retained entries.
fn process_memtrie_resharding_storage_update(
    store: &Store,
    tries: &ShardTries,
    chain_store_update: StoreUpdate,
    block: &BlockInfo,
    ev: &SplitShardEvent,
    next_shard_ids: &Vec<u64>,
    congestion: &CongestionInputs,
) -> (r: Result<(StoreUpdate, Vec<TrieEntry>, Vec<TrieEntry>), ReshardingError>)
    ensures
        match split_plan(
            store@,
            tries@,
            block.hash.0@,
            ev@,
            next_shard_ids@,
            congestion.receipt_groups@,
            congestion.right_child_bootstrapped,
        ) {
            Err(e) => r is Err && r->Err_0 == e,
            Ok(ops) => {
                let parent_state = loaded_state(tries@, ev.parent_shard)->Some_0;
                &&& r is Ok
                &&& r->Ok_0.0@ == chain_store_update@ + ops
                &&& entries_view(r->Ok_0.1@) == retain(
                    parent_state,
                    ev.boundary_account@,
                    RetainMode::Left,
                )
                &&& entries_view(r->Ok_0.2@) == retain(
                    parent_state,
                    ev.boundary_account@,
                    RetainMode::Right,
                )
            },
        },
{
    let ghost plan = split_plan(
        store@,
        tries@,
        block.hash.0@,
        ev@,
        next_shard_ids@,
        congestion.receipt_groups@,
        congestion.right_child_bootstrapped,
    );
    let parent_entries = match tries.get_mem_trie(ev.parent_shard) {
        Some(e) => e,
        None => {
            return Err(ReshardingError::MemtrieNotLoaded);
        },
    };
    let parent_extra = match store.get_chunk_extra(&block.hash, ev.parent_shard) {
        Some(x) => x,
        None => {
            return Err(ReshardingError::ChunkExtraNotFound);
        },
    };
    if !all_entries_fit(parent_entries) {
        return Err(ReshardingError::TrieCorruption);
    }
    let loaded_root = compute_state_root(parent_entries);
    if !loaded_root.same_as(&parent_extra.state_root) {
        return Err(ReshardingError::StateRootMismatch);
    }
    let mut update = chain_store_update;
    let ghost start = update@;
    set_state_shard_uid_mapping(&mut update, ev);
    let SplitResult { entries: left_entries, state_root: left_root, witness: left_witness } =
        retain_split_shard(parent_entries, &ev.boundary_account, RetainMode::Left);
    let SplitResult { entries: right_entries, state_root: right_root, witness: right_witness } =
        retain_split_shard(parent_entries, &ev.boundary_account, RetainMode::Right);
    match push_child_ops(
        &mut update,
        ev,
        RetainMode::Left,
        ev.left_child_shard,
        parent_entries,
        &left_entries,
        left_root,
        left_witness,
        &parent_extra,
        &block.hash,
        next_shard_ids,
        congestion,
    ) {
        Err(e) => {
            return Err(e);
        },
        Ok(()) => {},
    }
    match push_child_ops(
        &mut update,
        ev,
        RetainMode::Right,
        ev.right_child_shard,
        parent_entries,
        &right_entries,
        right_root,
        right_witness,
        &parent_extra,
        &block.hash,
        next_shard_ids,
        congestion,
    ) {
        Err(e) => {
            return Err(e);
        },
        Ok(()) => {},
    }
    assert(update@ =~= start + plan->Ok_0);
    Ok((update, left_entries, right_entries))
}

/// What a split attempt leaves behind. When the plan fails nothing is written
/// and no loaded state changes. When it holds, the caller's batch and the
/// planned writes become durable together, both children are loaded with
/// their retained state, and the flat-storage hand-off decides the result.
pub open spec fn split_done(
    before: ReshardingManager,
    after: ReshardingManager,
    update: Seq<StoreOpView>,
    block_hash: Seq<u8>,
    ev: SplitShardEventView,
    next_layout: ShardLayoutView,
    congestion: CongestionInputs,
    tries_before: Seq<crate::tries::MemTrieView>,
    tries_after: Seq<crate::tries::MemTrieView>,
    r: Result<(), ReshardingError>,
) -> bool {
    match split_plan(
        before.store@,
        tries_before,
        block_hash,
        ev,
        next_layout.2,
        congestion.receipt_groups@,
        congestion.right_child_bootstrapped,
    ) {
        Err(e) => {
            &&& r == Err::<(), ReshardingError>(e)
            &&& after.store@ == before.store@
            &&& after.flat_storage_resharder.status@ == before.flat_storage_resharder.status@
            &&& forall|u: ShardUId| loaded_state(tries_after, u) == loaded_state(tries_before, u)
        },
        Ok(ops) => {
            let parent_state = loaded_state(tries_before, ev.parent_shard)->Some_0;
            &&& after.store@ == before.store@ + update + ops
            &&& loaded_state(tries_after, ev.left_child_shard) == Some(
                retain(parent_state, ev.boundary_account, RetainMode::Left),
            )
            &&& loaded_state(tries_after, ev.right_child_shard) == Some(
                retain(parent_state, ev.boundary_account, RetainMode::Right),
            )
            &&& forall|u: ShardUId|
                u != ev.left_child_shard && u != ev.right_child_shard ==> loaded_state(
                    tries_after,
                    u,
                ) == loaded_state(tries_before, u)
            &&& match handoff(before.flat_storage_resharder.status@, ev, next_layout) {
                Ok(next) => r is Ok && after.flat_storage_resharder.status@ == next,
                Err(e) => r == Err::<(), ReshardingError>(e) && after.flat_storage_resharder.status@ == before.flat_storage_resharder.status@,
            }
        },
    }
}

/// Whether `op` writes the chunk extra of `shard_uid` at `block_hash`.
pub open spec fn writes_chunk_extra(op: StoreOpView, block_hash: Seq<u8>, shard_uid: ShardUId) -> bool {
    match op {
        StoreOpView::SaveChunkExtra { block_hash: b, shard_uid: u, .. } => b == block_hash && u
            == shard_uid,
        _ => false,
    }
}

/// Whether `op` is a trie node whose key does not start with `prefix`.
pub open spec fn node_outside_prefix(op: StoreOpView, prefix: Seq<u8>) -> bool {
    match op {
        StoreOpView::InsertStateNode { key, .. } => !(key.len() >= 8 && key.subrange(0, 8)
            == prefix),
        _ => false,
    }
}

proof fn lemma_child_ops_shape(
    ev: SplitShardEventView,
    mode: RetainMode,
    child: ShardUId,
    parent_state: Seq<EntryView>,
    parent_extra: ChunkExtraView,
    block_hash: Seq<u8>,
    next_shard_ids: Seq<u64>,
    groups: Seq<Option<ReceiptGroupTotals>>,
    bootstrapped: CongestionInfo,
)
    requires
        child_ops(
            ev,
            mode,
            child,
            parent_state,
            parent_extra,
            block_hash,
            next_shard_ids,
            groups,
            bootstrapped,
        ) is Ok,
    ensures
        ({
            let ops = child_ops(
                ev,
                mode,
                child,
                parent_state,
                parent_extra,
                block_hash,
                next_shard_ids,
                groups,
                bootstrapped,
            )->Ok_0;
            forall|i: int|
                0 <= i < ops.len() ==> {
                    &&& (writes_chunk_extra(#[trigger] ops[i], block_hash, ev.parent_shard)
                        ==> child == ev.parent_shard)
                    &&& !node_outside_prefix(ops[i], shard_uid_bytes(ev.parent_shard))
                }
        }),
{
    let kept = retain(parent_state, ev.boundary_account, mode);
    let ops = child_ops(
        ev,
        mode,
        child,
        parent_state,
        parent_extra,
        block_hash,
        next_shard_ids,
        groups,
        bootstrapped,
    )->Ok_0;
    let prefix = shard_uid_bytes(ev.parent_shard);
    if kept.len() > 0 {
        let key = prefix + state_root(kept);
        assert(key.subrange(0, 8) =~= prefix);
    }
}

/// Every write that a split makes to the state column is keyed under the
/// parent's 8-byte shard prefix, never under a child's.
pub proof fn lemma_nodes_under_parent_prefix(
    ev: SplitShardEventView,
    parent_state: Seq<EntryView>,
    parent_extra: ChunkExtraView,
    block_hash: Seq<u8>,
    next_shard_ids: Seq<u64>,
    groups: Seq<Option<ReceiptGroupTotals>>,
    bootstrapped: CongestionInfo,
)
    requires
        split_ops(
            ev,
            parent_state,
            parent_extra,
            block_hash,
            next_shard_ids,
            groups,
            bootstrapped,
        ) is Ok,
        ev.left_child_shard != ev.parent_shard,
        ev.right_child_shard != ev.parent_shard,
    ensures
        ({
            let ops = split_ops(
                ev,
                parent_state,
                parent_extra,
                block_hash,
                next_shard_ids,
                groups,
                bootstrapped,
            )->Ok_0;
            forall|i: int|
                0 <= i < ops.len() && op_column(#[trigger] ops[i]) == DBCol::State ==> {
                    &&& op_key(ops[i]).len() >= 8
                    &&& op_key(ops[i]).subrange(0, 8) == shard_uid_bytes(ev.parent_shard)
                    &&& op_key(ops[i]).subrange(0, 8) != shard_uid_bytes(ev.left_child_shard)
                    &&& op_key(ops[i]).subrange(0, 8) != shard_uid_bytes(ev.right_child_shard)
                }
        }),
{
    lemma_split_ops_shape(
        ev,
        parent_state,
        parent_extra,
        block_hash,
        next_shard_ids,
        groups,
        bootstrapped,
    );
    let ops = split_ops(
        ev,
        parent_state,
        parent_extra,
        block_hash,
        next_shard_ids,
        groups,
        bootstrapped,
    )->Ok_0;
    assert forall|i: int| 0 <= i < ops.len() && op_column(#[trigger] ops[i]) == DBCol::State implies {
        &&& op_key(ops[i]).len() >= 8
        &&& op_key(ops[i]).subrange(0, 8) == shard_uid_bytes(ev.parent_shard)
        &&& op_key(ops[i]).subrange(0, 8) != shard_uid_bytes(ev.left_child_shard)
        &&& op_key(ops[i]).subrange(0, 8) != shard_uid_bytes(ev.right_child_shard)
    } by {
        assert(!node_outside_prefix(ops[i], shard_uid_bytes(ev.parent_shard)));
        if shard_uid_bytes(ev.left_child_shard) == shard_uid_bytes(ev.parent_shard) {
            lemma_shard_uid_bytes_injective(ev.left_child_shard, ev.parent_shard);
        }
        if shard_uid_bytes(ev.right_child_shard) == shard_uid_bytes(ev.parent_shard) {
            lemma_shard_uid_bytes_injective(ev.right_child_shard, ev.parent_shard);
        }
    }
}

proof fn lemma_split_ops_shape(
    ev: SplitShardEventView,
    parent_state: Seq<EntryView>,
    parent_extra: ChunkExtraView,
    block_hash: Seq<u8>,
    next_shard_ids: Seq<u64>,
    groups: Seq<Option<ReceiptGroupTotals>>,
    bootstrapped: CongestionInfo,
)
    requires
        split_ops(
            ev,
            parent_state,
            parent_extra,
            block_hash,
            next_shard_ids,
            groups,
            bootstrapped,
        ) is Ok,
    ensures
        ({
            let ops = split_ops(
                ev,
                parent_state,
                parent_extra,
                block_hash,
                next_shard_ids,
                groups,
                bootstrapped,
            )->Ok_0;
            forall|i: int|
                0 <= i < ops.len() ==> {
                    &&& (writes_chunk_extra(#[trigger] ops[i], block_hash, ev.parent_shard)
                        ==> (ev.left_child_shard == ev.parent_shard || ev.right_child_shard
                        == ev.parent_shard))
                    &&& !node_outside_prefix(ops[i], shard_uid_bytes(ev.parent_shard))
                }
        }),
{
    let m = shard_uid_mappings(ev);
    lemma_child_ops_shape(
        ev,
        RetainMode::Left,
        ev.left_child_shard,
        parent_state,
        parent_extra,
        block_hash,
        next_shard_ids,
        groups,
        bootstrapped,
    );
    lemma_child_ops_shape(
        ev,
        RetainMode::Right,
        ev.right_child_shard,
        parent_state,
        parent_extra,
        block_hash,
        next_shard_ids,
        groups,
        bootstrapped,
    );
    let l = child_ops(
        ev,
        RetainMode::Left,
        ev.left_child_shard,
        parent_state,
        parent_extra,
        block_hash,
        next_shard_ids,
        groups,
        bootstrapped,
    )->Ok_0;
    let r = child_ops(
        ev,
        RetainMode::Right,
        ev.right_child_shard,
        parent_state,
        parent_extra,
        block_hash,
        next_shard_ids,
        groups,
        bootstrapped,
    )->Ok_0;
    let ops = m + l + r;
    assert forall|i: int| 0 <= i < ops.len() implies {
        &&& (writes_chunk_extra(#[trigger] ops[i], block_hash, ev.parent_shard) ==> (
        ev.left_child_shard == ev.parent_shard || ev.right_child_shard == ev.parent_shard))
        &&& !node_outside_prefix(ops[i], shard_uid_bytes(ev.parent_shard))
    } by {
        if i < 2 {
            assert(ops[i] == m[i]);
        } else if i < 2 + l.len() {
            assert(ops[i] == l[i - 2]);
        } else {
            assert(ops[i] == r[i - 2 - l.len()]);
        }
    }
}

proof fn lemma_latest_unaffected(store: Seq<StoreOpView>, extra: Seq<StoreOpView>, block_hash: Seq<u8>, uid: ShardUId)
    requires
        forall|i: int| 0 <= i < extra.len() ==> !writes_chunk_extra(#[trigger] extra[i], block_hash, uid),
    ensures
        latest_chunk_extra(store + extra, block_hash, uid) == latest_chunk_extra(store, block_hash, uid),
    decreases extra.len(),
{
    if extra.len() > 0 {
        let d = extra.drop_last();
        assert((store + extra).drop_last() =~= store + d);
        assert((store + extra).last() == extra.last());
        assert(!writes_chunk_extra(extra[extra.len() - 1], block_hash, uid));
        lemma_latest_unaffected(store, d, block_hash, uid);
    } else {
        assert(store + extra =~= store);
    }
}

/// Retrying a split after it was committed plans byte-for-byte the same
/// writes: the split reads only the parent's loaded state and the parent's
/// chunk extra, and writes neither.
pub proof fn lemma_retry_same_batch(
    store: Seq<StoreOpView>,
    update: Seq<StoreOpView>,
    tries_before: Seq<crate::tries::MemTrieView>,
    tries_after: Seq<crate::tries::MemTrieView>,
    block_hash: Seq<u8>,
    ev: SplitShardEventView,
    next_shard_ids: Seq<u64>,
    groups: Seq<Option<ReceiptGroupTotals>>,
    bootstrapped: CongestionInfo,
)
    requires
        split_plan(store, tries_before, block_hash, ev, next_shard_ids, groups, bootstrapped) is Ok,
        ev.left_child_shard != ev.parent_shard,
        ev.right_child_shard != ev.parent_shard,
        loaded_state(tries_after, ev.parent_shard) == loaded_state(tries_before, ev.parent_shard),
        forall|i: int|
            0 <= i < update.len() ==> !writes_chunk_extra(
                #[trigger] update[i],
                block_hash,
                ev.parent_shard,
            ),
    ensures
        split_plan(
            store + update + split_plan(
                store,
                tries_before,
                block_hash,
                ev,
                next_shard_ids,
                groups,
                bootstrapped,
            )->Ok_0,
            tries_after,
            block_hash,
            ev,
            next_shard_ids,
            groups,
            bootstrapped,
        ) == split_plan(store, tries_before, block_hash, ev, next_shard_ids, groups, bootstrapped),
{
    let s = loaded_state(tries_before, ev.parent_shard)->Some_0;
    let x = latest_chunk_extra(store, block_hash, ev.parent_shard)->Some_0;
    let ops = split_plan(store, tries_before, block_hash, ev, next_shard_ids, groups, bootstrapped)->Ok_0;
    lemma_split_ops_shape(ev, s, x, block_hash, next_shard_ids, groups, bootstrapped);
    let extra = update + ops;
    assert forall|i: int| 0 <= i < extra.len() implies !writes_chunk_extra(
        #[trigger] extra[i],
        block_hash,
        ev.parent_shard,
    ) by {
        if i < update.len() {
            assert(extra[i] == update[i]);
        } else {
            assert(extra[i] == ops[i - update.len()]);
        }
    }
    assert(store + update + ops =~= store + extra);
    lemma_latest_unaffected(store, extra, block_hash, ev.parent_shard);
}

/// A planned split works on the committed parent state: the loaded parent
/// state hashes to the root in the parent's chunk extra; every parent entry
/// lands, unchanged, in exactly one child, the left one holding exactly the
/// accounts below the boundary and the right one the rest; each child's saved
/// chunk extra carries the root of the parent entries on its side, each saved
/// witness replays from the committed root to that child root, and when every
/// account is at or above the boundary the left root is the empty root and
/// the right root is the committed root.
pub proof fn lemma_split_at_committed_root(
    store: Seq<StoreOpView>,
    tries: Seq<crate::tries::MemTrieView>,
    block_hash: Seq<u8>,
    ev: SplitShardEventView,
    next_shard_ids: Seq<u64>,
    groups: Seq<Option<ReceiptGroupTotals>>,
    bootstrapped: CongestionInfo,
)
    requires
        split_plan(store, tries, block_hash, ev, next_shard_ids, groups, bootstrapped) is Ok,
    ensures
        ({
            let s = loaded_state(tries, ev.parent_shard)->Some_0;
            let committed = latest_chunk_extra(store, block_hash, ev.parent_shard)->Some_0.state_root;
            let ops = split_plan(
                store,
                tries,
                block_hash,
                ev,
                next_shard_ids,
                groups,
                bootstrapped,
            )->Ok_0;
            let b = ev.boundary_account;
            let left = retain(s, b, RetainMode::Left);
            let right = retain(s, b, RetainMode::Right);
            let nl = node_ops(ev.parent_shard, left).len() as int;
            &&& state_root(s) == committed
            &&& forall|e: EntryView|
                #![trigger left.contains(e)]
                #![trigger right.contains(e)]
                #![trigger s.contains(e)]
                {
                    &&& s.contains(e) <==> (left.contains(e) || right.contains(e))
                    &&& !(left.contains(e) && right.contains(e))
                    &&& left.contains(e) <==> (s.contains(e) && bytes_lt(e.0, b))
                    &&& right.contains(e) <==> (s.contains(e) && !bytes_lt(e.0, b))
                }
            &&& left.len() + right.len() == s.len()
            &&& ops[2] is SaveChunkExtra && ops[2]->SaveChunkExtra_shard_uid == ev.left_child_shard
                && ops[2]->SaveChunkExtra_chunk_extra.state_root == state_root(left)
            &&& ops[3] is SaveStateTransitionData && ops[3]->SaveStateTransitionData_partial_state
                == witness_of(s, b, RetainMode::Left)
            &&& ops[4 + nl] is SaveChunkExtra && ops[4 + nl]->SaveChunkExtra_shard_uid
                == ev.right_child_shard && ops[4 + nl]->SaveChunkExtra_chunk_extra.state_root
                == state_root(right)
            &&& ops[5 + nl] is SaveStateTransitionData
                && ops[5 + nl]->SaveStateTransitionData_partial_state == witness_of(
                s,
                b,
                RetainMode::Right,
            )
            &&& replay_root(committed, witness_of(s, b, RetainMode::Left)) == Some(state_root(left))
            &&& replay_root(committed, witness_of(s, b, RetainMode::Right)) == Some(
                state_root(right),
            )
            &&& (forall|i: int| 0 <= i < s.len() ==> !bytes_lt(#[trigger] s[i].0, b)) ==> (
            state_root(left) == zero_hash() && state_root(right) == committed)
        }),
{
    let s = loaded_state(tries, ev.parent_shard)->Some_0;
    let x = latest_chunk_extra(store, block_hash, ev.parent_shard)->Some_0;
    let b = ev.boundary_account;
    lemma_witness_replays(s, b, RetainMode::Left);
    lemma_witness_replays(s, b, RetainMode::Right);
    crate::trie::lemma_retain_len(s, b);
    assert forall|e: EntryView| {
        &&& s.contains(e) <==> (retain(s, b, RetainMode::Left).contains(e) || retain(
            s,
            b,
            RetainMode::Right,
        ).contains(e))
        &&& !(retain(s, b, RetainMode::Left).contains(e) && retain(
            s,
            b,
            RetainMode::Right,
        ).contains(e))
        &&& retain(s, b, RetainMode::Left).contains(e) <==> (s.contains(e) && bytes_lt(e.0, b))
        &&& retain(s, b, RetainMode::Right).contains(e) <==> (s.contains(e) && !bytes_lt(e.0, b))
    } by {
        crate::split::lemma_split_totality(s, b, e);
        crate::split::lemma_split_boundary(s, b, e);
    }
    let l = child_ops(
        ev,
        RetainMode::Left,
        ev.left_child_shard,
        s,
        x,
        block_hash,
        next_shard_ids,
        groups,
        bootstrapped,
    )->Ok_0;
    let r = child_ops(
        ev,
        RetainMode::Right,
        ev.right_child_shard,
        s,
        x,
        block_hash,
        next_shard_ids,
        groups,
        bootstrapped,
    )->Ok_0;
    let ops = shard_uid_mappings(ev) + l + r;
    let nl = node_ops(ev.parent_shard, retain(s, b, RetainMode::Left)).len() as int;
    assert(l.len() == 2 + nl);
    assert(ops[2] == l[0]);
    assert(ops[3] == l[1]);
    assert(ops[4 + nl] == r[0]);
    assert(ops[5 + nl] == r[1]);
    if forall|i: int| 0 <= i < s.len() ==> !bytes_lt(#[trigger] s[i].0, b) {
        lemma_retain_one_side(s, b);
        assert(leaf_hashes(retain(s, b, RetainMode::Left)).len() == 0);
    }
}

} // verus!
