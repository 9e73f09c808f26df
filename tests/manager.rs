use resharding::chunk_extra::ChunkExtra;
use resharding::congestion::{CongestionInfo, ReceiptGroupTotals};
use resharding::error::ReshardingError;
use resharding::flat_storage::FlatStorageStatus;
use resharding::hash::CryptoHash;
use resharding::layout::{ShardLayout, SplitShardEvent};
use resharding::manager::{check_gate, BlockInfo, CongestionInputs, EpochView, GateDecision, ReshardingManager};
use resharding::root::compute_state_root;
use resharding::shard_uid::ShardUId;
use resharding::store::{DBCol, Store, StoreOp, StoreUpdate};
use resharding::trie::TrieEntry;
use resharding::tries::ShardTries;

const PARENT: ShardUId = ShardUId { version: 1, shard_id: 0 };
const LEFT: ShardUId = ShardUId { version: 2, shard_id: 1 };
const RIGHT: ShardUId = ShardUId { version: 2, shard_id: 2 };

fn block() -> BlockInfo {
    BlockInfo { hash: CryptoHash([9u8; 32]), height: 100 }
}

fn entry(account: &str, value: u8) -> TrieEntry {
    TrieEntry::new(account.as_bytes().to_vec(), vec![], vec![value])
}

fn parent_entries() -> Vec<TrieEntry> {
    vec![entry("a", 1), entry("m", 2), entry("z", 3)]
}

fn layout(version: u32, is_v2: bool, ids: Vec<u64>, boundaries: Vec<&str>) -> ShardLayout {
    ShardLayout {
        version,
        is_v2,
        shard_ids: ids,
        boundary_accounts: boundaries.iter().map(|b| b.as_bytes().to_vec()).collect(),
    }
}

fn event() -> SplitShardEvent {
    SplitShardEvent {
        parent_shard: PARENT,
        left_child_shard: LEFT,
        right_child_shard: RIGHT,
        boundary_account: b"m".to_vec(),
        resharding_block_hash: block().hash,
    }
}

fn epoch() -> EpochView {
    EpochView {
        is_next_block_epoch_start: true,
        shard_layout: layout(1, true, vec![0], vec![]),
        next_shard_layout: layout(2, true, vec![1, 2], vec!["m"]),
        split_event: Some(event()),
    }
}

fn parent_congestion() -> CongestionInfo {
    CongestionInfo {
        delayed_receipts_gas: 5,
        buffered_receipts_gas: 1000,
        receipt_bytes: 200,
        allowed_shard: 0,
    }
}

fn parent_extra() -> ChunkExtra {
    ChunkExtra {
        state_root: compute_state_root(&parent_entries()),
        outcome_root: CryptoHash([4u8; 32]),
        validator_proposals: vec![1, 2, 3],
        gas_used: 77,
        gas_limit: 1_000_000,
        balance_burnt: 12,
        congestion_info: Some(parent_congestion()),
    }
}

fn congestion_inputs() -> CongestionInputs {
    CongestionInputs {
        receipt_groups: vec![Some(ReceiptGroupTotals { total_size: 200, total_gas: 1000 })],
        right_child_bootstrapped: CongestionInfo {
            delayed_receipts_gas: 5,
            buffered_receipts_gas: 0,
            receipt_bytes: 0,
            allowed_shard: 9,
        },
    }
}

fn store_with_parent_extra() -> Store {
    let mut store = Store::new();
    let mut update = StoreUpdate::new();
    update.push(StoreOp::SaveChunkExtra {
        block_hash: block().hash,
        shard_uid: PARENT,
        chunk_extra: parent_extra(),
    });
    store.commit(update);
    store
}

fn tries_with_parent() -> ShardTries {
    let mut tries = ShardTries::new();
    tries.load_mem_trie(PARENT, parent_entries());
    tries
}

fn accounts(tries: &ShardTries, uid: ShardUId) -> Vec<String> {
    tries
        .get_mem_trie(uid)
        .expect("loaded")
        .iter()
        .map(|e| String::from_utf8(e.account.clone()).unwrap())
        .collect()
}

fn dump(ops: &[StoreOp]) -> Vec<String> {
    ops.iter().map(|o| format!("{:?}", o)).collect()
}

#[test]
fn split_commits_mappings_chunk_extras_witnesses_and_nodes() {
    let mut manager = ReshardingManager::new(store_with_parent_extra());
    let mut tries = tries_with_parent();
    let r = manager.start_resharding(
        StoreUpdate::new(),
        &block(),
        &epoch(),
        PARENT,
        &mut tries,
        &congestion_inputs(),
    );
    assert_eq!(r, Ok(()));
    let ops = &manager.store.ops;
    assert_eq!(ops.len(), 9);
    assert!(matches!(ops[1], StoreOp::SetShardUIdMapping { child: LEFT, parent: PARENT }));
    assert!(matches!(ops[2], StoreOp::SetShardUIdMapping { child: RIGHT, parent: PARENT }));
    match &ops[3] {
        StoreOp::SaveChunkExtra { shard_uid, chunk_extra, .. } => {
            assert_eq!(*shard_uid, LEFT);
            assert_eq!(chunk_extra.gas_used, 77);
            assert_eq!(chunk_extra.validator_proposals, vec![1, 2, 3]);
            // Left keeps the parent's counters; allowed shard rotates to index 0 of [1, 2].
            assert_eq!(
                chunk_extra.congestion_info,
                Some(CongestionInfo { allowed_shard: 1, ..parent_congestion() })
            );
            assert_eq!(chunk_extra.state_root.0, compute_state_root(&vec![entry("a", 1)]).0);
        }
        other => panic!("unexpected op {:?}", other),
    }
    match &ops[4] {
        StoreOp::SaveStateTransitionData { shard_id, partial_state, .. } => {
            assert_eq!(*shard_id, 1);
            assert_eq!(partial_state.len(), 3);
        }
        other => panic!("unexpected op {:?}", other),
    }
    match &ops[5] {
        StoreOp::InsertStateNode { key, .. } => {
            assert_eq!(key.len(), 40);
            assert_eq!(key[..8], PARENT.to_bytes()[..]);
        }
        other => panic!("unexpected op {:?}", other),
    }
    match &ops[6] {
        StoreOp::SaveChunkExtra { shard_uid, chunk_extra, .. } => {
            assert_eq!(*shard_uid, RIGHT);
            assert_eq!(
                chunk_extra.congestion_info,
                Some(CongestionInfo {
                    delayed_receipts_gas: 5,
                    buffered_receipts_gas: 0,
                    receipt_bytes: 0,
                    allowed_shard: 2,
                })
            );
        }
        other => panic!("unexpected op {:?}", other),
    }
    match &ops[8] {
        StoreOp::InsertStateNode { key, .. } => assert_eq!(key[..8], PARENT.to_bytes()[..]),
        other => panic!("unexpected op {:?}", other),
    }
    assert_eq!(accounts(&tries, LEFT), vec!["a"]);
    assert_eq!(accounts(&tries, RIGHT), vec!["m", "z"]);
    assert_eq!(accounts(&tries, PARENT), vec!["a", "m", "z"]);
    assert!(tries.mem_tries[0].frozen);
    match &manager.flat_storage_resharder.status {
        FlatStorageStatus::InProgress(ev, layout) => {
            assert_eq!(ev.boundary_account, b"m".to_vec());
            assert_eq!(layout.version, 2);
            assert_eq!(layout.shard_ids, vec![1, 2]);
        }
        other => panic!("unexpected status {:?}", other),
    }
}

#[test]
fn second_run_writes_the_same_bytes() {
    let mut manager = ReshardingManager::new(store_with_parent_extra());
    let mut tries = tries_with_parent();
    let first = manager.start_resharding(StoreUpdate::new(), &block(), &epoch(), PARENT, &mut tries, &congestion_inputs());
    assert_eq!(first, Ok(()));
    let after_first = manager.store.ops.len();
    let second = manager.start_resharding(StoreUpdate::new(), &block(), &epoch(), PARENT, &mut tries, &congestion_inputs());
    assert_eq!(second, Ok(()));
    let ops = &manager.store.ops;
    assert_eq!(ops.len(), after_first + 8);
    assert_eq!(dump(&ops[1..after_first]), dump(&ops[after_first..]));
}

#[test]
fn missing_memtrie_fails_without_writes() {
    let mut manager = ReshardingManager::new(store_with_parent_extra());
    let mut tries = ShardTries::new();
    let mut update = StoreUpdate::new();
    update.push(StoreOp::SetShardUIdMapping { child: LEFT, parent: PARENT });
    let r = manager.start_resharding(update, &block(), &epoch(), PARENT, &mut tries, &congestion_inputs());
    assert_eq!(r, Err(ReshardingError::MemtrieNotLoaded));
    assert_eq!(manager.store.ops.len(), 1);
    assert!(tries.mem_tries.is_empty());
    assert!(matches!(manager.flat_storage_resharder.status, FlatStorageStatus::Idle));
}

#[test]
fn same_layout_skips_without_writes() {
    let mut manager = ReshardingManager::new(store_with_parent_extra());
    let mut tries = tries_with_parent();
    let mut e = epoch();
    e.next_shard_layout = layout(1, true, vec![0], vec![]);
    assert_eq!(check_gate(&e, PARENT), GateDecision::SameLayout);
    let mut update = StoreUpdate::new();
    update.push(StoreOp::SetShardUIdMapping { child: LEFT, parent: PARENT });
    let r = manager.start_resharding(update, &block(), &e, PARENT, &mut tries, &congestion_inputs());
    assert_eq!(r, Ok(()));
    assert_eq!(manager.store.ops.len(), 1);
    assert_eq!(tries.mem_tries.len(), 1);
    assert!(!tries.mem_tries[0].frozen);
}

#[test]
fn gate_outcomes() {
    let mut e = epoch();
    assert_eq!(check_gate(&e, PARENT), GateDecision::Split);
    assert_eq!(check_gate(&e, LEFT), GateDecision::OtherParent);
    e.is_next_block_epoch_start = false;
    assert_eq!(check_gate(&e, PARENT), GateDecision::SameLayout);
    let mut e = epoch();
    e.next_shard_layout.is_v2 = false;
    assert_eq!(check_gate(&e, PARENT), GateDecision::NotSplitLayout);
    let mut e = epoch();
    e.split_event = None;
    assert_eq!(check_gate(&e, PARENT), GateDecision::NoSplitEvent);
    let mut e = epoch();
    e.next_shard_layout = layout(1, true, vec![0], vec!["n"]);
    assert_eq!(check_gate(&e, PARENT), GateDecision::Split);
}

#[test]
fn failure_before_commit_leaves_nothing_and_retry_matches_clean_run() {
    let mut manager = ReshardingManager::new(store_with_parent_extra());
    let mut tries = tries_with_parent();
    let mut bad = congestion_inputs();
    bad.right_child_bootstrapped.receipt_bytes = 1;
    let r = manager.start_resharding(StoreUpdate::new(), &block(), &epoch(), PARENT, &mut tries, &bad);
    assert_eq!(r, Err(ReshardingError::CongestionMismatch));
    assert_eq!(manager.store.ops.len(), 1);
    assert!(tries.get_mem_trie(LEFT).is_none());
    assert!(tries.get_mem_trie(RIGHT).is_none());
    assert!(matches!(manager.flat_storage_resharder.status, FlatStorageStatus::Idle));

    let retry = manager.start_resharding(StoreUpdate::new(), &block(), &epoch(), PARENT, &mut tries, &congestion_inputs());
    assert_eq!(retry, Ok(()));

    let mut clean = ReshardingManager::new(store_with_parent_extra());
    let mut clean_tries = tries_with_parent();
    let fresh = clean.start_resharding(StoreUpdate::new(), &block(), &epoch(), PARENT, &mut clean_tries, &congestion_inputs());
    assert_eq!(fresh, Ok(()));
    assert_eq!(dump(&manager.store.ops), dump(&clean.store.ops));
}

#[test]
fn missing_parent_chunk_extra_fails() {
    let mut manager = ReshardingManager::new(Store::new());
    let mut tries = tries_with_parent();
    let r = manager.start_resharding(StoreUpdate::new(), &block(), &epoch(), PARENT, &mut tries, &congestion_inputs());
    assert_eq!(r, Err(ReshardingError::ChunkExtraNotFound));
    assert!(manager.store.ops.is_empty());
}

#[test]
fn child_missing_from_next_layout_fails() {
    let mut manager = ReshardingManager::new(store_with_parent_extra());
    let mut tries = tries_with_parent();
    let mut e = epoch();
    e.next_shard_layout.shard_ids = vec![2, 3];
    let r = manager.start_resharding(StoreUpdate::new(), &block(), &e, PARENT, &mut tries, &congestion_inputs());
    assert_eq!(r, Err(ReshardingError::ShardNotInLayout));
    assert_eq!(manager.store.ops.len(), 1);
}

#[test]
fn flat_storage_refuses_a_second_split_after_commit() {
    let mut manager = ReshardingManager::new(store_with_parent_extra());
    let mut other = event();
    other.boundary_account = b"q".to_vec();
    manager.flat_storage_resharder.status = FlatStorageStatus::InProgress(other, layout(2, true, vec![1, 2], vec!["q"]));
    let mut tries = tries_with_parent();
    let r = manager.start_resharding(StoreUpdate::new(), &block(), &epoch(), PARENT, &mut tries, &congestion_inputs());
    assert_eq!(r, Err(ReshardingError::FlatStorageStartFailed));
    // The split itself was durable before the hand-off.
    assert_eq!(manager.store.ops.len(), 9);
}

#[test]
fn caller_batch_is_committed_with_the_split() {
    let mut manager = ReshardingManager::new(store_with_parent_extra());
    let mut tries = tries_with_parent();
    let mut update = StoreUpdate::new();
    update.push(StoreOp::InsertStateNode { key: vec![1], value: vec![2] });
    let r = manager.start_resharding(update, &block(), &epoch(), PARENT, &mut tries, &congestion_inputs());
    assert_eq!(r, Ok(()));
    assert_eq!(manager.store.ops.len(), 10);
    assert!(matches!(&manager.store.ops[1], StoreOp::InsertStateNode { key, .. } if key == &vec![1]));
}

#[test]
fn handle_starts_running_and_stops() {
    let mut manager = ReshardingManager::new(Store::new());
    assert!(!manager.resharding_handle.is_cancelled());
    manager.resharding_handle.stop();
    assert!(manager.resharding_handle.is_cancelled());
}

#[test]
fn write_keys_follow_the_storage_layout() {
    let mapping = StoreOp::SetShardUIdMapping { child: LEFT, parent: PARENT };
    assert_eq!(mapping.column(), DBCol::ShardUIdMapping);
    assert_eq!(mapping.key(), vec![2, 0, 0, 0, 1, 0, 0, 0]);
    let extra = StoreOp::SaveChunkExtra { block_hash: block().hash, shard_uid: RIGHT, chunk_extra: parent_extra() };
    assert_eq!(extra.column(), DBCol::ChunkExtra);
    let mut expected = vec![9u8; 32];
    expected.extend_from_slice(&[2, 0, 0, 0, 2, 0, 0, 0]);
    assert_eq!(extra.key(), expected);
    let data = StoreOp::SaveStateTransitionData { block_hash: block().hash, shard_id: 258, partial_state: vec![] };
    assert_eq!(data.column(), DBCol::StateTransitionData);
    let mut expected = vec![9u8; 32];
    expected.extend_from_slice(&[2, 1, 0, 0, 0, 0, 0, 0]);
    assert_eq!(data.key(), expected);
    let node = StoreOp::InsertStateNode { key: vec![5, 6], value: vec![] };
    assert_eq!(node.column(), DBCol::State);
    assert_eq!(node.key(), vec![5, 6]);
}

#[test]
fn state_writes_of_a_split_are_under_the_parent_prefix() {
    let mut manager = ReshardingManager::new(store_with_parent_extra());
    let mut tries = tries_with_parent();
    let r = manager.start_resharding(StoreUpdate::new(), &block(), &epoch(), PARENT, &mut tries, &congestion_inputs());
    assert_eq!(r, Ok(()));
    let state_keys: Vec<Vec<u8>> = manager
        .store
        .ops
        .iter()
        .filter(|o| o.column() == DBCol::State)
        .map(|o| o.key())
        .collect();
    assert_eq!(state_keys.len(), 2);
    for key in state_keys {
        assert_eq!(key[..8], PARENT.to_bytes()[..]);
        assert_ne!(key[..8], LEFT.to_bytes()[..]);
        assert_ne!(key[..8], RIGHT.to_bytes()[..]);
    }
}

#[test]
fn loaded_state_must_match_committed_root() {
    let mut manager = ReshardingManager::new(store_with_parent_extra());
    let mut tries = ShardTries::new();
    tries.load_mem_trie(PARENT, vec![entry("a", 1), entry("m", 2), entry("z", 4)]);
    let r = manager.start_resharding(StoreUpdate::new(), &block(), &epoch(), PARENT, &mut tries, &congestion_inputs());
    assert_eq!(r, Err(ReshardingError::StateRootMismatch));
    assert_eq!(manager.store.ops.len(), 1);
    assert!(tries.get_mem_trie(LEFT).is_none());
}

#[test]
fn boundary_at_first_key_through_the_manager() {
    let parent = vec![entry("m", 1), entry("n", 2), entry("o", 3)];
    let committed = compute_state_root(&parent);
    let mut store = Store::new();
    let mut update = StoreUpdate::new();
    let mut extra = parent_extra();
    extra.state_root = committed;
    extra.congestion_info = None;
    update.push(StoreOp::SaveChunkExtra { block_hash: block().hash, shard_uid: PARENT, chunk_extra: extra });
    store.commit(update);
    let mut manager = ReshardingManager::new(store);
    let mut tries = ShardTries::new();
    tries.load_mem_trie(PARENT, parent);
    let r = manager.start_resharding(StoreUpdate::new(), &block(), &epoch(), PARENT, &mut tries, &congestion_inputs());
    assert_eq!(r, Ok(()));
    let roots: Vec<(ShardUId, [u8; 32])> = manager
        .store
        .ops
        .iter()
        .skip(1)
        .filter_map(|o| match o {
            StoreOp::SaveChunkExtra { shard_uid, chunk_extra, .. } => Some((*shard_uid, chunk_extra.state_root.0)),
            _ => None,
        })
        .collect();
    assert_eq!(roots, vec![(LEFT, [0u8; 32]), (RIGHT, committed.0)]);
    assert!(tries.get_mem_trie(LEFT).unwrap().is_empty());
}

#[test]
fn flat_storage_finishes_unless_cancelled() {
    let mut manager = ReshardingManager::new(store_with_parent_extra());
    let mut tries = tries_with_parent();
    let r = manager.start_resharding(StoreUpdate::new(), &block(), &epoch(), PARENT, &mut tries, &congestion_inputs());
    assert_eq!(r, Ok(()));
    let mut other = event();
    other.boundary_account = b"q".to_vec();
    assert_eq!(manager.finish_flat_storage_resharding(&other), Err(ReshardingError::FlatStorageNotInProgress));
    manager.resharding_handle.stop();
    assert_eq!(manager.finish_flat_storage_resharding(&event()), Err(ReshardingError::FlatStorageCancelled));
    assert!(matches!(manager.flat_storage_resharder.status, FlatStorageStatus::InProgress(..)));
    manager.resharding_handle = resharding::flat_storage::ReshardingHandle::new();
    assert_eq!(manager.finish_flat_storage_resharding(&event()), Ok(()));
    assert!(matches!(manager.flat_storage_resharder.status, FlatStorageStatus::Done(_)));
    // Handing the finished split over again changes nothing; a new split starts.
    let next = layout(3, true, vec![1, 3, 4], vec!["m", "q"]);
    assert_eq!(manager.flat_storage_resharder.start_resharding(&event(), &next), Ok(()));
    assert!(matches!(manager.flat_storage_resharder.status, FlatStorageStatus::Done(_)));
    assert_eq!(manager.flat_storage_resharder.start_resharding(&other, &next), Ok(()));
    assert!(matches!(&manager.flat_storage_resharder.status, FlatStorageStatus::InProgress(e, l) if e.boundary_account == b"q".to_vec() && l.version == 3));
}
