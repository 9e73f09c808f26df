use resharding::chunk_extra::{get_child_chunk_extra, get_shard_index, ChunkExtra};
use resharding::congestion::{get_child_congestion_info, CongestionInfo, ReceiptGroupTotals};
use resharding::error::ReshardingError;
use resharding::hash::CryptoHash;
use resharding::shard_uid::ShardUId;
use resharding::trie::RetainMode;

fn parent() -> CongestionInfo {
    CongestionInfo { delayed_receipts_gas: 0, buffered_receipts_gas: 1000, receipt_bytes: 200, allowed_shard: 3 }
}

fn drained() -> CongestionInfo {
    CongestionInfo { delayed_receipts_gas: 0, buffered_receipts_gas: 0, receipt_bytes: 0, allowed_shard: 7 }
}

fn groups() -> Vec<Option<ReceiptGroupTotals>> {
    vec![
        Some(ReceiptGroupTotals { total_size: 150, total_gas: 600 }),
        None,
        Some(ReceiptGroupTotals { total_size: 50, total_gas: 400 }),
    ]
}

#[test]
fn left_child_keeps_parent_congestion() {
    let r = get_child_congestion_info(&parent(), RetainMode::Left, &groups(), &drained());
    assert_eq!(r, Ok(parent()));
}

#[test]
fn right_child_drains_all_buffered_gas() {
    let r = get_child_congestion_info(&parent(), RetainMode::Right, &groups(), &drained());
    let info = r.expect("queues account for all buffered gas");
    assert_eq!(info.buffered_receipts_gas, 0);
    assert_eq!(info.receipt_bytes, 0);
    assert_eq!(info, drained());
}

#[test]
fn right_child_with_leftover_gas_is_a_mismatch() {
    let short = vec![Some(ReceiptGroupTotals { total_size: 200, total_gas: 999 })];
    let r = get_child_congestion_info(&parent(), RetainMode::Right, &short, &drained());
    assert_eq!(r, Err(ReshardingError::CongestionMismatch));
}

#[test]
fn right_child_with_too_much_queued_gas_is_a_mismatch() {
    let over = vec![
        Some(ReceiptGroupTotals { total_size: 10, total_gas: 900 }),
        Some(ReceiptGroupTotals { total_size: 10, total_gas: 900 }),
    ];
    let r = get_child_congestion_info(&parent(), RetainMode::Right, &over, &drained());
    assert_eq!(r, Err(ReshardingError::CongestionMismatch));
}

#[test]
fn right_child_disagreeing_with_bootstrap_is_a_mismatch() {
    let boot = CongestionInfo { delayed_receipts_gas: 1, ..drained() };
    let r = get_child_congestion_info(&parent(), RetainMode::Right, &groups(), &boot);
    assert_eq!(r, Err(ReshardingError::CongestionMismatch));
}

#[test]
fn allowed_shard_rotates_by_seed() {
    let mut info = parent();
    info.finalize_allowed_shard(5, &vec![3, 4, 7], 4);
    assert_eq!(info.allowed_shard, 4);
    assert_eq!(info.buffered_receipts_gas, 1000);
    info.finalize_allowed_shard(5, &vec![3, 4, 7], 2);
    assert_eq!(info.allowed_shard, 7);
    info.finalize_allowed_shard(70000, &vec![], 2);
    assert_eq!(info.allowed_shard, 4464);
}

#[test]
fn shard_index_is_first_position() {
    assert_eq!(get_shard_index(&vec![4, 5, 6, 5], 5), Some(1));
    assert_eq!(get_shard_index(&vec![4, 5, 6], 9), None);
    assert_eq!(get_shard_index(&vec![], 1), None);
}

fn extra(ci: Option<CongestionInfo>) -> ChunkExtra {
    ChunkExtra {
        state_root: CryptoHash([1u8; 32]),
        outcome_root: CryptoHash([2u8; 32]),
        validator_proposals: vec![8, 9],
        gas_used: 10,
        gas_limit: 20,
        balance_burnt: 30,
        congestion_info: ci,
    }
}

#[test]
fn child_chunk_extra_replaces_root_and_congestion_only() {
    let child = ShardUId { version: 2, shard_id: 6 };
    let r = get_child_chunk_extra(
        &extra(Some(parent())),
        CryptoHash([5u8; 32]),
        child,
        RetainMode::Right,
        &groups(),
        &drained(),
        &vec![4, 6],
    )
    .expect("consistent inputs");
    assert_eq!(r.state_root.0, [5u8; 32]);
    assert_eq!(r.outcome_root.0, [2u8; 32]);
    assert_eq!(r.validator_proposals, vec![8, 9]);
    assert_eq!((r.gas_used, r.gas_limit, r.balance_burnt), (10, 20, 30));
    assert_eq!(r.congestion_info, Some(CongestionInfo { allowed_shard: 6, ..drained() }));
}

#[test]
fn child_chunk_extra_without_congestion_info() {
    let child = ShardUId { version: 2, shard_id: 6 };
    let r = get_child_chunk_extra(&extra(None), CryptoHash([5u8; 32]), child, RetainMode::Left, &groups(), &drained(), &vec![])
        .expect("no congestion to recompute");
    assert_eq!(r.state_root.0, [5u8; 32]);
    assert_eq!(r.congestion_info, None);
}

#[test]
fn child_chunk_extra_needs_child_in_next_layout() {
    let child = ShardUId { version: 2, shard_id: 6 };
    let r = get_child_chunk_extra(&extra(Some(parent())), CryptoHash([5u8; 32]), child, RetainMode::Left, &groups(), &drained(), &vec![1, 2]);
    assert!(matches!(r, Err(ReshardingError::ShardNotInLayout)));
}
