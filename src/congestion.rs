use vstd::prelude::*;
use crate::error::ReshardingError;
use crate::trie::RetainMode;
use near_primitives::congestion_info::{CongestionInfo as NearCongestionInfo, CongestionInfoV1};
use near_primitives::types::ShardId;

verus! {

/// Buffered-receipt accounting of one shard.
#[derive(Clone, Copy, Debug, PartialEq, Eq, Structural)]
pub struct CongestionInfo {
    pub delayed_receipts_gas: u128,
    pub buffered_receipts_gas: u128,
    pub receipt_bytes: u64,
    pub allowed_shard: u16,
}

/// Totals of the buffered outgoing receipts queued for one destination shard.
#[derive(Clone, Copy, Debug, PartialEq, Eq, Structural)]
pub struct ReceiptGroupTotals {
    pub total_size: u64,
    pub total_gas: u128,
}

/// Gas of all queues; a destination with no queue adds nothing.
pub open spec fn sum_gas(groups: Seq<Option<ReceiptGroupTotals>>) -> int
    decreases groups.len(),
{
    if groups.len() == 0 {
        0
    } else {
        sum_gas(groups.drop_last()) + match groups.last() {
            Some(g) => g.total_gas as int,
            None => 0,
        }
    }
}

/// Bytes of all queues; a destination with no queue adds nothing.
pub open spec fn sum_bytes(groups: Seq<Option<ReceiptGroupTotals>>) -> int
    decreases groups.len(),
{
    if groups.len() == 0 {
        0
    } else {
        sum_bytes(groups.drop_last()) + match groups.last() {
            Some(g) => g.total_size as int,
            None => 0,
        }
    }
}

/// The two infos agree on every field but `allowed_shard`.
pub open spec fn same_counters(a: CongestionInfo, b: CongestionInfo) -> bool {
    a.delayed_receipts_gas == b.delayed_receipts_gas && a.buffered_receipts_gas
        == b.buffered_receipts_gas && a.receipt_bytes == b.receipt_bytes
}

/// Congestion info of a child: the left child inherits the parent's; the
/// right child's is the parent's with every queue removed, which must leave no
/// buffered gas and must agree with what was bootstrapped from the child's state.
pub open spec fn child_congestion(
    parent: CongestionInfo,
    mode: RetainMode,
    groups: Seq<Option<ReceiptGroupTotals>>,
    bootstrapped: CongestionInfo,
) -> Result<CongestionInfo, ReshardingError> {
    match mode {
        RetainMode::Left => Ok(parent),
        RetainMode::Right => {
            if sum_gas(groups) == parent.buffered_receipts_gas && sum_bytes(groups)
                <= parent.receipt_bytes && same_counters(
                bootstrapped,
                CongestionInfo {
                    buffered_receipts_gas: 0,
                    receipt_bytes: (parent.receipt_bytes - sum_bytes(groups)) as u64,
                    ..parent
                },
            ) {
                Ok(bootstrapped)
            } else {
                Err(ReshardingError::CongestionMismatch)
            }
        },
    }
}

proof fn lemma_sums_grow(groups: Seq<Option<ReceiptGroupTotals>>, k: int)
    requires
        0 <= k <= groups.len(),
    ensures
        sum_gas(groups.subrange(0, k)) <= sum_gas(groups),
        sum_bytes(groups.subrange(0, k)) <= sum_bytes(groups),
    decreases groups.len() - k,
{
    if k < groups.len() {
        let s = groups.subrange(0, k + 1);
        assert(s.drop_last() =~= groups.subrange(0, k));
        lemma_sums_grow(groups, k + 1);
    } else {
        assert(groups.subrange(0, k) =~= groups);
    }
}

/// Congestion info of a child shard after the split.
pub fn get_child_congestion_info(
    parent: &CongestionInfo,
    mode: RetainMode,
    receipt_groups: &Vec<Option<ReceiptGroupTotals>>,
    bootstrapped: &CongestionInfo,
) -> (r: Result<CongestionInfo, ReshardingError>)
    ensures
        r == child_congestion(*parent, mode, receipt_groups@, *bootstrapped),
{
    if let RetainMode::Left = mode {
        return Ok(*parent);
    }
    let ghost gs = receipt_groups@;
    let mut gas: u128 = parent.buffered_receipts_gas;
    let mut bytes: u64 = parent.receipt_bytes;
    let mut i: usize = 0;
    while i < receipt_groups.len()
        invariant
            gs == receipt_groups@,
            mode == RetainMode::Right,
            i <= gs.len(),
            sum_gas(gs.subrange(0, i as int)) <= parent.buffered_receipts_gas,
            sum_bytes(gs.subrange(0, i as int)) <= parent.receipt_bytes,
            gas == parent.buffered_receipts_gas - sum_gas(gs.subrange(0, i as int)),
            bytes == parent.receipt_bytes - sum_bytes(gs.subrange(0, i as int)),
        decreases gs.len() - i,
    {
        let ghost s = gs.subrange(0, i + 1);
        assert(s.drop_last() =~= gs.subrange(0, i as int));
        assert(s.last() == gs[i as int]);
        if let Some(g) = receipt_groups[i] {
            assert(sum_gas(s) == sum_gas(gs.subrange(0, i as int)) + g.total_gas);
            assert(sum_bytes(s) == sum_bytes(gs.subrange(0, i as int)) + g.total_size);
            if g.total_gas > gas || g.total_size > bytes {
                proof {
                    lemma_sums_grow(gs, i + 1);
                }
                return Err(ReshardingError::CongestionMismatch);
            }
            gas = gas - g.total_gas;
            bytes = bytes - g.total_size;
        }
        i = i + 1;
    }
    assert(gs.subrange(0, i as int) =~= gs);
    if gas != 0 {
        return Err(ReshardingError::CongestionMismatch);
    }
    let expected = CongestionInfo { buffered_receipts_gas: 0, receipt_bytes: bytes, ..*parent };
    if bootstrapped.delayed_receipts_gas != expected.delayed_receipts_gas
        || bootstrapped.buffered_receipts_gas != expected.buffered_receipts_gas
        || bootstrapped.receipt_bytes != expected.receipt_bytes {
        return Err(ReshardingError::CongestionMismatch);
    }
    Ok(*bootstrapped)
}

/// The right child's congestion info is accepted only when the parent's
/// buffered gas is exactly the gas of all its outgoing queues.
pub proof fn lemma_right_child_conserves_gas(
    parent: CongestionInfo,
    groups: Seq<Option<ReceiptGroupTotals>>,
    bootstrapped: CongestionInfo,
)
    requires
        child_congestion(parent, RetainMode::Right, groups, bootstrapped) is Ok,
    ensures
        parent.buffered_receipts_gas - sum_gas(groups) == 0,
        child_congestion(parent, RetainMode::Right, groups, bootstrapped)->Ok_0.buffered_receipts_gas
            == 0,
{
}

/// The shard that `finalize_allowed_shard` picks: the one at position
/// `seed % len` among all shards, or the own shard when there are none; kept
/// in 16 bits.
pub open spec fn allowed_shard_choice(own_shard: u64, all_shards: Seq<u64>, seed: u64) -> u16 {
    if all_shards.len() == 0 {
        (own_shard % 65536) as u16
    } else {
        (all_shards[(seed % (all_shards.len() as u64)) as int] % 65536) as u16
    }
}

/// Relies on near_primitives' `CongestionInfo::finalize_allowed_shard`: it stores
/// `all_shards[seed % all_shards.len()]`, or `own_shard` for an empty list,
/// narrowed to `u16`, and reads back the allowed shard.
#[verifier::external_body]
fn finalized_allowed_shard(info: &CongestionInfo, own_shard: u64, all_shards: &Vec<u64>, seed: u64) -> (r: u16)
    ensures
        r == allowed_shard_choice(own_shard, all_shards@, seed),
{
    let mut outside = NearCongestionInfo::V1(CongestionInfoV1 {
        delayed_receipts_gas: info.delayed_receipts_gas,
        buffered_receipts_gas: info.buffered_receipts_gas,
        receipt_bytes: info.receipt_bytes,
        allowed_shard: info.allowed_shard,
    });
    let shards: Vec<ShardId> = all_shards.iter().map(|s| ShardId::new(*s)).collect();
    outside.finalize_allowed_shard(ShardId::new(own_shard), &shards, seed);
    outside.allowed_shard()
}

impl CongestionInfo {
    /// Sets the allowed shard by the deterministic rotation over `all_shards`.
    pub fn finalize_allowed_shard(&mut self, own_shard: u64, all_shards: &Vec<u64>, seed: u64)
        ensures
            *final(self) == (CongestionInfo {
                allowed_shard: allowed_shard_choice(own_shard, all_shards@, seed),
                ..*old(self)
            }),
    {
        let a = finalized_allowed_shard(self, own_shard, all_shards, seed);
        self.allowed_shard = a;
    }
}

} // verus!
