use vstd::prelude::*;
use crate::bytes::copy_bytes;
use crate::congestion::{
    allowed_shard_choice, child_congestion, get_child_congestion_info, CongestionInfo,
    ReceiptGroupTotals,
};
use crate::error::ReshardingError;
use crate::hash::CryptoHash;
use crate::shard_uid::ShardUId;
use crate::trie::RetainMode;

verus! {

/// Per-shard, per-block summary of the last executed chunk.
#[derive(Debug)]
pub struct ChunkExtra {
    pub state_root: CryptoHash,
    pub outcome_root: CryptoHash,
    /// Validator proposals, in their encoded form.
    pub validator_proposals: Vec<u8>,
    pub gas_used: u64,
    pub gas_limit: u64,
    pub balance_burnt: u128,
    /// Present from the protocol version that introduced congestion control.
    pub congestion_info: Option<CongestionInfo>,
}

pub struct ChunkExtraView {
    pub state_root: Seq<u8>,
    pub outcome_root: Seq<u8>,
    pub validator_proposals: Seq<u8>,
    pub gas_used: u64,
    pub gas_limit: u64,
    pub balance_burnt: u128,
    pub congestion_info: Option<CongestionInfo>,
}

impl View for ChunkExtra {
    type V = ChunkExtraView;

    open spec fn view(&self) -> ChunkExtraView {
        ChunkExtraView {
            state_root: self.state_root.0@,
            outcome_root: self.outcome_root.0@,
            validator_proposals: self.validator_proposals@,
            gas_used: self.gas_used,
            gas_limit: self.gas_limit,
            balance_burnt: self.balance_burnt,
            congestion_info: self.congestion_info,
        }
    }
}

impl ChunkExtra {
    pub fn duplicate(&self) -> (r: ChunkExtra)
        ensures
            r@ == self@,
    {
        ChunkExtra {
            state_root: self.state_root,
            outcome_root: self.outcome_root,
            validator_proposals: copy_bytes(&self.validator_proposals),
            gas_used: self.gas_used,
            gas_limit: self.gas_limit,
            balance_burnt: self.balance_burnt,
            congestion_info: self.congestion_info,
        }
    }
}

/// Position of the first occurrence of `x` in `ids`, or -1.
pub open spec fn first_index(ids: Seq<u64>, x: u64) -> int
    decreases ids.len(),
{
    if ids.len() == 0 {
        -1
    } else if ids[0] == x {
        0
    } else {
        let k = first_index(ids.drop_first(), x);
        if k < 0 {
            -1
        } else {
            k + 1
        }
    }
}

proof fn lemma_first_index(ids: Seq<u64>, x: u64, i: int)
    requires
        0 <= i <= ids.len(),
        forall|j: int| 0 <= j < i ==> ids[j] != x,
        i < ids.len() ==> ids[i] == x,
    ensures
        first_index(ids, x) == (if i < ids.len() {
            i
        } else {
            -1
        }),
    decreases ids.len(),
{
    if ids.len() > 0 && i > 0 {
        let d = ids.drop_first();
        assert forall|j: int| 0 <= j < i - 1 implies d[j] != x by {
            assert(d[j] == ids[j + 1]);
        }
        lemma_first_index(d, x, i - 1);
    }
}

/// Index of a shard id within a layout's shard ids.
pub fn get_shard_index(shard_ids: &Vec<u64>, shard_id: u64) -> (r: Option<usize>)
    ensures
        match r {
            Some(k) => k as int == first_index(shard_ids@, shard_id),
            None => first_index(shard_ids@, shard_id) == -1,
        },
{
    let mut i: usize = 0;
    while i < shard_ids.len()
        invariant
            i <= shard_ids.len(),
            forall|j: int| 0 <= j < i ==> shard_ids@[j] != shard_id,
        decreases shard_ids.len() - i,
    {
        if shard_ids[i] == shard_id {
            proof {
                lemma_first_index(shard_ids@, shard_id, i as int);
            }
            return Some(i);
        }
        i = i + 1;
    }
    proof {
        lemma_first_index(shard_ids@, shard_id, i as int);
    }
    None
}

/// The child's chunk extra: the parent's with the child's state root, and,
/// where the parent carries congestion info, the child's recomputed info with
/// its allowed shard rotated by the child's index in the next layout.
pub open spec fn child_chunk_extra(
    parent: ChunkExtraView,
    new_state_root: Seq<u8>,
    child: ShardUId,
    mode: RetainMode,
    groups: Seq<Option<ReceiptGroupTotals>>,
    bootstrapped: CongestionInfo,
    next_shard_ids: Seq<u64>,
) -> Result<ChunkExtraView, ReshardingError> {
    let base = ChunkExtraView { state_root: new_state_root, ..parent };
    match parent.congestion_info {
        None => Ok(base),
        Some(ci) => match child_congestion(ci, mode, groups, bootstrapped) {
            Err(e) => Err(e),
            Ok(c) => {
                let k = first_index(next_shard_ids, child.shard_id as u64);
                if k < 0 {
                    Err(ReshardingError::ShardNotInLayout)
                } else {
                    Ok(
                        ChunkExtraView {
                            congestion_info: Some(
                                CongestionInfo {
                                    allowed_shard: allowed_shard_choice(
                                        child.shard_id as u64,
                                        next_shard_ids,
                                        k as u64,
                                    ),
                                    ..c
                                },
                            ),
                            ..base
                        },
                    )
                }
            },
        },
    }
}

/// Builds a child's chunk extra from its parent's.
pub fn get_child_chunk_extra(
    parent: &ChunkExtra,
    new_state_root: CryptoHash,
    child: ShardUId,
    mode: RetainMode,
    receipt_groups: &Vec<Option<ReceiptGroupTotals>>,
    bootstrapped: &CongestionInfo,
    next_shard_ids: &Vec<u64>,
) -> (r: Result<ChunkExtra, ReshardingError>)
    ensures
        match child_chunk_extra(
            parent@,
            new_state_root.0@,
            child,
            mode,
            receipt_groups@,
            *bootstrapped,
            next_shard_ids@,
        ) {
            Ok(v) => r is Ok && r->Ok_0@ == v,
            Err(e) => r == Err::<ChunkExtra, ReshardingError>(e),
        },
{
    let mut extra = parent.duplicate();
    extra.state_root = new_state_root;
    match parent.congestion_info {
        None => Ok(extra),
        Some(ci) => {
            let mut c = match get_child_congestion_info(&ci, mode, receipt_groups, bootstrapped) {
                Ok(c) => c,
                Err(e) => {
                    return Err(e);
                },
            };
            let own_shard = child.shard_id as u64;
            let index = match get_shard_index(next_shard_ids, own_shard) {
                Some(k) => k,
                None => {
                    return Err(ReshardingError::ShardNotInLayout);
                },
            };
            c.finalize_allowed_shard(own_shard, next_shard_ids, index as u64);
            extra.congestion_info = Some(c);
            Ok(extra)
        },
    }
}

} // verus!
