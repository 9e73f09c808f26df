use vstd::prelude::*;
use crate::bytes::{bytes_equal, copy_bytes};
use crate::hash::CryptoHash;
use crate::shard_uid::ShardUId;

verus! {

/// A versioned assignment of accounts to shards, split at boundary accounts.
#[derive(Debug)]
pub struct ShardLayout {
    pub version: u32,
    /// Whether the layout is of the variant that supports splitting a shard.
    pub is_v2: bool,
    pub shard_ids: Vec<u64>,
    pub boundary_accounts: Vec<Vec<u8>>,
}

pub type ShardLayoutView = (u32, bool, Seq<u64>, Seq<Seq<u8>>);

impl View for ShardLayout {
    type V = ShardLayoutView;

    open spec fn view(&self) -> ShardLayoutView {
        (
            self.version,
            self.is_v2,
            self.shard_ids@,
            self.boundary_accounts@.map_values(|b: Vec<u8>| b@),
        )
    }
}

impl ShardLayout {
    pub fn duplicate(&self) -> (r: ShardLayout)
        ensures
            r@ == self@,
    {
        let mut boundary_accounts: Vec<Vec<u8>> = Vec::new();
        let ghost a = self.boundary_accounts@.map_values(|b: Vec<u8>| b@);
        let mut i: usize = 0;
        while i < self.boundary_accounts.len()
            invariant
                i <= self.boundary_accounts.len(),
                boundary_accounts.len() == i,
                a == self.boundary_accounts@.map_values(|b: Vec<u8>| b@),
                boundary_accounts@.map_values(|b: Vec<u8>| b@) == a.subrange(0, i as int),
            decreases self.boundary_accounts.len() - i,
        {
            let item = copy_bytes(&self.boundary_accounts[i]);
            let ghost prev = boundary_accounts@;
            boundary_accounts.push(item);
            assert forall|j: int| 0 <= j <= i implies boundary_accounts@.map_values(
                |b: Vec<u8>| b@,
            )[j] == a[j] by {
                if j < i {
                    assert(boundary_accounts@[j] == prev[j]);
                    assert(prev.map_values(|b: Vec<u8>| b@)[j] == a[j]);
                }
            }
            i = i + 1;
            assert(boundary_accounts@.map_values(|b: Vec<u8>| b@) =~= a.subrange(0, i as int));
        }
        assert(a.subrange(0, i as int) =~= a);
        let shard_ids = self.shard_ids.clone();
        assert(shard_ids@ =~= self.shard_ids@);
        ShardLayout { version: self.version, is_v2: self.is_v2, shard_ids, boundary_accounts }
    }

    /// Whether two layouts are the same layout.
    pub fn same_as(&self, other: &ShardLayout) -> (r: bool)
        ensures
            r == (self@ == other@),
    {
        if self.version != other.version || self.is_v2 != other.is_v2 {
            return false;
        }
        if self.shard_ids.len() != other.shard_ids.len() {
            return false;
        }
        let mut i: usize = 0;
        while i < self.shard_ids.len()
            invariant
                i <= self.shard_ids.len(),
                self.shard_ids.len() == other.shard_ids.len(),
                forall|j: int| 0 <= j < i ==> self.shard_ids@[j] == other.shard_ids@[j],
            decreases self.shard_ids.len() - i,
        {
            if self.shard_ids[i] != other.shard_ids[i] {
                return false;
            }
            i = i + 1;
        }
        assert(self.shard_ids@ =~= other.shard_ids@);
        let ghost a = self.boundary_accounts@.map_values(|b: Vec<u8>| b@);
        let ghost b = other.boundary_accounts@.map_values(|b: Vec<u8>| b@);
        if self.boundary_accounts.len() != other.boundary_accounts.len() {
            assert(a.len() != b.len());
            return false;
        }
        let mut k: usize = 0;
        while k < self.boundary_accounts.len()
            invariant
                k <= self.boundary_accounts.len(),
                self.boundary_accounts.len() == other.boundary_accounts.len(),
                a == self.boundary_accounts@.map_values(|b: Vec<u8>| b@),
                b == other.boundary_accounts@.map_values(|b: Vec<u8>| b@),
                forall|j: int| 0 <= j < k ==> a[j] == b[j],
            decreases self.boundary_accounts.len() - k,
        {
            if !bytes_equal(&self.boundary_accounts[k], &other.boundary_accounts[k]) {
                assert(a[k as int] != b[k as int]);
                return false;
            }
            k = k + 1;
        }
        assert(a =~= b);
        true
    }
}

/// A split of one parent shard into a left and a right child at a boundary account.
#[derive(Debug)]
pub struct SplitShardEvent {
    pub parent_shard: ShardUId,
    pub left_child_shard: ShardUId,
    pub right_child_shard: ShardUId,
    pub boundary_account: Vec<u8>,
    pub resharding_block_hash: CryptoHash,
}

pub struct SplitShardEventView {
    pub parent_shard: ShardUId,
    pub left_child_shard: ShardUId,
    pub right_child_shard: ShardUId,
    pub boundary_account: Seq<u8>,
    pub resharding_block_hash: Seq<u8>,
}

impl View for SplitShardEvent {
    type V = SplitShardEventView;

    open spec fn view(&self) -> SplitShardEventView {
        SplitShardEventView {
            parent_shard: self.parent_shard,
            left_child_shard: self.left_child_shard,
            right_child_shard: self.right_child_shard,
            boundary_account: self.boundary_account@,
            resharding_block_hash: self.resharding_block_hash.0@,
        }
    }
}

impl SplitShardEvent {
    /// The two children are distinct shards of one layout version, and neither is the parent.
    pub open spec fn wf(&self) -> bool {
        &&& self.left_child_shard != self.right_child_shard
        &&& self.left_child_shard.version == self.right_child_shard.version
        &&& self.left_child_shard != self.parent_shard
        &&& self.right_child_shard != self.parent_shard
    }

    pub fn children_shards(&self) -> (r: Vec<ShardUId>)
        ensures
            r@ == seq![self.left_child_shard, self.right_child_shard],
    {
        let r = vec![self.left_child_shard, self.right_child_shard];
        assert(r@ =~= seq![self.left_child_shard, self.right_child_shard]);
        r
    }

    /// Whether two events describe the same split.
    pub fn same_as(&self, other: &SplitShardEvent) -> (r: bool)
        ensures
            r == (self@ == other@),
    {
        self.parent_shard == other.parent_shard && self.left_child_shard == other.left_child_shard
            && self.right_child_shard == other.right_child_shard && bytes_equal(
            &self.boundary_account,
            &other.boundary_account,
        ) && self.resharding_block_hash.same_as(&other.resharding_block_hash)
    }

    pub fn duplicate(&self) -> (r: SplitShardEvent)
        ensures
            r@ == self@,
    {
        SplitShardEvent {
            parent_shard: self.parent_shard,
            left_child_shard: self.left_child_shard,
            right_child_shard: self.right_child_shard,
            boundary_account: copy_bytes(&self.boundary_account),
            resharding_block_hash: self.resharding_block_hash,
        }
    }
}

} // verus!
