//! Model of the node's in-memory tries: each loaded shard holds its entries
//! directly; a frozen parent is shared with its children by reading through it.

use vstd::prelude::*;
use crate::error::ReshardingError;
use crate::shard_uid::ShardUId;
use crate::trie::{entries_view, EntryView, TrieEntry};

verus! {

/// The in-memory trie of one shard. A frozen trie is never changed again; its
/// children read through it until they hold state of their own.
#[derive(Debug)]
pub struct MemTrie {
    pub shard_uid: ShardUId,
    pub entries: Vec<TrieEntry>,
    pub frozen: bool,
}

/// A loaded in-memory trie as (shard, entries, frozen).
pub type MemTrieView = (ShardUId, Seq<EntryView>, bool);

impl View for MemTrie {
    type V = MemTrieView;

    open spec fn view(&self) -> MemTrieView {
        (self.shard_uid, entries_view(self.entries@), self.frozen)
    }
}

/// The in-memory tries that this node has loaded, at most one per shard.
#[derive(Debug)]
pub struct ShardTries {
    pub mem_tries: Vec<MemTrie>,
}

impl View for ShardTries {
    type V = Seq<MemTrieView>;

    open spec fn view(&self) -> Seq<MemTrieView> {
        self.mem_tries@.map_values(|m: MemTrie| m@)
    }
}

/// Position of the first in-memory trie of `uid`, or -1 when none is loaded.
pub open spec fn slot_of(tries: Seq<MemTrieView>, uid: ShardUId) -> int
    decreases tries.len(),
{
    if tries.len() == 0 {
        -1
    } else if slot_of(tries.drop_last(), uid) >= 0 {
        slot_of(tries.drop_last(), uid)
    } else if tries.last().0 == uid {
        tries.len() - 1
    } else {
        -1
    }
}

proof fn lemma_slot_of(tries: Seq<MemTrieView>, uid: ShardUId, i: int)
    requires
        0 <= i <= tries.len(),
        forall|j: int| 0 <= j < i ==> (#[trigger] tries[j]).0 != uid,
        i < tries.len() ==> tries[i].0 == uid,
    ensures
        slot_of(tries, uid) == (if i < tries.len() {
            i
        } else {
            -1
        }),
    decreases tries.len(),
{
    if tries.len() > 0 {
        let d = tries.drop_last();
        if i < tries.len() - 1 {
            lemma_slot_of(d, uid, i);
        } else {
            assert forall|j: int| 0 <= j < d.len() implies (#[trigger] d[j]).0 != uid by {
                assert(d[j] == tries[j]);
            }
            lemma_slot_of(d, uid, d.len() as int);
        }
    }
}

/// The state of a loaded in-memory trie.
pub open spec fn loaded_state(tries: Seq<MemTrieView>, uid: ShardUId) -> Option<Seq<EntryView>> {
    if slot_of(tries, uid) >= 0 {
        Some(tries[slot_of(tries, uid)].1)
    } else {
        None
    }
}

/// Whether the in-memory trie of `uid` is loaded and frozen.
pub open spec fn is_frozen(tries: Seq<MemTrieView>, uid: ShardUId) -> bool {
    slot_of(tries, uid) >= 0 && tries[slot_of(tries, uid)].2
}

impl ShardTries {
    pub fn new() -> (r: ShardTries)
        ensures
            r@ == Seq::<MemTrieView>::empty(),
    {
        let r = ShardTries { mem_tries: Vec::new() };
        assert(r@ =~= Seq::<MemTrieView>::empty());
        r
    }

    /// Where the in-memory trie of `uid` sits, if it is loaded.
    pub fn find(&self, uid: ShardUId) -> (r: Option<usize>)
        ensures
            match r {
                Some(k) => k as int == slot_of(self@, uid) && k < self.mem_tries.len(),
                None => slot_of(self@, uid) == -1,
            },
    {
        let mut i: usize = 0;
        while i < self.mem_tries.len()
            invariant
                i <= self.mem_tries.len(),
                forall|j: int| 0 <= j < i ==> (#[trigger] self@[j]).0 != uid,
            decreases self.mem_tries.len() - i,
        {
            if self.mem_tries[i].shard_uid == uid {
                proof {
                    lemma_slot_of(self@, uid, i as int);
                }
                return Some(i);
            }
            i = i + 1;
        }
        proof {
            lemma_slot_of(self@, uid, i as int);
        }
        None
    }

    /// Loads (or replaces) the in-memory trie of `uid` with the given state.
    pub fn load_mem_trie(&mut self, uid: ShardUId, entries: Vec<TrieEntry>)
        ensures
            loaded_state(final(self)@, uid) == Some(entries_view(entries@)),
            forall|u: ShardUId| u != uid ==> loaded_state(final(self)@, u) == loaded_state(old(self)@, u),
    {
        match self.find(uid) {
            Some(k) => {
                let ghost before = self@;
                self.mem_tries.set(k, MemTrie { shard_uid: uid, entries, frozen: false });
                assert(self@ =~= before.update(k as int, (uid, entries_view(entries@), false)));
                proof {
                    assert forall|u: ShardUId| u != uid implies loaded_state(self@, u) == loaded_state(
                        before,
                        u,
                    ) by {
                        lemma_slot_same_after_update(before, k as int, uid, entries_view(entries@), false, u);
                    }
                    lemma_slot_same_after_update(before, k as int, uid, entries_view(entries@), false, uid);
                }
            },
            None => {
                let ghost before = self@;
                self.mem_tries.push(MemTrie { shard_uid: uid, entries, frozen: false });
                assert(self@ =~= before.push((uid, entries_view(entries@), false)));
                proof {
                    assert forall|u: ShardUId| u != uid implies loaded_state(self@, u) == loaded_state(
                        before,
                        u,
                    ) by {
                        lemma_slot_after_push(before, (uid, entries_view(entries@), false), u);
                    }
                    lemma_slot_after_push(before, (uid, entries_view(entries@), false), uid);
                }
            },
        }
    }

    /// Marks the parent's in-memory trie immutable, so that its children can
    /// share it; fails when it is not loaded.
    pub fn freeze_mem_tries(&mut self, parent: ShardUId) -> (r: Result<(), ReshardingError>)
        ensures
            r is Err <==> loaded_state(old(self)@, parent) is None,
            r is Err ==> r == Err::<(), ReshardingError>(ReshardingError::MemtrieNotLoaded),
            r is Ok ==> is_frozen(final(self)@, parent),
            forall|u: ShardUId| loaded_state(final(self)@, u) == loaded_state(old(self)@, u),
    {
        match self.find(parent) {
            None => Err(ReshardingError::MemtrieNotLoaded),
            Some(k) => {
                let ghost before = self@;
                let ghost vec_before = self.mem_tries@;
                proof {
                    lemma_slot_valid(before, parent);
                }
                let mut m = self.mem_tries.remove(k);
                m.frozen = true;
                let ghost mv = m;
                self.mem_tries.insert(k, m);
                assert(self.mem_tries@ =~= vec_before.update(k as int, mv));
                assert(self@ =~= before.update(k as int, (parent, before[k as int].1, true)));
                proof {
                    lemma_slot_update_keys(before, k as int, (parent, before[k as int].1, true), parent);
                    assert forall|u: ShardUId| loaded_state(self@, u) == loaded_state(before, u) by {
                        lemma_slot_same_after_update(before, k as int, parent, before[k as int].1, true, u);
                    }
                }
                Ok(())
            },
        }
    }

    /// The entries of a loaded in-memory trie.
    pub fn get_mem_trie(&self, uid: ShardUId) -> (r: Option<&Vec<TrieEntry>>)
        ensures
            match loaded_state(self@, uid) {
                Some(s) => r is Some && entries_view(r->Some_0@) == s,
                None => r is None,
            },
    {
        match self.find(uid) {
            Some(k) => Some(&self.mem_tries[k].entries),
            None => None,
        }
    }
}

proof fn lemma_slot_valid(tries: Seq<MemTrieView>, uid: ShardUId)
    ensures
        slot_of(tries, uid) >= -1,
        slot_of(tries, uid) >= 0 ==> slot_of(tries, uid) < tries.len() && tries[slot_of(
            tries,
            uid,
        )].0 == uid,
    decreases tries.len(),
{
    if tries.len() > 0 {
        lemma_slot_valid(tries.drop_last(), uid);
    }
}

proof fn lemma_slot_same_after_update(
    tries: Seq<MemTrieView>,
    k: int,
    uid: ShardUId,
    s: Seq<EntryView>,
    frozen: bool,
    u: ShardUId,
)
    requires
        0 <= k < tries.len(),
        slot_of(tries, uid) == k,
    ensures
        loaded_state(tries.update(k, (uid, s, frozen)), u) == (if u == uid {
            Some(s)
        } else {
            loaded_state(tries, u)
        }),
{
    lemma_slot_valid(tries, uid);
    lemma_slot_valid(tries, u);
    lemma_slot_update_keys(tries, k, (uid, s, frozen), u);
}

proof fn lemma_slot_after_push(tries: Seq<MemTrieView>, v: MemTrieView, u: ShardUId)
    requires
        slot_of(tries, v.0) == -1,
    ensures
        loaded_state(tries.push(v), u) == (if u == v.0 {
            Some(v.1)
        } else {
            loaded_state(tries, u)
        }),
{
    let t = tries.push(v);
    assert(t.drop_last() =~= tries);
    lemma_slot_valid(tries, u);
}

proof fn lemma_slot_update_keys(tries: Seq<MemTrieView>, k: int, v: MemTrieView, u: ShardUId)
    requires
        0 <= k < tries.len(),
        tries[k].0 == v.0,
    ensures
        slot_of(tries.update(k, v), u) == slot_of(tries, u),
    decreases tries.len(),
{
    let t = tries.update(k, v);
    if k == tries.len() - 1 {
        assert(t.drop_last() =~= tries.drop_last());
    } else {
        assert(t.drop_last() =~= tries.drop_last().update(k, v));
        lemma_slot_update_keys(tries.drop_last(), k, v, u);
    }
}

} // verus!
