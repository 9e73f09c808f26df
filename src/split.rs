use vstd::prelude::*;
use crate::bytes::{bytes_less, bytes_lt};
use crate::hash::{CryptoHash, hash_bytes, sha256_of};
use crate::root::{
    append_bytes, compute_state_root, concat, encode_entry, encode_entry_bytes, entries_fit,
    entry_fits, leaf_hash, leaf_hash_of, leaf_hashes, root_of_leaves, state_root,
};
use crate::trie::{
    entries_view, lemma_retain_contains, retain, retain_entries, retained_by, EntryView,
    RetainMode, TrieEntry,
};

verus! {

/// Witness record of one parent entry: tag 1 and the leaf encoding for an
/// entry the child keeps, tag 0 and the leaf hash for one it drops.
pub open spec fn witness_item(e: EntryView, boundary: Seq<u8>, mode: RetainMode) -> Seq<u8> {
    if retained_by(e.0, boundary, mode) {
        seq![1u8] + encode_entry(e)
    } else {
        seq![0u8] + leaf_hash(e)
    }
}

/// The witness of one child's split: a record for each parent entry, in order.
pub open spec fn witness_of(s: Seq<EntryView>, boundary: Seq<u8>, mode: RetainMode) -> Seq<Seq<u8>> {
    s.map_values(|e: EntryView| witness_item(e, boundary, mode))
}

pub open spec fn bytes_view(v: Seq<Vec<u8>>) -> Seq<Seq<u8>> {
    v.map_values(|b: Vec<u8>| b@)
}

pub open spec fn item_ok(w: Seq<u8>) -> bool {
    w.len() >= 1 && (w[0] == 0 || w[0] == 1)
}

/// The leaf hash that a witness record stands for.
pub open spec fn item_leaf(w: Seq<u8>) -> Seq<u8> {
    if w[0] == 1 {
        sha256_of(w.drop_first())
    } else {
        w.drop_first()
    }
}

pub open spec fn item_leaves(ws: Seq<Seq<u8>>) -> Seq<Seq<u8>> {
    ws.map_values(|w: Seq<u8>| item_leaf(w))
}

/// Leaf hashes of the records that the child keeps.
pub open spec fn retained_leaves(ws: Seq<Seq<u8>>) -> Seq<Seq<u8>>
    decreases ws.len(),
{
    if ws.len() == 0 {
        seq![]
    } else {
        let rest = retained_leaves(ws.drop_last());
        if ws.last()[0] == 1 {
            rest.push(item_leaf(ws.last()))
        } else {
            rest
        }
    }
}

/// The child root that a witness yields against a parent root, if it is well
/// formed and its leaves hash to that parent root.
pub open spec fn replay_root(parent_root: Seq<u8>, ws: Seq<Seq<u8>>) -> Option<Seq<u8>> {
    if (forall|i: int| 0 <= i < ws.len() ==> item_ok(#[trigger] ws[i])) && root_of_leaves(
        item_leaves(ws),
    ) == parent_root {
        Some(root_of_leaves(retained_leaves(ws)))
    } else {
        None
    }
}

/// A child's share of a split: its entries, its state root, and the witness of the walk.
pub struct SplitResult {
    pub entries: Vec<TrieEntry>,
    pub state_root: CryptoHash,
    pub witness: Vec<Vec<u8>>,
}

pub proof fn lemma_retain_fits(s: Seq<EntryView>, boundary: Seq<u8>, mode: RetainMode)
    requires
        entries_fit(s),
    ensures
        entries_fit(retain(s, boundary, mode)),
{
    let r = retain(s, boundary, mode);
    assert forall|i: int| 0 <= i < r.len() implies entry_fits(#[trigger] r[i]) by {
        assert(r.contains(r[i]));
        lemma_retain_contains(s, boundary, mode, r[i]);
        let k = choose|k: int| 0 <= k < s.len() && s[k] == r[i];
        assert(entry_fits(s[k]));
    }
}

fn witness_record(e: &TrieEntry, boundary: &Vec<u8>, mode: RetainMode) -> (r: Vec<u8>)
    requires
        entry_fits(e@),
    ensures
        r@ == witness_item(e@, boundary@, mode),
{
    let below = bytes_less(&e.account, boundary);
    let keep = match mode {
        RetainMode::Left => below,
        RetainMode::Right => !below,
    };
    let mut item: Vec<u8> = Vec::new();
    if keep {
        item.push(1u8);
        let enc = encode_entry_bytes(e);
        append_bytes(&mut item, enc.as_slice());
    } else {
        item.push(0u8);
        let h = leaf_hash_of(e);
        append_bytes(&mut item, h.0.as_slice());
    }
    item
}

/// The witness of splitting `entries` for the side `mode`.
pub fn record_witness(entries: &Vec<TrieEntry>, boundary: &Vec<u8>, mode: RetainMode) -> (r: Vec<Vec<u8>>)
    requires
        entries_fit(entries_view(entries@)),
    ensures
        bytes_view(r@) == witness_of(entries_view(entries@), boundary@, mode),
{
    let ghost s = entries_view(entries@);
    let mut r: Vec<Vec<u8>> = Vec::new();
    let mut i: usize = 0;
    while i < entries.len()
        invariant
            i <= entries.len(),
            s == entries_view(entries@),
            entries_fit(s),
            r.len() == i,
            bytes_view(r@) == witness_of(s.subrange(0, i as int), boundary@, mode),
        decreases entries.len() - i,
    {
        assert(s[i as int] == entries@[i as int]@);
        let item = witness_record(&entries[i], boundary, mode);
        let ghost prev = r@;
        r.push(item);
        assert forall|j: int| 0 <= j <= i implies bytes_view(r@)[j] == witness_of(
            s.subrange(0, i + 1),
            boundary@,
            mode,
        )[j] by {
            if j < i {
                assert(r@[j] == prev[j]);
                assert(bytes_view(prev)[j] == witness_of(s.subrange(0, i as int), boundary@, mode)[j]);
            }
        }
        i = i + 1;
        assert(bytes_view(r@) =~= witness_of(s.subrange(0, i as int), boundary@, mode));
    }
    assert(s.subrange(0, i as int) =~= s);
    r
}

/// Splits one side off a parent state: keeps the entries on the side `mode`
/// of `boundary`, computes the child's root, and records the witness.
pub fn retain_split_shard(entries: &Vec<TrieEntry>, boundary: &Vec<u8>, mode: RetainMode) -> (r: SplitResult)
    requires
        entries_fit(entries_view(entries@)),
    ensures
        entries_view(r.entries@) == retain(entries_view(entries@), boundary@, mode),
        r.state_root.0@ == state_root(retain(entries_view(entries@), boundary@, mode)),
        bytes_view(r.witness@) == witness_of(entries_view(entries@), boundary@, mode),
{
    let kept = retain_entries(entries, boundary, mode);
    proof {
        lemma_retain_fits(entries_view(entries@), boundary@, mode);
    }
    let root = compute_state_root(&kept);
    let witness = record_witness(entries, boundary, mode);
    SplitResult { entries: kept, state_root: root, witness }
}

fn tail_of(v: &Vec<u8>) -> (r: Vec<u8>)
    requires
        v.len() >= 1,
    ensures
        r@ == v@.drop_first(),
{
    let mut r: Vec<u8> = Vec::new();
    let mut i: usize = 1;
    while i < v.len()
        invariant
            1 <= i <= v.len(),
            r@ == v@.subrange(1, i as int),
        decreases v.len() - i,
    {
        r.push(v[i]);
        i = i + 1;
        assert(r@ =~= v@.subrange(1, i as int));
    }
    assert(r@ =~= v@.drop_first());
    r
}

/// Re-executes a split from a parent root and a witness alone: checks that the
/// witness is well formed and hashes to `parent_root`, and returns the child root.
pub fn replay_split(parent_root: &CryptoHash, witness: &Vec<Vec<u8>>) -> (r: Option<CryptoHash>)
    ensures
        match replay_root(parent_root.0@, bytes_view(witness@)) {
            Some(root) => r.is_some() && r.unwrap().0@ == root,
            None => r.is_none(),
        },
{
    let ghost ws = bytes_view(witness@);
    let mut all: Vec<u8> = Vec::new();
    let mut kept: Vec<u8> = Vec::new();
    let mut n_kept: usize = 0;
    let mut i: usize = 0;
    while i < witness.len()
        invariant
            ws == bytes_view(witness@),
            i <= witness.len(),
            n_kept <= i,
            forall|j: int| 0 <= j < i ==> item_ok(#[trigger] ws[j]),
            all@ == concat(item_leaves(ws.subrange(0, i as int))),
            kept@ == concat(retained_leaves(ws.subrange(0, i as int))),
            n_kept == retained_leaves(ws.subrange(0, i as int)).len(),
        decreases witness.len() - i,
    {
        let item = &witness[i];
        assert(ws[i as int] == item@);
        if item.len() == 0 || item[0] > 1 {
            assert(!item_ok(ws[i as int]));
            return None;
        }
        let rest = tail_of(item);
        let ghost sub = ws.subrange(0, i + 1);
        assert(sub.drop_last() =~= ws.subrange(0, i as int));
        assert(item_leaves(sub).drop_last() =~= item_leaves(ws.subrange(0, i as int)));
        assert(sub.last() == item@);
        let ghost prev_kept = retained_leaves(ws.subrange(0, i as int));
        if item[0] == 1 {
            assert(retained_leaves(sub) == prev_kept.push(item_leaf(item@)));
            assert(prev_kept.push(item_leaf(item@)).drop_last() =~= prev_kept);
            let h = hash_bytes(rest.as_slice());
            append_bytes(&mut all, h.0.as_slice());
            append_bytes(&mut kept, h.0.as_slice());
            n_kept = n_kept + 1;
        } else {
            append_bytes(&mut all, rest.as_slice());
        }
        i = i + 1;
    }
    assert(ws.subrange(0, i as int) =~= ws);
    let all_root = if witness.len() == 0 {
        CryptoHash::zero()
    } else {
        hash_bytes(all.as_slice())
    };
    if !all_root.same_as(parent_root) {
        return None;
    }
    let child_root = if n_kept == 0 {
        CryptoHash::zero()
    } else {
        hash_bytes(kept.as_slice())
    };
    Some(child_root)
}

proof fn lemma_retained_leaves(s: Seq<EntryView>, boundary: Seq<u8>, mode: RetainMode)
    ensures
        retained_leaves(witness_of(s, boundary, mode)) == leaf_hashes(retain(s, boundary, mode)),
    decreases s.len(),
{
    if s.len() > 0 {
        let ws = witness_of(s, boundary, mode);
        let d = s.drop_last();
        lemma_retained_leaves(d, boundary, mode);
        assert(ws.drop_last() =~= witness_of(d, boundary, mode));
        let e = s.last();
        let rest = retain(d, boundary, mode);
        if retained_by(e.0, boundary, mode) {
            assert((seq![1u8] + encode_entry(e)).drop_first() =~= encode_entry(e));
            assert(leaf_hashes(rest.push(e)) =~= leaf_hashes(rest).push(leaf_hash(e)));
        } else {
            assert((seq![0u8] + leaf_hash(e))[0] == 0);
        }
    }
}

/// Replaying a split from the parent's root and the recorded witness alone
/// yields exactly the root of the child that the split builds.
pub proof fn lemma_witness_replays(s: Seq<EntryView>, boundary: Seq<u8>, mode: RetainMode)
    requires
        entries_fit(s),
    ensures
        replay_root(state_root(s), witness_of(s, boundary, mode)) == Some(
            state_root(retain(s, boundary, mode)),
        ),
{
    let ws = witness_of(s, boundary, mode);
    assert forall|i: int| 0 <= i < ws.len() implies item_ok(#[trigger] ws[i]) && item_leaf(ws[i])
        == leaf_hash(s[i]) by {
        let e = s[i];
        if retained_by(e.0, boundary, mode) {
            assert((seq![1u8] + encode_entry(e)).drop_first() =~= encode_entry(e));
        } else {
            assert((seq![0u8] + leaf_hash(e)).drop_first() =~= leaf_hash(e));
        }
    }
    assert(item_leaves(ws) =~= leaf_hashes(s));
    lemma_retained_leaves(s, boundary, mode);
}

/// Every parent entry lands, unchanged, in exactly one of the two children;
/// the children hold nothing else, and their sizes add up to the parent's.
pub proof fn lemma_split_totality(s: Seq<EntryView>, boundary: Seq<u8>, e: EntryView)
    ensures
        s.contains(e) <==> (retain(s, boundary, RetainMode::Left).contains(e) || retain(
            s,
            boundary,
            RetainMode::Right,
        ).contains(e)),
        !(retain(s, boundary, RetainMode::Left).contains(e) && retain(
            s,
            boundary,
            RetainMode::Right,
        ).contains(e)),
        retain(s, boundary, RetainMode::Left).len() + retain(s, boundary, RetainMode::Right).len()
            == s.len(),
{
    lemma_retain_contains(s, boundary, RetainMode::Left, e);
    lemma_retain_contains(s, boundary, RetainMode::Right, e);
    crate::trie::lemma_retain_len(s, boundary);
}

/// The left child holds exactly the parent entries whose account sorts below
/// the boundary; the right child exactly those at or above it.
pub proof fn lemma_split_boundary(s: Seq<EntryView>, boundary: Seq<u8>, e: EntryView)
    ensures
        retain(s, boundary, RetainMode::Left).contains(e) <==> (s.contains(e) && bytes_lt(
            e.0,
            boundary,
        )),
        retain(s, boundary, RetainMode::Right).contains(e) <==> (s.contains(e) && !bytes_lt(
            e.0,
            boundary,
        )),
{
    lemma_retain_contains(s, boundary, RetainMode::Left, e);
    lemma_retain_contains(s, boundary, RetainMode::Right, e);
}

} // verus!
