//! This library models a shard's authenticated state as the ordered list of
//! its entries: each entry has a leaf hash, and the state root is the SHA-256
//! of the leaf hashes one after another (all zeros for an empty state). It is
//! a flat commitment, not the node's Merkle-Patricia trie, so its roots differ
//! from the node's and a witness holds a record for every entry.

use vstd::prelude::*;
use crate::hash::{CryptoHash, hash_bytes, sha256_of};
use crate::shard_uid::{u32_le, u32_to_le};
use crate::trie::{EntryView, TrieEntry};

verus! {

/// Lengths of an entry's account and key fit the 4-byte length prefixes of its encoding.
pub open spec fn entry_fits(e: EntryView) -> bool {
    e.0.len() <= u32::MAX && e.1.len() <= u32::MAX
}

pub open spec fn entries_fit(s: Seq<EntryView>) -> bool {
    forall|i: int| 0 <= i < s.len() ==> entry_fits(#[trigger] s[i])
}

/// Leaf encoding: account length, account, key length, key, value.
pub open spec fn encode_entry(e: EntryView) -> Seq<u8> {
    u32_le(e.0.len() as u32) + e.0 + u32_le(e.1.len() as u32) + e.1 + e.2
}

pub open spec fn leaf_hash(e: EntryView) -> Seq<u8> {
    sha256_of(encode_entry(e))
}

pub open spec fn leaf_hashes(s: Seq<EntryView>) -> Seq<Seq<u8>> {
    s.map_values(|e: EntryView| leaf_hash(e))
}

/// The byte strings of `hs`, one after another.
pub open spec fn concat(hs: Seq<Seq<u8>>) -> Seq<u8>
    decreases hs.len(),
{
    if hs.len() == 0 {
        seq![]
    } else {
        concat(hs.drop_last()) + hs.last()
    }
}

pub open spec fn zero_hash() -> Seq<u8> {
    Seq::new(32, |_i: int| 0u8)
}

/// Root over a sequence of leaf hashes; the empty state has the all-zero root.
pub open spec fn root_of_leaves(hs: Seq<Seq<u8>>) -> Seq<u8> {
    if hs.len() == 0 {
        zero_hash()
    } else {
        sha256_of(concat(hs))
    }
}

/// State root of a sequence of entries.
pub open spec fn state_root(s: Seq<EntryView>) -> Seq<u8> {
    root_of_leaves(leaf_hashes(s))
}

pub open spec fn hashes_view(v: Seq<CryptoHash>) -> Seq<Seq<u8>> {
    v.map_values(|h: CryptoHash| h.0@)
}

pub fn append_bytes(out: &mut Vec<u8>, src: &[u8])
    ensures
        final(out)@ == old(out)@ + src@,
{
    let mut i: usize = 0;
    while i < src.len()
        invariant
            i <= src@.len(),
            out@ == old(out)@ + src@.subrange(0, i as int),
        decreases src.len() - i,
    {
        out.push(src[i]);
        i = i + 1;
        assert(out@ =~= old(out)@ + src@.subrange(0, i as int));
    }
    assert(src@.subrange(0, i as int) =~= src@);
}

pub fn encode_entry_bytes(e: &TrieEntry) -> (r: Vec<u8>)
    requires
        entry_fits(e@),
    ensures
        r@ == encode_entry(e@),
{
    let mut r: Vec<u8> = Vec::new();
    u32_to_le(e.account.len() as u32, &mut r);
    append_bytes(&mut r, e.account.as_slice());
    u32_to_le(e.key.len() as u32, &mut r);
    append_bytes(&mut r, e.key.as_slice());
    append_bytes(&mut r, e.value.as_slice());
    assert(r@ =~= encode_entry(e@));
    r
}

pub fn leaf_hash_of(e: &TrieEntry) -> (r: CryptoHash)
    requires
        entry_fits(e@),
    ensures
        r.0@ == leaf_hash(e@),
{
    let enc = encode_entry_bytes(e);
    hash_bytes(enc.as_slice())
}

/// The leaf hashes, one after another.
pub fn concat_leaf_hashes(hs: &Vec<CryptoHash>) -> (r: Vec<u8>)
    ensures
        r@ == concat(hashes_view(hs@)),
{
    let mut r: Vec<u8> = Vec::new();
    let mut i: usize = 0;
    while i < hs.len()
        invariant
            i <= hs.len(),
            r@ == concat(hashes_view(hs@).subrange(0, i as int)),
        decreases hs.len() - i,
    {
        let ghost v = hashes_view(hs@);
        assert(v.subrange(0, i + 1).drop_last() =~= v.subrange(0, i as int));
        append_bytes(&mut r, hs[i].0.as_slice());
        i = i + 1;
    }
    assert(hashes_view(hs@).subrange(0, i as int) =~= hashes_view(hs@));
    r
}

/// Root over given leaf hashes.
pub fn root_of_leaf_hashes(hs: &Vec<CryptoHash>) -> (r: CryptoHash)
    ensures
        r.0@ == root_of_leaves(hashes_view(hs@)),
{
    if hs.len() == 0 {
        CryptoHash::zero()
    } else {
        let bytes = concat_leaf_hashes(hs);
        hash_bytes(bytes.as_slice())
    }
}

/// The leaf hash of each entry, in order.
pub fn leaf_hashes_of(entries: &Vec<TrieEntry>) -> (r: Vec<CryptoHash>)
    requires
        entries_fit(crate::trie::entries_view(entries@)),
    ensures
        hashes_view(r@) == leaf_hashes(crate::trie::entries_view(entries@)),
{
    let ghost s = crate::trie::entries_view(entries@);
    let mut r: Vec<CryptoHash> = Vec::new();
    let mut i: usize = 0;
    while i < entries.len()
        invariant
            i <= entries.len(),
            s == crate::trie::entries_view(entries@),
            entries_fit(s),
            r.len() == i,
            hashes_view(r@) == leaf_hashes(s.subrange(0, i as int)),
        decreases entries.len() - i,
    {
        assert(s[i as int] == entries@[i as int]@);
        let h = leaf_hash_of(&entries[i]);
        let ghost prev = r@;
        r.push(h);
        assert forall|j: int| 0 <= j <= i implies hashes_view(r@)[j] == leaf_hashes(
            s.subrange(0, i + 1),
        )[j] by {
            if j < i {
                assert(r@[j] == prev[j]);
                assert(hashes_view(prev)[j] == leaf_hashes(s.subrange(0, i as int))[j]);
            }
        }
        i = i + 1;
        assert(hashes_view(r@) =~= leaf_hashes(s.subrange(0, i as int)));
    }
    assert(s.subrange(0, i as int) =~= s);
    r
}

/// State root of the given entries, built from scratch.
pub fn compute_state_root(entries: &Vec<TrieEntry>) -> (r: CryptoHash)
    requires
        entries_fit(crate::trie::entries_view(entries@)),
    ensures
        r.0@ == state_root(crate::trie::entries_view(entries@)),
{
    let hs = leaf_hashes_of(entries);
    root_of_leaf_hashes(&hs)
}

} // verus!
