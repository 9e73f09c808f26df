use vstd::prelude::*;
use crate::bytes::{bytes_lt, bytes_less, copy_bytes};

verus! {

/// Which side of the boundary account a child keeps.
#[derive(Clone, Copy, Debug, PartialEq, Eq, Structural)]
pub enum RetainMode {
    /// Accounts strictly below the boundary.
    Left,
    /// The boundary account and everything above it.
    Right,
}

/// One key-value pair of a shard's state, keyed by its account and the rest of the key.
#[derive(Debug)]
pub struct TrieEntry {
    pub account: Vec<u8>,
    pub key: Vec<u8>,
    pub value: Vec<u8>,
}

/// An entry as (account, rest of key, value).
pub type EntryView = (Seq<u8>, Seq<u8>, Seq<u8>);

impl View for TrieEntry {
    type V = EntryView;

    open spec fn view(&self) -> EntryView {
        (self.account@, self.key@, self.value@)
    }
}

pub open spec fn entries_view(v: Seq<TrieEntry>) -> Seq<EntryView> {
    v.map_values(|e: TrieEntry| e@)
}

impl TrieEntry {
    pub fn new(account: Vec<u8>, key: Vec<u8>, value: Vec<u8>) -> (r: TrieEntry)
        ensures
            r@ == (account@, key@, value@),
    {
        TrieEntry { account, key, value }
    }

    pub fn duplicate(&self) -> (r: TrieEntry)
        ensures
            r@ == self@,
    {
        TrieEntry {
            account: copy_bytes(&self.account),
            key: copy_bytes(&self.key),
            value: copy_bytes(&self.value),
        }
    }
}

/// Whether an account belongs to the side that `mode` keeps.
pub open spec fn retained_by(account: Seq<u8>, boundary: Seq<u8>, mode: RetainMode) -> bool {
    match mode {
        RetainMode::Left => bytes_lt(account, boundary),
        RetainMode::Right => !bytes_lt(account, boundary),
    }
}

/// The entries of `s` that `mode` keeps, in their order.
pub open spec fn retain(s: Seq<EntryView>, boundary: Seq<u8>, mode: RetainMode) -> Seq<EntryView>
    decreases s.len(),
{
    if s.len() == 0 {
        seq![]
    } else {
        let rest = retain(s.drop_last(), boundary, mode);
        if retained_by(s.last().0, boundary, mode) {
            rest.push(s.last())
        } else {
            rest
        }
    }
}

pub proof fn lemma_retain_contains(s: Seq<EntryView>, boundary: Seq<u8>, mode: RetainMode, e: EntryView)
    ensures
        retain(s, boundary, mode).contains(e) <==> (s.contains(e) && retained_by(e.0, boundary, mode)),
    decreases s.len(),
{
    if s.len() > 0 {
        let d = s.drop_last();
        let last = s.last();
        lemma_retain_contains(d, boundary, mode, e);
        let rest = retain(d, boundary, mode);
        let r = retain(s, boundary, mode);
        if s.contains(e) && retained_by(e.0, boundary, mode) {
            let k = choose|k: int| 0 <= k < s.len() && s[k] == e;
            if k < s.len() - 1 {
                assert(d[k] == e);
                assert(rest.contains(e));
                let j = choose|j: int| 0 <= j < rest.len() && rest[j] == e;
                if retained_by(last.0, boundary, mode) {
                    assert(r[j] == e);
                } else {
                    assert(r[j] == e);
                }
            } else {
                assert(r[r.len() - 1] == e);
            }
        }
        if r.contains(e) {
            let j = choose|j: int| 0 <= j < r.len() && r[j] == e;
            if retained_by(last.0, boundary, mode) && j == rest.len() {
                assert(s[s.len() - 1] == e);
            } else {
                assert(rest[j] == e);
                assert(d.contains(e));
                let k = choose|k: int| 0 <= k < d.len() && d[k] == e;
                assert(s[k] == e);
            }
        }
    }
}

/// When every entry lies on one side, that side keeps them all and the other none.
pub proof fn lemma_retain_one_side(s: Seq<EntryView>, boundary: Seq<u8>)
    requires
        forall|i: int| 0 <= i < s.len() ==> !bytes_lt(#[trigger] s[i].0, boundary),
    ensures
        retain(s, boundary, RetainMode::Right) == s,
        retain(s, boundary, RetainMode::Left).len() == 0,
    decreases s.len(),
{
    if s.len() > 0 {
        let d = s.drop_last();
        assert forall|i: int| 0 <= i < d.len() implies !bytes_lt(#[trigger] d[i].0, boundary) by {
            assert(d[i] == s[i]);
        }
        lemma_retain_one_side(d, boundary);
        assert(!bytes_lt(s[s.len() - 1].0, boundary));
        assert(d.push(s.last()) =~= s);
    }
}

pub proof fn lemma_retain_len(s: Seq<EntryView>, boundary: Seq<u8>)
    ensures
        retain(s, boundary, RetainMode::Left).len() + retain(s, boundary, RetainMode::Right).len()
            == s.len(),
    decreases s.len(),
{
    if s.len() > 0 {
        lemma_retain_len(s.drop_last(), boundary);
    }
}

/// The entries of `entries` that `mode` keeps, copied in their order.
pub fn retain_entries(entries: &Vec<TrieEntry>, boundary: &Vec<u8>, mode: RetainMode) -> (r: Vec<TrieEntry>)
    ensures
        entries_view(r@) == retain(entries_view(entries@), boundary@, mode),
{
    let mut out: Vec<TrieEntry> = Vec::new();
    let mut i: usize = 0;
    while i < entries.len()
        invariant
            i <= entries.len(),
            entries_view(out@) == retain(entries_view(entries@).subrange(0, i as int), boundary@, mode),
        decreases entries.len() - i,
    {
        let ghost s = entries_view(entries@);
        assert(s.subrange(0, i + 1).drop_last() =~= s.subrange(0, i as int));
        let below = bytes_less(&entries[i].account, boundary);
        let keep = match mode {
            RetainMode::Left => below,
            RetainMode::Right => !below,
        };
        if keep {
            let e = entries[i].duplicate();
            out.push(e);
            assert(entries_view(out@) =~= retain(s.subrange(0, i as int), boundary@, mode).push(s[i as int]));
        }
        i = i + 1;
    }
    assert(entries_view(entries@).subrange(0, i as int) =~= entries_view(entries@));
    out
}

} // verus!
