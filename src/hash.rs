use vstd::prelude::*;

verus! {

/// The 32-byte SHA-256 digest of `data`, as computed by the chain's primitives.
pub uninterp spec fn sha256_of(data: Seq<u8>) -> Seq<u8>;

/// Content address of a trie node or of a whole state.
#[derive(Clone, Copy, Debug)]
pub struct CryptoHash(pub [u8; 32]);

impl CryptoHash {
    /// The all-zero hash, which is also the root of an empty trie.
    pub fn zero() -> (r: CryptoHash)
        ensures
            r.0@ == Seq::new(32, |_i: int| 0u8),
    {
        let r = CryptoHash([0u8; 32]);
        assert(r.0@ =~= Seq::new(32, |_i: int| 0u8));
        r
    }
}

impl CryptoHash {
    /// Whether two hashes hold the same bytes.
    pub fn same_as(&self, other: &CryptoHash) -> (r: bool)
        ensures
            r == (self.0@ == other.0@),
    {
        let mut i: usize = 0;
        while i < 32
            invariant
                i <= 32,
                forall|j: int| 0 <= j < i ==> self.0@[j] == other.0@[j],
            decreases 32 - i,
        {
            if self.0[i] != other.0[i] {
                return false;
            }
            i = i + 1;
        }
        assert(self.0@ =~= other.0@);
        true
    }
}

/// Relies on `near_primitives::hash::hash`: SHA-256 of the given bytes.
#[verifier::external_body]
pub(crate) fn hash_bytes(data: &[u8]) -> (r: CryptoHash)
    ensures
        r.0@ == sha256_of(data@),
{
    CryptoHash(near_primitives::hash::hash(data).0)
}

} // verus!
