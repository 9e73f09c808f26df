use vstd::prelude::*;

verus! {

/// Little-endian bytes of a 32-bit integer.
pub open spec fn u32_le(v: u32) -> Seq<u8> {
    seq![
        (v % 256) as u8,
        ((v / 256) % 256) as u8,
        ((v / 65536) % 256) as u8,
        (v / 16777216) as u8,
    ]
}

/// Little-endian bytes of a 64-bit integer.
pub open spec fn u64_le(v: u64) -> Seq<u8> {
    u32_le((v % 4294967296) as u32) + u32_le((v / 4294967296) as u32)
}

proof fn lemma_u32_le_injective(x: u32, y: u32)
    requires
        u32_le(x) == u32_le(y),
    ensures
        x == y,
{
    assert(u32_le(x)[0] == u32_le(y)[0]);
    assert(u32_le(x)[1] == u32_le(y)[1]);
    assert(u32_le(x)[2] == u32_le(y)[2]);
    assert(u32_le(x)[3] == u32_le(y)[3]);
    assert(x % 256 == y % 256);
    assert((x / 256) % 256 == (y / 256) % 256);
    assert((x / 65536) % 256 == (y / 65536) % 256);
    assert(x / 16777216 == y / 16777216);
    assert((x % 256 == y % 256 && (x / 256) % 256 == (y / 256) % 256 && (x / 65536) % 256 == (y
        / 65536) % 256 && x / 16777216 == y / 16777216) ==> x == y) by (bit_vector);
}

/// Distinct shards have distinct storage prefixes.
pub proof fn lemma_shard_uid_bytes_injective(a: ShardUId, b: ShardUId)
    requires
        shard_uid_bytes(a) == shard_uid_bytes(b),
    ensures
        a == b,
{
    let sa = shard_uid_bytes(a);
    let sb = shard_uid_bytes(b);
    assert(sa.subrange(0, 4) =~= u32_le(a.version));
    assert(sb.subrange(0, 4) =~= u32_le(b.version));
    assert(sa.subrange(4, 8) =~= u32_le(a.shard_id));
    assert(sb.subrange(4, 8) =~= u32_le(b.shard_id));
    lemma_u32_le_injective(a.version, b.version);
    lemma_u32_le_injective(a.shard_id, b.shard_id);
}

pub fn u64_to_le(v: u64, out: &mut Vec<u8>)
    ensures
        final(out)@ == old(out)@ + u64_le(v),
{
    let ghost start = out@;
    u32_to_le((v % 4294967296) as u32, out);
    u32_to_le((v / 4294967296) as u32, out);
    assert(out@ =~= start + u64_le(v));
}

/// Physical identifier of a shard within one layout version.
#[derive(Clone, Copy, Debug, PartialEq, Eq, Structural)]
pub struct ShardUId {
    pub version: u32,
    pub shard_id: u32,
}

/// The 8-byte storage prefix of a shard: version then shard id, each little-endian.
pub open spec fn shard_uid_bytes(u: ShardUId) -> Seq<u8> {
    u32_le(u.version) + u32_le(u.shard_id)
}

pub fn u32_to_le(v: u32, out: &mut Vec<u8>)
    ensures
        final(out)@ == old(out)@ + u32_le(v),
{
    out.push((v % 256) as u8);
    out.push(((v / 256) % 256) as u8);
    out.push(((v / 65536) % 256) as u8);
    out.push((v / 16777216) as u8);
    assert(final(out)@ =~= old(out)@ + u32_le(v));
}

impl ShardUId {
    pub fn new(version: u32, shard_id: u32) -> (r: ShardUId)
        ensures
            r.version == version,
            r.shard_id == shard_id,
    {
        ShardUId { version, shard_id }
    }

    pub fn to_bytes(&self) -> (r: Vec<u8>)
        ensures
            r@ == shard_uid_bytes(*self),
    {
        let mut r: Vec<u8> = Vec::new();
        u32_to_le(self.version, &mut r);
        u32_to_le(self.shard_id, &mut r);
        r
    }
}

} // verus!
