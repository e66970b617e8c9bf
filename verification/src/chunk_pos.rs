//! The position of a chunk column in a world.

use vstd::prelude::*;

use crate::block_pos::BlockPos;

verus! {

/// The X and Z position of a chunk in a world.
#[derive(Clone, Copy, PartialEq, Eq, PartialOrd, Ord, Hash, Debug, Structural)]
pub struct ChunkPos {
    /// The X position of the chunk.
    pub x: i32,
    /// The Z position of the chunk.
    pub z: i32,
}

/// The chunk coordinate that a block coordinate falls in: the block
/// coordinate divided by 16, rounded towards negative infinity.
pub open spec fn chunk_coord(b: i32) -> int {
    b as int / 16
}

impl ChunkPos {
    pub fn new(x: i32, z: i32) -> (p: Self)
        ensures
            p == (ChunkPos { x, z }),
    {
        Self { x, z }
    }

    /// The chunk that contains the block at `pos`.
    pub fn from_block_pos(pos: BlockPos) -> (p: Self)
        ensures
            p.x == chunk_coord(pos.x),
            p.z == chunk_coord(pos.z),
            p.x * 16 <= pos.x < p.x * 16 + 16,
            p.z * 16 <= pos.z < p.z * 16 + 16,
    {
        Self::new(div_euclid_16(pos.x), div_euclid_16(pos.z))
    }

    /// The coordinates as a tuple `(x, z)`.
    pub fn to_tuple(self) -> (t: (i32, i32))
        ensures
            t == (self.x, self.z),
    {
        (self.x, self.z)
    }

    /// The coordinates as an array `[x, z]`.
    pub fn to_array(self) -> (a: [i32; 2])
        ensures
            a@ == seq![self.x, self.z],
    {
        let a = [self.x, self.z];
        assert(a@ =~= seq![self.x, self.z]);
        a
    }
}

/// `b` divided by 16, rounded towards negative infinity.
pub(crate) fn div_euclid_16(b: i32) -> (q: i32)
    ensures
        q == chunk_coord(b),
        q * 16 <= b < q * 16 + 16,
{
    match b.checked_div_euclid(16) {
        Some(q) => q,
        None => {
            assert(false);
            0
        },
    }
}

impl From<(i32, i32)> for ChunkPos {
    fn from(t: (i32, i32)) -> (p: Self) {
        ChunkPos { x: t.0, z: t.1 }
    }
}

impl vstd::std_specs::convert::FromSpecImpl<(i32, i32)> for ChunkPos {
    open spec fn obeys_from_spec() -> bool {
        true
    }

    open spec fn from_spec(t: (i32, i32)) -> Self {
        ChunkPos { x: t.0, z: t.1 }
    }
}

impl From<[i32; 2]> for ChunkPos {
    fn from(a: [i32; 2]) -> (p: Self) {
        ChunkPos { x: a[0], z: a[1] }
    }
}

impl vstd::std_specs::convert::FromSpecImpl<[i32; 2]> for ChunkPos {
    open spec fn obeys_from_spec() -> bool {
        true
    }

    open spec fn from_spec(a: [i32; 2]) -> Self {
        ChunkPos { x: a@[0], z: a@[1] }
    }
}

impl From<BlockPos> for ChunkPos {
    fn from(pos: BlockPos) -> (p: Self) {
        ChunkPos::from_block_pos(pos)
    }
}

impl vstd::std_specs::convert::FromSpecImpl<BlockPos> for ChunkPos {
    open spec fn obeys_from_spec() -> bool {
        true
    }

    open spec fn from_spec(pos: BlockPos) -> Self {
        ChunkPos { x: chunk_coord(pos.x) as i32, z: chunk_coord(pos.z) as i32 }
    }
}

/// Two blocks lie in the same chunk exactly when their coordinates agree
/// after division by 16; moving a block by 16 along X moves its chunk by one.
pub proof fn chunk_of_block_laws(b: i32)
    requires
        b <= i32::MAX - 16,
    ensures
        chunk_coord((b + 16) as i32) == chunk_coord(b) + 1,
        chunk_coord(b) * 16 <= b < chunk_coord(b) * 16 + 16,
{
}

/// A 64-bit key from two 32-bit halves, `hi` above `lo`.
pub open spec fn join_halves(hi: u32, lo: u32) -> u64 {
    ((hi as u64) << 32u64) | (lo as u64)
}

/// The map key of a chunk position.
pub open spec fn chunk_key(p: ChunkPos) -> u64 {
    join_halves(p.x as u32, p.z as u32)
}

/// Joining halves loses nothing: equal joins come from equal halves, and an
/// `i32` keeps its value through `u32`.
pub proof fn lemma_join_halves_injective(a: u32, b: u32, c: u32, d: u32)
    by (bit_vector)
    ensures
        (((a as u64) << 32u64) | (b as u64)) == (((c as u64) << 32u64) | (d as u64)) ==> a == c
            && b == d,
{
}

pub proof fn lemma_i32_as_u32_injective(a: i32, b: i32)
    by (bit_vector)
    ensures
        (a as u32) == (b as u32) ==> a == b,
{
}

pub proof fn lemma_chunk_key_injective(p: ChunkPos, q: ChunkPos)
    ensures
        chunk_key(p) == chunk_key(q) ==> p == q,
{
    lemma_join_halves_injective(p.x as u32, p.z as u32, q.x as u32, q.z as u32);
    lemma_i32_as_u32_injective(p.x, q.x);
    lemma_i32_as_u32_injective(p.z, q.z);
}

/// The map key of a chunk position.
pub(crate) fn chunk_key_of(p: ChunkPos) -> (k: u64)
    ensures
        k == chunk_key(p),
{
    ((p.x as u32 as u64) << 32u64) | (p.z as u32 as u64)
}

/// The chunk position that a map key stands for.
pub open spec fn pos_of_key(k: u64) -> ChunkPos {
    ChunkPos { x: (k >> 32u64) as u32 as i32, z: k as u32 as i32 }
}

/// A key and the position it stands for make each other.
pub proof fn lemma_pos_of_key_roundtrip(k: u64)
    ensures
        chunk_key(pos_of_key(k)) == k,
{
    let hi = (k >> 32u64) as u32;
    let lo = k as u32;
    assert((((hi as i32) as u32 as u64) << 32u64) | ((lo as i32) as u32 as u64) == k) by (bit_vector)
        requires
            hi == (k >> 32u64) as u32,
            lo == k as u32,
    ;
}

/// The chunk position that a map key stands for.
pub(crate) fn pos_of_key_exec(k: u64) -> (p: ChunkPos)
    ensures
        p == pos_of_key(k),
{
    ChunkPos { x: (k >> 32u64) as u32 as i32, z: k as u32 as i32 }
}

} // verus!
