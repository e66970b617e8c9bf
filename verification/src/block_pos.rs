//! The position of a block in a world.

use vstd::prelude::*;

use crate::protocol::{read_u64_be, write_u64_be, be_bytes_u64, be_u64, DecodeError, EncodeError};

verus! {

/// The position of a block: three signed integer coordinates.
#[derive(Clone, Copy, Default, PartialEq, Eq, Hash, Debug, Structural)]
pub struct BlockPos {
    pub x: i32,
    pub y: i32,
    pub z: i32,
}

/// Whether the protocol can carry `p`: 26 bits for `x` and `z`, 12 for `y`.
pub open spec fn block_pos_in_range(p: BlockPos) -> bool {
    &&& -0x200_0000 <= p.x <= 0x1ff_ffff
    &&& -0x800 <= p.y <= 0x7ff
    &&& -0x200_0000 <= p.z <= 0x1ff_ffff
}

/// The 64-bit word that carries `p`: `x` in the top 26 bits, `z` in the next
/// 26, `y` in the low 12.
pub open spec fn block_pos_pack(p: BlockPos) -> u64 {
    ((p.x as u64) << 38u64) | (((p.z as u64) << 38u64) >> 26u64) | ((p.y as u64) & 0xfffu64)
}

/// The position that a 64-bit word carries, each field sign-extended.
pub open spec fn block_pos_unpack(v: u64) -> BlockPos {
    let s = v as i64;
    BlockPos {
        x: (s >> 38u64) as i32,
        y: ((s << 52u64) >> 52u64) as i32,
        z: ((s << 26u64) >> 38u64) as i32,
    }
}

impl BlockPos {
    pub fn new(x: i32, y: i32, z: i32) -> (p: Self)
        ensures
            p == (BlockPos { x, y, z }),
    {
        Self { x, y, z }
    }

    /// Appends the eight bytes that carry this position, or fails when a
    /// coordinate is out of range; nothing is written then.
    pub fn encode(&self, w: &mut Vec<u8>) -> (r: Result<(), EncodeError>)
        ensures
            block_pos_in_range(*self) ==> r is Ok && final(w)@ == old(w)@ + be_bytes_u64(
                block_pos_pack(*self),
            ),
            !block_pos_in_range(*self) ==> r == Err::<(), EncodeError>(
                EncodeError::BlockPosOutOfRange,
            ) && final(w)@ == old(w)@,
    {
        if -0x2000000 <= self.x && self.x <= 0x1ffffff && -0x800 <= self.y && self.y <= 0x7ff
            && -0x2000000 <= self.z && self.z <= 0x1ffffff {
            let (x, y, z) = (self.x as u64, self.y as u64, self.z as u64);
            write_u64_be(w, x << 38 | z << 38 >> 26 | y & 0xfff);
            Ok(())
        } else {
            Err(EncodeError::BlockPosOutOfRange)
        }
    }

    /// Reads a position from the front of `r` and advances `r` past it.
    pub fn decode(r: &mut &[u8]) -> (res: Result<Self, DecodeError>)
        ensures
            old(r)@.len() >= 8 ==> res == Ok::<BlockPos, DecodeError>(
                block_pos_unpack(be_u64(old(r)@)),
            ) && final(r)@ == old(r)@.skip(8),
            old(r)@.len() < 8 ==> res == Err::<BlockPos, DecodeError>(DecodeError::UnexpectedEof),
    {
        let v = read_u64_be(r)?;
        let val = v as i64;
        let x = val >> 38;
        let z = val << 26 >> 38;
        let y = val << 52 >> 52;
        Ok(Self { x: x as i32, y: y as i32, z: z as i32 })
    }
}

/// Every position in range is carried exactly: unpacking the word that
/// packing gives returns the same position.
pub proof fn lemma_block_pos_roundtrip(p: BlockPos)
    requires
        block_pos_in_range(p),
    ensures
        block_pos_unpack(block_pos_pack(p)) == p,
{
    lemma_block_pos_bits(p.x, p.y, p.z);
}

proof fn lemma_block_pos_bits(x: i32, y: i32, z: i32)
    by (bit_vector)
    requires
        -0x200_0000 <= x <= 0x1ff_ffff,
        -0x800 <= y <= 0x7ff,
        -0x200_0000 <= z <= 0x1ff_ffff,
    ensures
        (((((x as u64) << 38u64) | (((z as u64) << 38u64) >> 26u64) | ((y as u64) & 0xfffu64)) as i64) >> 38u64) as i32 == x,
        ((((((x as u64) << 38u64) | (((z as u64) << 38u64) >> 26u64) | ((y as u64) & 0xfffu64)) as i64) << 52u64) >> 52u64) as i32 == y,
        ((((((x as u64) << 38u64) | (((z as u64) << 38u64) >> 26u64) | ((y as u64) & 0xfffu64)) as i64) << 26u64) >> 38u64) as i32 == z,
{
}

proof fn lemma_pack_fields(x: i32, y: i32, z: i32)
    by (bit_vector)
    ensures
        ((x as u64) << 38u64) | (((z as u64) << 38u64) >> 26u64) | ((y as u64) & 0xfffu64) == ((x as u64)
            & 0x3ff_ffffu64) * 0x40_0000_0000u64 + ((z as u64) & 0x3ff_ffffu64) * 0x1000u64 + ((y as u64)
            & 0xfffu64),
        (x as u64) & 0x3ff_ffffu64 == (x as u64) % 0x400_0000u64,
        (z as u64) & 0x3ff_ffffu64 == (z as u64) % 0x400_0000u64,
        (y as u64) & 0xfffu64 == (y as u64) % 0x1000u64,
{
}

proof fn lemma_low_bits(v: i32, m: int)
    requires
        m == 0x400_0000 || m == 0x1000,
    ensures
        ((v as u64) as int) % m == (v as int) % m,
{
    if v < 0 {
        assert((v as u64) == 0xffff_ffff_ffff_ffffu64 - ((-(v as i64) - 1) as u64)) by (bit_vector)
            requires
                v < 0,
        ;
        assert((v as u64) as int == v as int + 0x1_0000_0000_0000_0000);
        if m == 0x400_0000 {
            vstd::arithmetic::div_mod::lemma_mod_multiples_vanish(0x40_0000_0000, v as int, m);
            assert(m * 0x40_0000_0000 + v as int == v as int + 0x1_0000_0000_0000_0000);
        } else {
            vstd::arithmetic::div_mod::lemma_mod_multiples_vanish(0x10_0000_0000_0000, v as int, m);
            assert(m * 0x10_0000_0000_0000 + v as int == v as int + 0x1_0000_0000_0000_0000);
        }
    }
}

/// The word that carries a position holds its coordinates, each taken
/// modulo the power of two of its width (two's complement): `x` times
/// 2^38, plus `z` times 2^12, plus `y`.
pub proof fn block_pos_layout_law(p: BlockPos)
    requires
        block_pos_in_range(p),
    ensures
        block_pos_pack(p) as int == (p.x as int) % 0x400_0000 * 0x40_0000_0000 + (p.z as int) % 0x400_0000
            * 0x1000 + (p.y as int) % 0x1000,
{
    lemma_pack_fields(p.x, p.y, p.z);
    lemma_low_bits(p.x, 0x400_0000);
    lemma_low_bits(p.z, 0x400_0000);
    lemma_low_bits(p.y, 0x1000);
}

/// A position written by `encode` and read back by `decode` is the same
/// position, and exactly eight bytes are read.
pub proof fn block_pos_encode_decode_law(p: BlockPos, rest: Seq<u8>)
    requires
        block_pos_in_range(p),
    ensures
        block_pos_unpack(be_u64(be_bytes_u64(block_pos_pack(p)) + rest)) == p,
        (be_bytes_u64(block_pos_pack(p)) + rest).len() >= 8,
{
    crate::protocol::lemma_u64_be_roundtrip(block_pos_pack(p), rest);
    lemma_block_pos_roundtrip(p);
}

impl From<(i32, i32, i32)> for BlockPos {
    fn from(t: (i32, i32, i32)) -> (p: Self) {
        BlockPos::new(t.0, t.1, t.2)
    }
}

impl vstd::std_specs::convert::FromSpecImpl<(i32, i32, i32)> for BlockPos {
    open spec fn obeys_from_spec() -> bool {
        true
    }

    open spec fn from_spec(t: (i32, i32, i32)) -> Self {
        BlockPos { x: t.0, y: t.1, z: t.2 }
    }
}

impl From<[i32; 3]> for BlockPos {
    fn from(a: [i32; 3]) -> (p: Self) {
        BlockPos::new(a[0], a[1], a[2])
    }
}

impl vstd::std_specs::convert::FromSpecImpl<[i32; 3]> for BlockPos {
    open spec fn obeys_from_spec() -> bool {
        true
    }

    open spec fn from_spec(a: [i32; 3]) -> Self {
        BlockPos { x: a@[0], y: a@[1], z: a@[2] }
    }
}

impl BlockPos {
    /// The coordinates as a tuple `(x, y, z)`.
    pub fn to_tuple(self) -> (t: (i32, i32, i32))
        ensures
            t == (self.x, self.y, self.z),
    {
        (self.x, self.y, self.z)
    }

    /// The coordinates as an array `[x, y, z]`.
    pub fn to_array(self) -> (a: [i32; 3])
        ensures
            a@ == seq![self.x, self.y, self.z],
    {
        let a = [self.x, self.y, self.z];
        assert(a@ =~= seq![self.x, self.y, self.z]);
        a
    }
}

} // verus!
