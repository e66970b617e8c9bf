//! `VarInt`: an `i32` written with a variable number of bytes, seven bits per
//! byte, least significant group first, the high bit of each byte telling
//! whether another byte follows.

use vstd::prelude::*;

use crate::protocol::{advance, DecodeError, EncodeError};

verus! {

/// An `i32` encoded with variable length.
#[derive(Clone, Copy, Default, PartialEq, Eq, PartialOrd, Ord, Hash, Debug, Structural)]
pub struct VarInt(pub i32);

/// The maximum number of bytes a VarInt could occupy when read from and
/// written to the Minecraft protocol.
pub const VAR_INT_MAX_SIZE: usize = 5;

/// Number of bytes of the encoding of the 32-bit pattern `v`.
pub open spec fn varint_size(v: u32) -> nat {
    if v < 0x80 {
        1
    } else if v < 0x4000 {
        2
    } else if v < 0x20_0000 {
        3
    } else if v < 0x1000_0000 {
        4
    } else {
        5
    }
}

/// Byte `i` of an encoding of `v` that is `n` bytes long: seven bits of `v`,
/// with the high bit set on every byte but the last.
pub open spec fn varint_byte(v: u32, i: nat, n: nat) -> u8 {
    let low = ((v >> ((7 * i) as u32)) & 0x7f) as u8;
    if i + 1 < n {
        low | 0x80
    } else {
        low
    }
}

/// The bytes that encode the 32-bit pattern `v`.
pub open spec fn varint_bytes(v: u32) -> Seq<u8> {
    Seq::new(varint_size(v), |i: int| varint_byte(v, i as nat, varint_size(v)))
}

/// Reads a VarInt from `s` starting at byte `i`, with `acc` holding the bits
/// of the bytes before. Gives the 32-bit pattern and the number of bytes
/// read, or the error the reader reports.
pub open spec fn varint_decode_from(s: Seq<u8>, i: nat, acc: u32) -> Result<(u32, nat), DecodeError>
    decreases 5 - i,
{
    if i >= 5 {
        Err(DecodeError::VarIntTooLarge)
    } else if i >= s.len() {
        Err(DecodeError::UnexpectedEof)
    } else {
        let b = s[i as int];
        let acc2 = acc | (((b & 0x7f) as u32) << ((7 * i) as u32));
        if b & 0x80 == 0 {
            Ok((acc2, i + 1))
        } else {
            varint_decode_from(s, i + 1, acc2)
        }
    }
}

/// What decoding a VarInt from the front of `s` gives.
pub open spec fn varint_decode(s: Seq<u8>) -> Result<(u32, nat), DecodeError> {
    varint_decode_from(s, 0, 0)
}

impl VarInt {
    /// The maximum number of bytes a VarInt could occupy.
    pub const MAX_SIZE: usize = 5;

    /// The number of bytes this `VarInt` will occupy when written to the
    /// Minecraft protocol.
    pub fn written_size(self) -> (n: usize)
        ensures
            n == varint_size(self.0 as u32),
            n == varint_bytes(self.0 as u32).len(),
            1 <= n <= Self::MAX_SIZE,
    {
        let val = self.0 as u32;
        assert({
            &&& (val & 0xf000_0000 != 0 ==> val >= 0x1000_0000)
            &&& (val & 0xf000_0000 == 0 && val & 0xffe0_0000 != 0 ==> 0x20_0000 <= val < 0x1000_0000)
            &&& (val & 0xffe0_0000 == 0 && val & 0xffff_c000 != 0 ==> 0x4000 <= val < 0x20_0000)
            &&& (val & 0xffff_c000 == 0 && val & 0xffff_ff80 != 0 ==> 0x80 <= val < 0x4000)
            &&& (val & 0xffff_ff80 == 0 ==> val < 0x80)
        }) by (bit_vector);
        if val & 0b11110000_00000000_00000000_00000000 != 0 {
            5
        } else if val & 0b11111111_11100000_00000000_00000000 != 0 {
            4
        } else if val & 0b11111111_11111111_11000000_00000000 != 0 {
            3
        } else if val & 0b11111111_11111111_11111111_10000000 != 0 {
            2
        } else {
            1
        }
    }

    /// Appends the encoding of this value to `w`.
    pub fn encode(&self, w: &mut Vec<u8>) -> (r: Result<(), EncodeError>)
        ensures
            r is Ok,
            final(w)@ == old(w)@ + varint_bytes(self.0 as u32),
    {
        let ghost v = self.0 as u32;
        let ghost w0 = w@;
        let mut val: u32 = self.0 as u32;
        let mut k: u32 = 0;
        proof {
            lemma_varint_step_bits(v, 0);
        }
        loop
            invariant
                k < 5,
                k < varint_size(v),
                w0 == old(w)@,
                v == self.0 as u32,
                val == v >> ((7 * k) as u32),
                w@ == w0 + varint_bytes(v).take(k as int),
            decreases 5 - k,
        {
            proof {
                lemma_varint_step(v, k);
            }
            if val & 0b11111111111111111111111110000000 == 0 {
                w.push(val as u8);
                assert(varint_bytes(v)[k as int] == val as u8);
                assert(w@ =~= w0 + varint_bytes(v));
                return Ok(());
            }
            w.push(val as u8 & 0b01111111 | 0b10000000);
            assert(varint_bytes(v)[k as int] == val as u8 & 0b01111111 | 0b10000000);
            assert(w@ =~= w0 + varint_bytes(v).take(k + 1));
            val = val >> 7;
            k = k + 1;
        }
    }

    /// Reads a VarInt from the front of `r` and advances `r` past it.
    ///
    /// On an error, `r` has been advanced past the bytes that were read:
    /// all of them when the input ended early, five when the value was too
    /// long.
    pub fn decode(r: &mut &[u8]) -> (res: Result<VarInt, DecodeError>)
        ensures
            match varint_decode(old(r)@) {
                Ok((v, n)) => res == Ok::<VarInt, DecodeError>(VarInt(v as i32)) && final(r)@
                    == old(r)@.skip(n as int),
                Err(e) => res == Err::<VarInt, DecodeError>(e) && final(r)@ == old(r)@.skip(
                    if old(r)@.len() < 5 { old(r)@.len() as int } else { 5 },
                ),
            },
    {
        let s: &[u8] = *r;
        let mut val: u32 = 0;
        let mut i: usize = 0;
        while i < 5
            invariant
                0 <= i <= 5,
                i <= s@.len(),
                s@ == old(r)@,
                r@ == s@,
                varint_decode(s@) == varint_decode_from(s@, i as nat, val),
            decreases 5 - i,
        {
            if i >= s.len() {
                advance(r, s.len());
                return Err(DecodeError::UnexpectedEof);
            }
            let byte = s[i];
            val = val | (((byte & 0b01111111) as u32) << ((7 * i) as u32));
            i = i + 1;
            if byte & 0b10000000 == 0 {
                advance(r, i);
                return Ok(VarInt(val as i32));
            }
        }
        advance(r, 5);
        Err(DecodeError::VarIntTooLarge)
    }
}

/// A successful decode reads at least one byte and no more than there are.
pub proof fn lemma_varint_decode_len(s: Seq<u8>, i: nat, acc: u32)
    ensures
        varint_decode_from(s, i, acc) matches Ok((v, n)) ==> i < n <= s.len() && n <= 5,
    decreases 5 - i,
{
    if i < 5 && i < s.len() {
        let b = s[i as int];
        let acc2 = acc | (((b & 0x7f) as u32) << ((7 * i) as u32));
        if b & 0x80 != 0 {
            lemma_varint_decode_len(s, i + 1, acc2);
        }
    }
}

/// A number below 128 is written as the single byte that holds it.
pub proof fn lemma_small_varint_bytes(v: u32)
    requires
        v < 0x80,
    ensures
        varint_bytes(v) == seq![v as u8],
{
    assert(((v >> 0u32) & 0x7f) as u8 == v as u8) by (bit_vector)
        requires
            v < 0x80,
    ;
    assert(varint_bytes(v)[0] == varint_byte(v, 0, 1));
    assert(varint_bytes(v) =~= seq![v as u8]);
}

/// Decoding the bytes that encode `v`, followed by anything, gives back `v`
/// and reads exactly those bytes; the encoding is at most five bytes long.
pub proof fn lemma_varint_roundtrip(v: i32, rest: Seq<u8>)
    ensures
        varint_decode(varint_bytes(v as u32) + rest) == Ok::<(u32, nat), DecodeError>(
            (v as u32, varint_size(v as u32)),
        ),
        (v as u32) as i32 == v,
        varint_bytes(v as u32).len() <= 5,
{
    let u = v as u32;
    let n = varint_size(u);
    let s = varint_bytes(u) + rest;
    reveal_with_fuel(varint_decode_from, 6);
    let b0 = (u & 0x7f) as u8;
    let b1 = ((u >> 7u32) & 0x7f) as u8;
    let b2 = ((u >> 14u32) & 0x7f) as u8;
    let b3 = ((u >> 21u32) & 0x7f) as u8;
    let b4 = ((u >> 28u32) & 0x7f) as u8;
    lemma_varint_roundtrip_bits(v, u, b0, b1, b2, b3, b4);
    assert(s[0] == varint_byte(u, 0, n));
    if n >= 2 {
        assert(s[1] == varint_byte(u, 1, n));
    }
    if n >= 3 {
        assert(s[2] == varint_byte(u, 2, n));
    }
    if n >= 4 {
        assert(s[3] == varint_byte(u, 3, n));
    }
    if n >= 5 {
        assert(s[4] == varint_byte(u, 4, n));
    }
}

/// The bit facts that decoding an encoded VarInt rests on: the continuation
/// bits, the seven-bit groups, and how the groups put back together give
/// the value, for each possible length.
proof fn lemma_varint_roundtrip_bits(v: i32, u: u32, b0: u8, b1: u8, b2: u8, b3: u8, b4: u8)
    by (bit_vector)
    requires
        u == v as u32,
        b0 == (u & 0x7f) as u8,
        b1 == ((u >> 7u32) & 0x7f) as u8,
        b2 == ((u >> 14u32) & 0x7f) as u8,
        b3 == ((u >> 21u32) & 0x7f) as u8,
        b4 == ((u >> 28u32) & 0x7f) as u8,
    ensures
        (u as i32) == v,
        u >> 0u32 == u,
        (b0 | 0x80) & 0x80 != 0 && b0 & 0x80 == 0 && ((b0 | 0x80) & 0x7f) == b0 && b0 & 0x7f == b0,
        (b1 | 0x80) & 0x80 != 0 && b1 & 0x80 == 0 && ((b1 | 0x80) & 0x7f) == b1 && b1 & 0x7f == b1,
        (b2 | 0x80) & 0x80 != 0 && b2 & 0x80 == 0 && ((b2 | 0x80) & 0x7f) == b2 && b2 & 0x7f == b2,
        (b3 | 0x80) & 0x80 != 0 && b3 & 0x80 == 0 && ((b3 | 0x80) & 0x7f) == b3 && b3 & 0x7f == b3,
        b4 & 0x80 == 0 && b4 & 0x7f == b4,
        u < 0x80 ==> 0u32 | ((b0 as u32) << 0u32) == u,
        u < 0x4000 ==> (0u32 | ((b0 as u32) << 0u32)) | ((b1 as u32) << 7u32) == u,
        u < 0x20_0000 ==> ((0u32 | ((b0 as u32) << 0u32)) | ((b1 as u32) << 7u32)) | ((b2 as u32)
            << 14u32) == u,
        u < 0x1000_0000 ==> (((0u32 | ((b0 as u32) << 0u32)) | ((b1 as u32) << 7u32)) | ((b2
            as u32) << 14u32)) | ((b3 as u32) << 21u32) == u,
        ((((0u32 | ((b0 as u32) << 0u32)) | ((b1 as u32) << 7u32)) | ((b2 as u32) << 14u32)) | ((b3
            as u32) << 21u32)) | ((b4 as u32) << 28u32) == u,
{
}

/// Bit facts behind one step of the encoding loop.
proof fn lemma_varint_step_bits(v: u32, k: u32)
    by (bit_vector)
    requires
        k < 5,
    ensures
        ((v >> ((7 * k) as u32)) & 0xffff_ff80 == 0) <==> ((k == 0 && v < 0x80) || (k == 1 && v
            < 0x4000) || (k == 2 && v < 0x20_0000) || (k == 3 && v < 0x1000_0000) || k == 4),
        (v >> ((7 * k) as u32)) & 0xffff_ff80 == 0 ==> (v >> ((7 * k) as u32)) as u8 == ((v >> ((7
            * k) as u32)) & 0x7f) as u8,
        ((v >> ((7 * k) as u32)) as u8 & 0x7f | 0x80) == ((((v >> ((7 * k) as u32)) & 0x7f) as u8)
            | 0x80),
        (v >> ((7 * k) as u32)) >> 7 == v >> ((7 * (k + 1)) as u32),
        v >> 0u32 == v,
{
}

/// One step of the encoding loop: whether byte `k` is the last one, and how
/// the value left to write moves on.
proof fn lemma_varint_step(v: u32, k: u32)
    requires
        k < 5,
    ensures
        ((v >> ((7 * k) as u32)) & 0xffff_ff80 == 0) <==> varint_size(v) <= k + 1,
        (v >> ((7 * k) as u32)) & 0xffff_ff80 == 0 ==> (v >> ((7 * k) as u32)) as u8 == ((v >> ((7
            * k) as u32)) & 0x7f) as u8,
        ((v >> ((7 * k) as u32)) as u8 & 0x7f | 0x80) == ((((v >> ((7 * k) as u32)) & 0x7f) as u8)
            | 0x80),
        (v >> ((7 * k) as u32)) >> 7 == v >> ((7 * (k + 1)) as u32),
{
    lemma_varint_step_bits(v, k);
}

/// A `u32` keeps its bits through `i32`.
pub proof fn lemma_u32_through_i32(v: u32)
    by (bit_vector)
    ensures
        ((v as i32) as u32) == v,
{
}

/// A `usize` cut to `i32` has the low 32 bits of the `usize`.
pub proof fn lemma_usize_through_i32(n: usize)
    by (bit_vector)
    ensures
        ((n as i32) as u32) == (n as u32),
{
}

} // verus!
