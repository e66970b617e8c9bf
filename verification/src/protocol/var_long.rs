//! `VarLong`: an `i64` written with a variable number of bytes, seven bits per
//! byte, least significant group first, the high bit of each byte telling
//! whether another byte follows.

use vstd::prelude::*;

use crate::protocol::{advance, DecodeError, EncodeError};

verus! {

/// An `i64` encoded with variable length.
#[derive(Clone, Copy, Default, PartialEq, Eq, PartialOrd, Ord, Hash, Debug, Structural)]
pub struct VarLong(pub i64);

/// Number of bytes of the encoding of the 64-bit pattern `v`.
pub open spec fn varlong_size(v: u64) -> nat {
    if v < 0x80 {
        1
    } else if v < 0x4000 {
        2
    } else if v < 0x200000 {
        3
    } else if v < 0x10000000 {
        4
    } else if v < 0x800000000 {
        5
    } else if v < 0x40000000000 {
        6
    } else if v < 0x2000000000000 {
        7
    } else if v < 0x100000000000000 {
        8
    } else if v < 0x8000000000000000 {
        9
    } else {
        10
    }
}

/// Byte `i` of an encoding of `v` that is `n` bytes long: seven bits of `v`,
/// with the high bit set on every byte but the last.
pub open spec fn varlong_byte(v: u64, i: nat, n: nat) -> u8 {
    let low = ((v >> ((7 * i) as u64)) & 0x7f) as u8;
    if i + 1 < n {
        low | 0x80
    } else {
        low
    }
}

/// The bytes that encode the 64-bit pattern `v`.
pub open spec fn varlong_bytes(v: u64) -> Seq<u8> {
    Seq::new(varlong_size(v), |i: int| varlong_byte(v, i as nat, varlong_size(v)))
}

/// Reads a VarLong from `s` starting at byte `i`, with `acc` holding the bits
/// of the bytes before.
pub open spec fn varlong_decode_from(s: Seq<u8>, i: nat, acc: u64) -> Result<(u64, nat), DecodeError>
    decreases 10 - i,
{
    if i >= 10 {
        Err(DecodeError::VarIntTooLarge)
    } else if i >= s.len() {
        Err(DecodeError::UnexpectedEof)
    } else {
        let b = s[i as int];
        let acc2 = acc | (((b & 0x7f) as u64) << ((7 * i) as u64));
        if b & 0x80 == 0 {
            Ok((acc2, i + 1))
        } else {
            varlong_decode_from(s, i + 1, acc2)
        }
    }
}

/// A VarLong read from byte `i` ends after it, within `s`.
pub proof fn lemma_varlong_decode_len(s: Seq<u8>, i: nat, acc: u64)
    ensures
        varlong_decode_from(s, i, acc) matches Ok((v, n)) ==> i < n <= s.len(),
    decreases 10 - i,
{
    if i < 10 && i < s.len() {
        let b = s[i as int];
        let acc2 = acc | (((b & 0x7f) as u64) << ((7 * i) as u64));
        if b & 0x80 != 0 {
            lemma_varlong_decode_len(s, i + 1, acc2);
        }
    }
}

/// What decoding a VarLong from the front of `s` gives.
pub open spec fn varlong_decode(s: Seq<u8>) -> Result<(u64, nat), DecodeError> {
    varlong_decode_from(s, 0, 0)
}

impl VarLong {
    /// The maximum number of bytes a `VarLong` can occupy when read from and
    /// written to the Minecraft protocol.
    pub const MAX_SIZE: usize = 10;

    /// Appends the encoding of this value to `w`.
    pub fn encode(&self, w: &mut Vec<u8>) -> (r: Result<(), EncodeError>)
        ensures
            r is Ok,
            final(w)@ == old(w)@ + varlong_bytes(self.0 as u64),
    {
        let ghost v = self.0 as u64;
        let ghost w0 = w@;
        let mut val: u64 = self.0 as u64;
        let mut k: u64 = 0;
        proof {
            lemma_varlong_step_bits(v, 0);
        }
        loop
            invariant
                k < 10,
                k < varlong_size(v),
                w0 == old(w)@,
                v == self.0 as u64,
                val == v >> ((7 * k) as u64),
                w@ == w0 + varlong_bytes(v).take(k as int),
            decreases 10 - k,
        {
            proof {
                lemma_varlong_step_bits(v, k);
            }
            if val & 0b1111111111111111111111111111111111111111111111111111111110000000 == 0 {
                w.push(val as u8);
                assert(varlong_bytes(v)[k as int] == val as u8);
                assert(w@ =~= w0 + varlong_bytes(v));
                return Ok(());
            }
            w.push(val as u8 & 0b01111111 | 0b10000000);
            assert(varlong_bytes(v)[k as int] == val as u8 & 0b01111111 | 0b10000000);
            assert(w@ =~= w0 + varlong_bytes(v).take(k + 1));
            val = val >> 7;
            k = k + 1;
        }
    }

    /// Reads a VarLong from the front of `r` and advances `r` past it.
    ///
    /// On an error, `r` has been advanced past the bytes that were read:
    /// all of them when the input ended early, ten when the value was too
    /// long.
    pub fn decode(r: &mut &[u8]) -> (res: Result<VarLong, DecodeError>)
        ensures
            match varlong_decode(old(r)@) {
                Ok((v, n)) => res == Ok::<VarLong, DecodeError>(VarLong(v as i64)) && final(r)@
                    == old(r)@.skip(n as int),
                Err(e) => res == Err::<VarLong, DecodeError>(e) && final(r)@ == old(r)@.skip(
                    if old(r)@.len() < 10 { old(r)@.len() as int } else { 10 },
                ),
            },
    {
        let s: &[u8] = *r;
        let mut val: u64 = 0;
        let mut i: usize = 0;
        while i < 10
            invariant
                0 <= i <= 10,
                i <= s@.len(),
                s@ == old(r)@,
                r@ == s@,
                varlong_decode(s@) == varlong_decode_from(s@, i as nat, val),
            decreases 10 - i,
        {
            if i >= s.len() {
                advance(r, s.len());
                return Err(DecodeError::UnexpectedEof);
            }
            let byte = s[i];
            val = val | (((byte & 0b01111111) as u64) << ((7 * i) as u64));
            i = i + 1;
            if byte & 0b10000000 == 0 {
                advance(r, i);
                return Ok(VarLong(val as i64));
            }
        }
        advance(r, 10);
        Err(DecodeError::VarIntTooLarge)
    }
}

/// Decoding the bytes that encode `v`, followed by anything, gives back `v`
/// and reads exactly those bytes; the encoding is at most ten bytes long.
pub proof fn lemma_varlong_roundtrip(v: i64, rest: Seq<u8>)
    ensures
        varlong_decode(varlong_bytes(v as u64) + rest) == Ok::<(u64, nat), DecodeError>(
            (v as u64, varlong_size(v as u64)),
        ),
        (v as u64) as i64 == v,
        varlong_bytes(v as u64).len() <= 10,
{
    let u = v as u64;
    let n = varlong_size(u);
    let s = varlong_bytes(u) + rest;
    reveal_with_fuel(varlong_decode_from, 11);
    let b0 = ((u >> 0u64) & 0x7f) as u8;
    let b1 = ((u >> 7u64) & 0x7f) as u8;
    let b2 = ((u >> 14u64) & 0x7f) as u8;
    let b3 = ((u >> 21u64) & 0x7f) as u8;
    let b4 = ((u >> 28u64) & 0x7f) as u8;
    let b5 = ((u >> 35u64) & 0x7f) as u8;
    let b6 = ((u >> 42u64) & 0x7f) as u8;
    let b7 = ((u >> 49u64) & 0x7f) as u8;
    let b8 = ((u >> 56u64) & 0x7f) as u8;
    let b9 = ((u >> 63u64) & 0x7f) as u8;
    lemma_varlong_roundtrip_bits(v, u, b0, b1, b2, b3, b4, b5, b6, b7, b8, b9);
    if n >= 1 {
        assert(s[0] == varlong_byte(u, 0, n));
    }
    if n >= 2 {
        assert(s[1] == varlong_byte(u, 1, n));
    }
    if n >= 3 {
        assert(s[2] == varlong_byte(u, 2, n));
    }
    if n >= 4 {
        assert(s[3] == varlong_byte(u, 3, n));
    }
    if n >= 5 {
        assert(s[4] == varlong_byte(u, 4, n));
    }
    if n >= 6 {
        assert(s[5] == varlong_byte(u, 5, n));
    }
    if n >= 7 {
        assert(s[6] == varlong_byte(u, 6, n));
    }
    if n >= 8 {
        assert(s[7] == varlong_byte(u, 7, n));
    }
    if n >= 9 {
        assert(s[8] == varlong_byte(u, 8, n));
    }
    if n >= 10 {
        assert(s[9] == varlong_byte(u, 9, n));
    }
}

/// The bit facts that decoding an encoded VarLong rests on, for each
/// possible length.
proof fn lemma_varlong_roundtrip_bits(v: i64, u: u64, b0: u8, b1: u8, b2: u8, b3: u8, b4: u8, b5: u8, b6: u8, b7: u8, b8: u8, b9: u8)
    by (bit_vector)
    requires
        u == v as u64,
        b0 == ((u >> 0u64) & 0x7f) as u8,
        b1 == ((u >> 7u64) & 0x7f) as u8,
        b2 == ((u >> 14u64) & 0x7f) as u8,
        b3 == ((u >> 21u64) & 0x7f) as u8,
        b4 == ((u >> 28u64) & 0x7f) as u8,
        b5 == ((u >> 35u64) & 0x7f) as u8,
        b6 == ((u >> 42u64) & 0x7f) as u8,
        b7 == ((u >> 49u64) & 0x7f) as u8,
        b8 == ((u >> 56u64) & 0x7f) as u8,
        b9 == ((u >> 63u64) & 0x7f) as u8,
    ensures
        (u as i64) == v,
        u >> 0u64 == u,
        (b0 | 0x80) & 0x80 != 0 && b0 & 0x80 == 0 && ((b0 | 0x80) & 0x7f) == b0 && b0 & 0x7f == b0,
        (b1 | 0x80) & 0x80 != 0 && b1 & 0x80 == 0 && ((b1 | 0x80) & 0x7f) == b1 && b1 & 0x7f == b1,
        (b2 | 0x80) & 0x80 != 0 && b2 & 0x80 == 0 && ((b2 | 0x80) & 0x7f) == b2 && b2 & 0x7f == b2,
        (b3 | 0x80) & 0x80 != 0 && b3 & 0x80 == 0 && ((b3 | 0x80) & 0x7f) == b3 && b3 & 0x7f == b3,
        (b4 | 0x80) & 0x80 != 0 && b4 & 0x80 == 0 && ((b4 | 0x80) & 0x7f) == b4 && b4 & 0x7f == b4,
        (b5 | 0x80) & 0x80 != 0 && b5 & 0x80 == 0 && ((b5 | 0x80) & 0x7f) == b5 && b5 & 0x7f == b5,
        (b6 | 0x80) & 0x80 != 0 && b6 & 0x80 == 0 && ((b6 | 0x80) & 0x7f) == b6 && b6 & 0x7f == b6,
        (b7 | 0x80) & 0x80 != 0 && b7 & 0x80 == 0 && ((b7 | 0x80) & 0x7f) == b7 && b7 & 0x7f == b7,
        (b8 | 0x80) & 0x80 != 0 && b8 & 0x80 == 0 && ((b8 | 0x80) & 0x7f) == b8 && b8 & 0x7f == b8,
        b9 & 0x80 == 0 && b9 & 0x7f == b9,
        u < 0x80 ==> (0u64 | ((b0 as u64) << 0u64)) == u,
        u < 0x4000 ==> ((0u64 | ((b0 as u64) << 0u64)) | ((b1 as u64) << 7u64)) == u,
        u < 0x200000 ==> (((0u64 | ((b0 as u64) << 0u64)) | ((b1 as u64) << 7u64)) | ((b2 as u64) << 14u64)) == u,
        u < 0x10000000 ==> ((((0u64 | ((b0 as u64) << 0u64)) | ((b1 as u64) << 7u64)) | ((b2 as u64) << 14u64)) | ((b3 as u64) << 21u64)) == u,
        u < 0x800000000 ==> (((((0u64 | ((b0 as u64) << 0u64)) | ((b1 as u64) << 7u64)) | ((b2 as u64) << 14u64)) | ((b3 as u64) << 21u64)) | ((b4 as u64) << 28u64)) == u,
        u < 0x40000000000 ==> ((((((0u64 | ((b0 as u64) << 0u64)) | ((b1 as u64) << 7u64)) | ((b2 as u64) << 14u64)) | ((b3 as u64) << 21u64)) | ((b4 as u64) << 28u64)) | ((b5 as u64) << 35u64)) == u,
        u < 0x2000000000000 ==> (((((((0u64 | ((b0 as u64) << 0u64)) | ((b1 as u64) << 7u64)) | ((b2 as u64) << 14u64)) | ((b3 as u64) << 21u64)) | ((b4 as u64) << 28u64)) | ((b5 as u64) << 35u64)) | ((b6 as u64) << 42u64)) == u,
        u < 0x100000000000000 ==> ((((((((0u64 | ((b0 as u64) << 0u64)) | ((b1 as u64) << 7u64)) | ((b2 as u64) << 14u64)) | ((b3 as u64) << 21u64)) | ((b4 as u64) << 28u64)) | ((b5 as u64) << 35u64)) | ((b6 as u64) << 42u64)) | ((b7 as u64) << 49u64)) == u,
        u < 0x8000000000000000 ==> (((((((((0u64 | ((b0 as u64) << 0u64)) | ((b1 as u64) << 7u64)) | ((b2 as u64) << 14u64)) | ((b3 as u64) << 21u64)) | ((b4 as u64) << 28u64)) | ((b5 as u64) << 35u64)) | ((b6 as u64) << 42u64)) | ((b7 as u64) << 49u64)) | ((b8 as u64) << 56u64)) == u,
        ((((((((((0u64 | ((b0 as u64) << 0u64)) | ((b1 as u64) << 7u64)) | ((b2 as u64) << 14u64)) | ((b3 as u64) << 21u64)) | ((b4 as u64) << 28u64)) | ((b5 as u64) << 35u64)) | ((b6 as u64) << 42u64)) | ((b7 as u64) << 49u64)) | ((b8 as u64) << 56u64)) | ((b9 as u64) << 63u64)) == u,
{
}

/// Bit facts behind one step of the encoding loop.
proof fn lemma_varlong_step_bits(v: u64, k: u64)
    by (bit_vector)
    requires
        k < 10,
    ensures
        ((v >> ((7 * k) as u64)) & 0xffff_ffff_ffff_ff80 == 0) <==> ((k == 0 && v < 0x80) || (k == 1 && v < 0x4000) || (k == 2 && v < 0x200000) || (k == 3 && v < 0x10000000) || (k == 4 && v < 0x800000000) || (k == 5 && v < 0x40000000000) || (k == 6 && v < 0x2000000000000) || (k == 7 && v < 0x100000000000000) || (k == 8 && v < 0x8000000000000000) || k == 9),
        (v >> ((7 * k) as u64)) & 0xffff_ffff_ffff_ff80 == 0 ==> (v >> ((7 * k) as u64)) as u8
            == ((v >> ((7 * k) as u64)) & 0x7f) as u8,
        ((v >> ((7 * k) as u64)) as u8 & 0x7f | 0x80) == ((((v >> ((7 * k) as u64)) & 0x7f)
            as u8) | 0x80),
        (v >> ((7 * k) as u64)) >> 7 == v >> ((7 * (k + 1)) as u64),
        v >> 0u64 == v,
{
}

} // verus!
