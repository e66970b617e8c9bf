//! The wire format of the Minecraft protocol: how values are written to and
//! read from bytes.

use vstd::prelude::*;

pub mod var_int;
pub mod var_long;
pub mod codec;
pub mod byte_angle;
pub mod byte_channel;
pub mod node;
pub mod c2s;
pub mod c2s_text;

pub use var_int::VarInt;
pub use var_long::VarLong;

verus! {

/// Why a value could not be read from a byte stream.
#[derive(Clone, Copy, PartialEq, Eq, Debug, Structural)]
pub enum DecodeError {
    /// The input ended before the value was complete.
    UnexpectedEof,
    /// A variable-length integer used more bytes than its type allows.
    VarIntTooLarge,
    /// A boolean byte was neither 0 nor 1.
    InvalidBool,
    /// A length prefix was negative or outside the accepted range.
    LengthOutOfBounds,
    /// The bytes of a string were not valid UTF-8.
    InvalidUtf8,
    /// The number of characters of a string was outside the accepted range.
    CharCountOutOfBounds,
    /// An integer was outside the accepted range.
    IntegerOutOfBounds,
    /// An enumeration tag named no variant.
    InvalidVariant,
    /// A string was not a valid resource identifier.
    InvalidIdent,
    /// A floating-point number was infinite or not a number.
    NonFiniteFloat,
}

/// Why a value could not be written.
#[derive(Clone, Copy, PartialEq, Eq, Debug, Structural)]
pub enum EncodeError {
    /// A block position was outside the range the protocol can carry.
    BlockPosOutOfRange,
    /// A length was outside the accepted range.
    LengthOutOfBounds,
    /// The number of characters of a string was outside the accepted range.
    CharCountOutOfBounds,
    /// An integer was outside the accepted range.
    IntegerOutOfBounds,
    /// An optional entity ID had no representation.
    Unrepresentable,
    /// A floating-point number was infinite or not a number.
    NonFiniteFloat,
}

/// Moves the reader `r` forward by `n` bytes.
pub fn advance(r: &mut &[u8], n: usize)
    requires
        n <= old(r)@.len(),
    ensures
        final(r)@ == old(r)@.skip(n as int),
{
    let s: &[u8] = *r;
    let (_, rest) = s.split_at(n);
    *r = rest;
}


/// The eight bytes of `v`, most significant first.
pub open spec fn be_bytes_u64(v: u64) -> Seq<u8> {
    seq![
        (v >> 56u64) as u8,
        (v >> 48u64) as u8,
        (v >> 40u64) as u8,
        (v >> 32u64) as u8,
        (v >> 24u64) as u8,
        (v >> 16u64) as u8,
        (v >> 8u64) as u8,
        v as u8,
    ]
}

/// The `u64` whose most significant byte is `s[0]`, from the first eight
/// bytes of `s`.
pub open spec fn be_u64(s: Seq<u8>) -> u64 {
    (s[0] as u64) << 56u64 | (s[1] as u64) << 48u64 | (s[2] as u64) << 40u64 | (s[3] as u64)
        << 32u64 | (s[4] as u64) << 24u64 | (s[5] as u64) << 16u64 | (s[6] as u64) << 8u64 | (
    s[7] as u64)
}

/// The four bytes of `v`, most significant first.
pub open spec fn be_bytes_u32(v: u32) -> Seq<u8> {
    seq![(v >> 24u32) as u8, (v >> 16u32) as u8, (v >> 8u32) as u8, v as u8]
}

/// The `u32` whose bytes, most significant first, begin `s`.
pub open spec fn be_u32(s: Seq<u8>) -> u32 {
    (s[0] as u32) << 24u32 | (s[1] as u32) << 16u32 | (s[2] as u32) << 8u32 | (s[3] as u32)
}

/// Appends `v` to `w` as four bytes, most significant first.
pub fn write_u32_be(w: &mut Vec<u8>, v: u32)
    ensures
        final(w)@ == old(w)@ + be_bytes_u32(v),
{
    w.push((v >> 24) as u8);
    w.push((v >> 16) as u8);
    w.push((v >> 8) as u8);
    w.push(v as u8);
    assert(w@ =~= old(w)@ + be_bytes_u32(v));
}

/// Reads four bytes, most significant first, from the front of `r` and
/// advances `r` past them. When fewer than four bytes remain, `r` is
/// emptied and the input is reported to have ended.
pub fn read_u32_be(r: &mut &[u8]) -> (res: Result<u32, DecodeError>)
    ensures
        old(r)@.len() >= 4 ==> res == Ok::<u32, DecodeError>(be_u32(old(r)@)) && final(r)@
            == old(r)@.skip(4),
        old(r)@.len() < 4 ==> res == Err::<u32, DecodeError>(DecodeError::UnexpectedEof)
            && final(r)@ == old(r)@.skip(old(r)@.len() as int),
{
    let s: &[u8] = *r;
    if s.len() < 4 {
        advance(r, s.len());
        return Err(DecodeError::UnexpectedEof);
    }
    let v = (s[0] as u32) << 24 | (s[1] as u32) << 16 | (s[2] as u32) << 8 | (s[3] as u32);
    advance(r, 4);
    Ok(v)
}

/// Reading back the four bytes written for `v` gives `v`.
pub proof fn lemma_u32_be_roundtrip(v: u32, rest: Seq<u8>)
    ensures
        be_u32(be_bytes_u32(v) + rest) == v,
        (be_bytes_u32(v) + rest).len() >= 4,
{
    let s = be_bytes_u32(v) + rest;
    assert(s[0] == (v >> 24u32) as u8);
    assert(s[3] == v as u8);
    assert(((v >> 24u32) as u8 as u32) << 24u32 | ((v >> 16u32) as u8 as u32) << 16u32 | ((v
        >> 8u32) as u8 as u32) << 8u32 | (v as u8 as u32) == v) by (bit_vector);
}

/// Whether the `f32` with bit pattern `bits` is finite: its exponent is
/// not all ones.
pub open spec fn f32_bits_finite(bits: u32) -> bool {
    (bits >> 23u32) & 0xffu32 != 0xffu32
}

/// Whether the `f64` with bit pattern `bits` is finite: its exponent is
/// not all ones.
pub open spec fn f64_bits_finite(bits: u64) -> bool {
    (bits >> 52u64) & 0x7ffu64 != 0x7ffu64
}

/// Appends the `f32` with bit pattern `bits`, most significant byte first;
/// a number that is not finite is refused and nothing is written.
pub fn encode_f32_bits(bits: u32, w: &mut Vec<u8>) -> (r: Result<(), EncodeError>)
    ensures
        f32_bits_finite(bits) ==> r is Ok && final(w)@ == old(w)@ + be_bytes_u32(bits),
        !f32_bits_finite(bits) ==> r == Err::<(), EncodeError>(EncodeError::NonFiniteFloat)
            && final(w)@ == old(w)@,
{
    if (bits >> 23) & 0xff == 0xff {
        return Err(EncodeError::NonFiniteFloat);
    }
    write_u32_be(w, bits);
    Ok(())
}

/// Reads the bit pattern of an `f32`, most significant byte first; a
/// number that is not finite is refused.
pub fn decode_f32_bits(r: &mut &[u8]) -> (res: Result<u32, DecodeError>)
    ensures
        old(r)@.len() >= 4 ==> final(r)@ == old(r)@.skip(4) && res == if f32_bits_finite(
            be_u32(old(r)@),
        ) {
            Ok::<u32, DecodeError>(be_u32(old(r)@))
        } else {
            Err(DecodeError::NonFiniteFloat)
        },
        old(r)@.len() < 4 ==> res == Err::<u32, DecodeError>(DecodeError::UnexpectedEof),
{
    let bits = read_u32_be(r)?;
    if (bits >> 23) & 0xff == 0xff {
        Err(DecodeError::NonFiniteFloat)
    } else {
        Ok(bits)
    }
}

/// Appends `v` to `w` as eight bytes, most significant first.
pub fn write_u64_be(w: &mut Vec<u8>, v: u64)
    ensures
        final(w)@ == old(w)@ + be_bytes_u64(v),
{
    w.push((v >> 56) as u8);
    w.push((v >> 48) as u8);
    w.push((v >> 40) as u8);
    w.push((v >> 32) as u8);
    w.push((v >> 24) as u8);
    w.push((v >> 16) as u8);
    w.push((v >> 8) as u8);
    w.push(v as u8);
    assert(w@ =~= old(w)@ + be_bytes_u64(v));
}

/// Reads eight bytes, most significant first, from the front of `r` and
/// advances `r` past them. When fewer than eight bytes remain, `r` is
/// emptied and the input is reported to have ended.
pub fn read_u64_be(r: &mut &[u8]) -> (res: Result<u64, DecodeError>)
    ensures
        old(r)@.len() >= 8 ==> res == Ok::<u64, DecodeError>(be_u64(old(r)@)) && final(r)@
            == old(r)@.skip(8),
        old(r)@.len() < 8 ==> res == Err::<u64, DecodeError>(DecodeError::UnexpectedEof)
            && final(r)@ == old(r)@.skip(old(r)@.len() as int),
{
    let s: &[u8] = *r;
    if s.len() < 8 {
        advance(r, s.len());
        return Err(DecodeError::UnexpectedEof);
    }
    let v = (s[0] as u64) << 56 | (s[1] as u64) << 48 | (s[2] as u64) << 40 | (s[3] as u64) << 32
        | (s[4] as u64) << 24 | (s[5] as u64) << 16 | (s[6] as u64) << 8 | (s[7] as u64);
    advance(r, 8);
    Ok(v)
}

/// Reading back the eight bytes written for `v` gives `v`.
pub proof fn lemma_u64_be_roundtrip(v: u64, rest: Seq<u8>)
    ensures
        be_u64(be_bytes_u64(v) + rest) == v,
        (be_bytes_u64(v) + rest).len() >= 8,
{
    let s = be_bytes_u64(v) + rest;
    assert(s[0] == (v >> 56u64) as u8);
    assert(s[7] == v as u8);
    lemma_u64_be_bits(v);
}

proof fn lemma_u64_be_bits(v: u64)
    by (bit_vector)
    ensures
        ((v >> 56u64) as u8 as u64) << 56u64 | ((v >> 48u64) as u8 as u64) << 48u64 | ((v >> 40u64)
            as u8 as u64) << 40u64 | ((v >> 32u64) as u8 as u64) << 32u64 | ((v >> 24u64) as u8
            as u64) << 24u64 | ((v >> 16u64) as u8 as u64) << 16u64 | ((v >> 8u64) as u8 as u64)
            << 8u64 | (v as u8 as u64) == v,
{
}

/// Appends the `f64` with bit pattern `bits`, most significant byte first;
/// a number that is not finite is refused and nothing is written.
pub fn encode_f64_bits(bits: u64, w: &mut Vec<u8>) -> (r: Result<(), EncodeError>)
    ensures
        f64_bits_finite(bits) ==> r is Ok && final(w)@ == old(w)@ + be_bytes_u64(bits),
        !f64_bits_finite(bits) ==> r == Err::<(), EncodeError>(EncodeError::NonFiniteFloat)
            && final(w)@ == old(w)@,
{
    if (bits >> 52) & 0x7ff == 0x7ff {
        return Err(EncodeError::NonFiniteFloat);
    }
    write_u64_be(w, bits);
    Ok(())
}

/// Reads the bit pattern of an `f64`, most significant byte first; a
/// number that is not finite is refused.
pub fn decode_f64_bits(r: &mut &[u8]) -> (res: Result<u64, DecodeError>)
    ensures
        old(r)@.len() >= 8 ==> final(r)@ == old(r)@.skip(8) && res == if f64_bits_finite(
            be_u64(old(r)@),
        ) {
            Ok::<u64, DecodeError>(be_u64(old(r)@))
        } else {
            Err(DecodeError::NonFiniteFloat)
        },
        old(r)@.len() < 8 ==> res == Err::<u64, DecodeError>(DecodeError::UnexpectedEof),
{
    let bits = read_u64_be(r)?;
    if (bits >> 52) & 0x7ff == 0x7ff {
        Err(DecodeError::NonFiniteFloat)
    } else {
        Ok(bits)
    }
}

/// Appends one byte to `w`.
pub fn write_u8(w: &mut Vec<u8>, v: u8)
    ensures
        final(w)@ == old(w)@.push(v),
{
    w.push(v);
}

/// Reads one byte from the front of `r` and advances `r` past it.
pub fn read_u8(r: &mut &[u8]) -> (res: Result<u8, DecodeError>)
    ensures
        old(r)@.len() >= 1 ==> res == Ok::<u8, DecodeError>(old(r)@[0]) && final(r)@
            == old(r)@.skip(1),
        old(r)@.len() == 0 ==> res == Err::<u8, DecodeError>(DecodeError::UnexpectedEof)
            && final(r)@ == old(r)@,
{
    let s: &[u8] = *r;
    if s.len() == 0 {
        return Err(DecodeError::UnexpectedEof);
    }
    let b = s[0];
    advance(r, 1);
    Ok(b)
}

/// Appends a boolean as the byte 1 or 0.
pub fn write_bool(w: &mut Vec<u8>, b: bool)
    ensures
        final(w)@ == old(w)@.push(if b { 1u8 } else { 0u8 }),
{
    w.push(if b { 1 } else { 0 });
}

/// Reads a boolean: the byte 1 is true, 0 is false, anything else is an
/// error.
pub fn read_bool(r: &mut &[u8]) -> (res: Result<bool, DecodeError>)
    ensures
        old(r)@.len() == 0 ==> res == Err::<bool, DecodeError>(DecodeError::UnexpectedEof),
        old(r)@.len() >= 1 ==> final(r)@ == old(r)@.skip(1) && res == (if old(r)@[0] < 2 {
            Ok::<bool, DecodeError>(old(r)@[0] == 1)
        } else {
            Err::<bool, DecodeError>(DecodeError::InvalidBool)
        }),
{
    let n = read_u8(r)?;
    if n < 2 {
        Ok(n == 1)
    } else {
        Err(DecodeError::InvalidBool)
    }
}


/// The most characters a protocol string may have unless bounded otherwise.
pub const DEFAULT_MAX_CHARS: usize = 32767;

/// The bytes of a length-prefixed byte array: the length as a VarInt, then
/// the bytes.
pub open spec fn prefixed_bytes(b: Seq<u8>) -> Seq<u8> {
    var_int::varint_bytes(b.len() as i32 as u32) + b
}

/// Appends `bytes` prefixed by their length as a VarInt. Fails, writing
/// nothing, when the length is outside `min..=max` or above `i32::MAX`.
pub fn encode_bytes_bounded(bytes: &[u8], min: usize, max: usize, w: &mut Vec<u8>) -> (r: Result<(), EncodeError>)
    requires
        min <= max,
    ensures
        (min <= bytes@.len() <= max && bytes@.len() <= i32::MAX) ==> r is Ok && final(w)@ == old(w)@ + prefixed_bytes(bytes@),
        !(min <= bytes@.len() <= max && bytes@.len() <= i32::MAX) ==> r == Err::<(), EncodeError>(EncodeError::LengthOutOfBounds) && final(w)@ == old(w)@,
{
    let len = bytes.len();
    if !(min <= len && len <= max) {
        return Err(EncodeError::LengthOutOfBounds);
    }
    if len > i32::MAX as usize {
        return Err(EncodeError::LengthOutOfBounds);
    }
    let ghost w0 = w@;
    VarInt(len as i32).encode(w)?;
    let ghost w1 = w@;
    let mut i: usize = 0;
    while i < len
        invariant
            0 <= i <= len,
            len == bytes@.len(),
            w@ == w1 + bytes@.take(i as int),
        decreases len - i,
    {
        w.push(bytes[i]);
        assert(bytes@.take(i as int).push(bytes@[i as int]) =~= bytes@.take(i + 1));
        i = i + 1;
    }
    assert(bytes@.take(len as int) =~= bytes@);
    assert(w@ =~= w0 + prefixed_bytes(bytes@));
    Ok(())
}

/// Appends the UTF-8 bytes of `s` prefixed by their length. Fails, writing
/// nothing, when the number of characters is outside `min..=max` or the
/// number of bytes above `i32::MAX`.
pub fn encode_string_bounded(s: &str, min: usize, max: usize, w: &mut Vec<u8>) -> (r: Result<(), EncodeError>)
    requires
        min <= max,
    ensures
        !(min <= s@.len() <= max) ==> r == Err::<(), EncodeError>(EncodeError::CharCountOutOfBounds) && final(w)@ == old(w)@,
        (min <= s@.len() <= max && vstd::utf8::encode_utf8(s@).len() <= i32::MAX) ==> r is Ok && final(w)@ == old(w)@ + prefixed_bytes(vstd::utf8::encode_utf8(s@)),
        (min <= s@.len() <= max && vstd::utf8::encode_utf8(s@).len() > i32::MAX) ==> r == Err::<(), EncodeError>(EncodeError::LengthOutOfBounds) && final(w)@ == old(w)@,
{
    let char_count = s.unicode_len();
    if !(min <= char_count && char_count <= max) {
        return Err(EncodeError::CharCountOutOfBounds);
    }
    encode_bytes_bounded(s.as_bytes(), 0, usize::MAX, w)
}

/// What decoding a length-prefixed byte array from the front of `s` gives,
/// with the length bounded by `min..=max`: the bytes and how many bytes were
/// read in all.
pub open spec fn decode_bytes_spec(s: Seq<u8>, min: nat, max: nat) -> Result<(Seq<u8>, nat), DecodeError> {
    match var_int::varint_decode(s) {
        Err(e) => Err(e),
        Ok((v, n)) => {
            let len = v as i32;
            if !(len >= 0 && min <= len as nat && len as nat <= max) {
                Err(DecodeError::LengthOutOfBounds)
            } else if n + len > s.len() {
                Err(DecodeError::UnexpectedEof)
            } else {
                Ok((s.subrange(n as int, n + len), n + len as nat))
            }
        },
    }
}

/// Reads a length-prefixed byte array whose length lies in `min..=max`, and
/// advances `r` past it. On an error the reader may have been advanced.
pub fn decode_bytes_bounded(min: usize, max: usize, r: &mut &[u8]) -> (res: Result<Vec<u8>, DecodeError>)
    requires
        min <= max,
    ensures
        match decode_bytes_spec(old(r)@, min as nat, max as nat) {
            Ok((b, n)) => res matches Ok(v) && v@ == b && final(r)@ == old(r)@.skip(n as int),
            Err(e) => res == Err::<Vec<u8>, DecodeError>(e),
        },
{
    let ghost s0 = r@;
    let len = VarInt::decode(r)?.0;
    if !(len >= 0 && min <= len as usize && len as usize <= max) {
        return Err(DecodeError::LengthOutOfBounds);
    }
    let s: &[u8] = *r;
    let n = len as usize;
    if s.len() < n {
        return Err(DecodeError::UnexpectedEof);
    }
    let mut v: Vec<u8> = Vec::new();
    let mut i: usize = 0;
    while i < n
        invariant
            0 <= i <= n <= s@.len(),
            v@ == s@.take(i as int),
        decreases n - i,
    {
        v.push(s[i]);
        assert(s@.take(i as int).push(s@[i as int]) =~= s@.take(i + 1));
        i = i + 1;
    }
    advance(r, n);
    proof {
        if let Ok((vv, m)) = var_int::varint_decode(s0) {
            assert(s@ == s0.skip(m as int));
            assert(len == vv as i32);
            var_int::lemma_varint_decode_len(s0, 0, 0);
            assert(m <= s0.len());
            assert(s@.len() == s0.len() - m);
            assert(m + len <= s0.len());
            assert forall|k: int| 0 <= k < n implies v@[k] == s0[m + k] by {
                assert(v@[k] == s@[k]);
            }
            assert(v@ =~= s0.subrange(m as int, m + len));
            assert(r@ =~= s0.skip(m + len));
        }
    }
    Ok(v)
}

/// The characters that the bytes `b` spell in UTF-8, when they are valid
/// UTF-8 (the `from_utf8` of `String`: it checks and keeps the bytes).
#[verifier::external_body]
fn string_from_utf8(b: Vec<u8>) -> (r: Option<String>)
    ensures
        r is Some <==> vstd::utf8::valid_utf8(b@),
        r matches Some(s) ==> s@ == vstd::utf8::decode_utf8(b@),
{
    String::from_utf8(b).ok()
}

/// What decoding a string of `min..=max` characters from the front of `s`
/// gives: the characters and how many bytes were read in all.
pub open spec fn decode_string_spec(s: Seq<u8>, min: nat, max: nat) -> Result<(Seq<char>, nat), DecodeError> {
    let bmax = if max * 4 > usize::MAX { usize::MAX as nat } else { max * 4 };
    match decode_bytes_spec(s, min, bmax) {
        Err(e) => Err(e),
        Ok((b, n)) => if !vstd::utf8::valid_utf8(b) {
            Err(DecodeError::InvalidUtf8)
        } else {
            let c = vstd::utf8::decode_utf8(b);
            if min <= c.len() <= max {
                Ok((c, n))
            } else {
                Err(DecodeError::CharCountOutOfBounds)
            }
        },
    }
}

/// Reads a length-prefixed UTF-8 string of `min..=max` characters (at most
/// four bytes per character), and advances `r` past it.
pub fn decode_string_bounded(min: usize, max: usize, r: &mut &[u8]) -> (res: Result<String, DecodeError>)
    requires
        min <= max,
    ensures
        match decode_string_spec(old(r)@, min as nat, max as nat) {
            Ok((c, n)) => res matches Ok(st) && st@ == c && final(r)@ == old(r)@.skip(n as int),
            Err(e) => res == Err::<String, DecodeError>(e),
        },
{
    let bmax = match max.checked_mul(4) {
        Some(b) => b,
        None => usize::MAX,
    };
    let bytes = decode_bytes_bounded(min, bmax, r)?;
    let string = match string_from_utf8(bytes) {
        Some(st) => st,
        None => return Err(DecodeError::InvalidUtf8),
    };
    let char_count = string.as_str().unicode_len();
    if !(min <= char_count && char_count <= max) {
        return Err(DecodeError::CharCountOutOfBounds);
    }
    Ok(string)
}

/// A string in bounds written by `encode_string_bounded` reads back, with
/// the same bounds, as the same characters, and exactly its bytes are read.
pub proof fn string_roundtrip_law(c: Seq<char>, min: nat, max: nat, rest: Seq<u8>)
    requires
        min <= c.len() <= max,
        max * 4 <= usize::MAX,
        vstd::utf8::encode_utf8(c).len() <= i32::MAX,
    ensures
        decode_string_spec(prefixed_bytes(vstd::utf8::encode_utf8(c)) + rest, min, max) == Ok::<(Seq<char>, nat), DecodeError>(
            (c, prefixed_bytes(vstd::utf8::encode_utf8(c)).len()),
        ),
{
    let b = vstd::utf8::encode_utf8(c);
    let len = b.len() as i32;
    var_int::lemma_varint_roundtrip(len, b + rest);
    assert(prefixed_bytes(b) + rest =~= var_int::varint_bytes(len as u32) + (b + rest));
    vstd::utf8::encode_utf8_valid_utf8(c);
    vstd::utf8::encode_utf8_decode_utf8(c);
    lemma_utf8_len_bound(c);
    let s = prefixed_bytes(b) + rest;
    let n = var_int::varint_size(len as u32);
    assert(s.subrange(n as int, n + len) =~= b);
}

/// A string has no more UTF-8 bytes than four per character, and no fewer
/// than one.
pub(crate) proof fn lemma_utf8_len_bound(c: Seq<char>)
    ensures
        c.len() <= vstd::utf8::encode_utf8(c).len() <= 4 * c.len(),
    decreases c.len(),
{
    if c.len() > 0 {
        lemma_utf8_len_bound(c.drop_first());
        let e = vstd::utf8::encode_scalar(c[0] as u32);
        assert(1 <= e.len() <= 4);
    }
}

/// A string whose number of characters must lie in `MIN..=MAX` on the wire.
pub struct BoundedString<const MIN: usize, const MAX: usize>(pub String);

impl<const MIN: usize, const MAX: usize> BoundedString<MIN, MAX> {
    /// The least number of characters.
    pub fn min_bound(&self) -> (m: usize)
        ensures
            m == MIN,
    {
        MIN
    }

    /// The greatest number of characters.
    pub fn max_bound(&self) -> (m: usize)
        ensures
            m == MAX,
    {
        MAX
    }

    /// Appends the string prefixed by its length, as
    /// `encode_string_bounded` does with the bounds of the type.
    pub fn encode(&self, w: &mut Vec<u8>) -> (r: Result<(), EncodeError>)
        requires
            MIN <= MAX,
        ensures
            !(MIN <= self.0@.len() <= MAX) ==> r == Err::<(), EncodeError>(EncodeError::CharCountOutOfBounds) && final(w)@ == old(w)@,
            (MIN <= self.0@.len() <= MAX && vstd::utf8::encode_utf8(self.0@).len() <= i32::MAX) ==> r is Ok && final(w)@ == old(w)@ + prefixed_bytes(vstd::utf8::encode_utf8(self.0@)),
            (MIN <= self.0@.len() <= MAX && vstd::utf8::encode_utf8(self.0@).len() > i32::MAX) ==> r == Err::<(), EncodeError>(EncodeError::LengthOutOfBounds) && final(w)@ == old(w)@,
    {
        encode_string_bounded(self.0.as_str(), MIN, MAX, w)
    }

    /// Reads a string with the bounds of the type.
    pub fn decode(r: &mut &[u8]) -> (res: Result<Self, DecodeError>)
        requires
            MIN <= MAX,
        ensures
            match decode_string_spec(old(r)@, MIN as nat, MAX as nat) {
                Ok((c, n)) => res matches Ok(b) && b.0@ == c && final(r)@ == old(r)@.skip(n as int),
                Err(e) => res == Err::<Self, DecodeError>(e),
            },
    {
        Ok(BoundedString(decode_string_bounded(MIN, MAX, r)?))
    }
}

/// Bytes written and read as they are, with no length before them.
pub struct RawBytes(pub Vec<u8>);

impl RawBytes {
    /// Appends the bytes.
    pub fn encode(&self, w: &mut Vec<u8>)
        ensures
            final(w)@ == old(w)@ + self.0@,
    {
        let ghost w0 = w@;
        let mut i: usize = 0;
        while i < self.0.len()
            invariant
                i <= self.0@.len(),
                w@ == w0 + self.0@.take(i as int),
            decreases self.0@.len() - i,
        {
            w.push(self.0[i]);
            proof {
                assert(self.0@.take(i + 1) =~= self.0@.take(i as int).push(self.0@[i as int]));
            }
            i = i + 1;
        }
        proof {
            assert(self.0@.take(self.0@.len() as int) =~= self.0@);
        }
    }

    /// Reads every byte that is left.
    pub fn decode(r: &mut &[u8]) -> (res: RawBytes)
        ensures
            res.0@ == old(r)@,
            final(r)@.len() == 0,
    {
        let s: &[u8] = *r;
        let mut buf: Vec<u8> = Vec::new();
        let mut i: usize = 0;
        while i < s.len()
            invariant
                i <= s@.len(),
                buf@ == s@.take(i as int),
            decreases s@.len() - i,
        {
            buf.push(s[i]);
            proof {
                assert(s@.take(i + 1) =~= s@.take(i as int).push(s@[i as int]));
            }
            i = i + 1;
        }
        proof {
            assert(s@.take(s@.len() as int) =~= s@);
        }
        advance(r, s.len());
        RawBytes(buf)
    }
}

} // verus!
