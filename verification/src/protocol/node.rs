//! The nodes of the command graph sent to clients, and the properties of
//! their argument parsers.

use vstd::prelude::*;

use crate::ident::Ident;
use crate::protocol::var_int::{varint_bytes, varint_decode};
use crate::protocol::{
    be_bytes_u32, be_bytes_u64, be_u32, be_u64, encode_f32_bits, f32_bits_finite, read_bool,
    read_u32_be, read_u64_be, read_u8, write_bool, write_u32_be, write_u64_be, write_u8,
    encode_string_bounded, prefixed_bytes, DecodeError, EncodeError, VarInt,
};

verus! {

/// The bounds of an integer argument.
#[derive(Clone, Copy, PartialEq, Eq, Debug, Structural)]
pub struct BrigadierInteger {
    pub min: Option<i32>,
    pub max: Option<i32>,
}

/// The bounds of a long integer argument.
#[derive(Clone, Copy, PartialEq, Eq, Debug, Structural)]
pub struct BrigadierLong {
    pub min: Option<i64>,
    pub max: Option<i64>,
}

/// The flags byte written before the bounds. It is computed as
/// `(has_min << 0) & (has_max << 1)`, the two bits joined with AND, so it
/// is always zero.
pub open spec fn bounds_flags(has_min: bool, has_max: bool) -> u8 {
    0
}

/// The bytes of optional bound `b`: its four bytes, most significant first,
/// or nothing.
pub open spec fn opt_i32_bytes(b: Option<i32>) -> Seq<u8> {
    match b {
        Some(v) => be_bytes_u32(v as u32),
        None => Seq::empty(),
    }
}

/// The bytes of optional bound `b`: its eight bytes, most significant
/// first, or nothing.
pub open spec fn opt_i64_bytes(b: Option<i64>) -> Seq<u8> {
    match b {
        Some(v) => be_bytes_u64(v as u64),
        None => Seq::empty(),
    }
}

/// What reading an optional 32-bit value from the front of `s` gives, with
/// the bytes read: a boolean, then four bytes, most significant first, if it
/// is true.
pub open spec fn decode_opt_u32(s: Seq<u8>) -> Result<(Option<u32>, nat), DecodeError> {
    if s.len() < 1 {
        Err(DecodeError::UnexpectedEof)
    } else if s[0] >= 2 {
        Err(DecodeError::InvalidBool)
    } else if s[0] == 0 {
        Ok((None, 1))
    } else if s.len() < 5 {
        Err(DecodeError::UnexpectedEof)
    } else {
        Ok((Some(be_u32(s.skip(1))), 5))
    }
}

/// What reading an optional 64-bit value from the front of `s` gives, with
/// the bytes read: a boolean, then eight bytes, most significant first, if
/// it is true.
pub open spec fn decode_opt_u64(s: Seq<u8>) -> Result<(Option<u64>, nat), DecodeError> {
    if s.len() < 1 {
        Err(DecodeError::UnexpectedEof)
    } else if s[0] >= 2 {
        Err(DecodeError::InvalidBool)
    } else if s[0] == 0 {
        Ok((None, 1))
    } else if s.len() < 9 {
        Err(DecodeError::UnexpectedEof)
    } else {
        Ok((Some(be_u64(s.skip(1))), 9))
    }
}

/// An optional 32-bit pattern read as an `i32`.
pub open spec fn opt_as_i32(v: Option<u32>) -> Option<i32> {
    match v {
        Some(x) => Some(x as i32),
        None => None,
    }
}

/// An optional 64-bit pattern read as an `i64`.
pub open spec fn opt_as_i64(v: Option<u64>) -> Option<i64> {
    match v {
        Some(x) => Some(x as i64),
        None => None,
    }
}

/// What reading a pair of optional 32-bit bounds from `s` gives, with the
/// bytes read: a flags byte; then, if bit 0 is set, the least bound as an
/// optional value (a boolean, then the value if it is true); then, if bit 1
/// is set, the greatest the same way.
pub open spec fn decode_bounds_u32(s: Seq<u8>) -> Result<((Option<u32>, Option<u32>), nat), DecodeError> {
    if s.len() < 1 {
        Err(DecodeError::UnexpectedEof)
    } else {
        let f = s[0];
        let first = if f & 1 != 0 {
            decode_opt_u32(s.skip(1))
        } else {
            Ok((None, 0))
        };
        match first {
            Err(e) => Err(e),
            Ok((min, n1)) => {
                let second = if f & 2 != 0 {
                    decode_opt_u32(s.skip((1 + n1) as int))
                } else {
                    Ok((None, 0))
                };
                match second {
                    Err(e) => Err(e),
                    Ok((max, n2)) => Ok(((min, max), 1 + n1 + n2)),
                }
            },
        }
    }
}

/// What reading a pair of optional 64-bit bounds from `s` gives, as for
/// 32-bit bounds.
pub open spec fn decode_bounds_u64(s: Seq<u8>) -> Result<((Option<u64>, Option<u64>), nat), DecodeError> {
    if s.len() < 1 {
        Err(DecodeError::UnexpectedEof)
    } else {
        let f = s[0];
        let first = if f & 1 != 0 {
            decode_opt_u64(s.skip(1))
        } else {
            Ok((None, 0))
        };
        match first {
            Err(e) => Err(e),
            Ok((min, n1)) => {
                let second = if f & 2 != 0 {
                    decode_opt_u64(s.skip((1 + n1) as int))
                } else {
                    Ok((None, 0))
                };
                match second {
                    Err(e) => Err(e),
                    Ok((max, n2)) => Ok(((min, max), 1 + n1 + n2)),
                }
            },
        }
    }
}

/// What reading integer bounds from `s` gives, with the bytes read.
pub open spec fn decode_integer_bounds(s: Seq<u8>) -> Result<(BrigadierInteger, nat), DecodeError> {
    match decode_bounds_u32(s) {
        Err(e) => Err(e),
        Ok(((min, max), n)) => Ok((BrigadierInteger { min: opt_as_i32(min), max: opt_as_i32(max) }, n)),
    }
}

/// What reading long bounds from `s` gives, with the bytes read.
pub open spec fn decode_long_bounds(s: Seq<u8>) -> Result<(BrigadierLong, nat), DecodeError> {
    match decode_bounds_u64(s) {
        Err(e) => Err(e),
        Ok(((min, max), n)) => Ok((BrigadierLong { min: opt_as_i64(min), max: opt_as_i64(max) }, n)),
    }
}

/// Reads an optional 32-bit value: a boolean, then the value if it is true.
fn read_opt_u32(r: &mut &[u8]) -> (res: Result<Option<u32>, DecodeError>)
    ensures
        match decode_opt_u32(old(r)@) {
            Ok((v, n)) => res == Ok::<Option<u32>, DecodeError>(v) && final(r)@ == old(r)@.skip(
                n as int,
            ),
            Err(e) => res == Err::<Option<u32>, DecodeError>(e),
        },
{
    let ghost s = r@;
    if read_bool(r)? {
        let v = read_u32_be(r)?;
        proof {
            assert(s.skip(1).skip(4) =~= s.skip(5));
        }
        Ok(Some(v))
    } else {
        Ok(None)
    }
}

/// Reads an optional 64-bit value: a boolean, then the value if it is true.
fn read_opt_u64(r: &mut &[u8]) -> (res: Result<Option<u64>, DecodeError>)
    ensures
        match decode_opt_u64(old(r)@) {
            Ok((v, n)) => res == Ok::<Option<u64>, DecodeError>(v) && final(r)@ == old(r)@.skip(
                n as int,
            ),
            Err(e) => res == Err::<Option<u64>, DecodeError>(e),
        },
{
    let ghost s = r@;
    if read_bool(r)? {
        let v = read_u64_be(r)?;
        proof {
            assert(s.skip(1).skip(8) =~= s.skip(9));
        }
        Ok(Some(v))
    } else {
        Ok(None)
    }
}

/// Reads a flags byte and the optional 32-bit bounds it announces.
fn read_bounds_u32(r: &mut &[u8]) -> (res: Result<(Option<u32>, Option<u32>), DecodeError>)
    ensures
        match decode_bounds_u32(old(r)@) {
            Ok((v, n)) => res == Ok::<(Option<u32>, Option<u32>), DecodeError>(v) && final(r)@
                == old(r)@.skip(n as int),
            Err(e) => res == Err::<(Option<u32>, Option<u32>), DecodeError>(e),
        },
{
    let ghost s = r@;
    let f = read_u8(r)?;
    let ghost s1 = r@;
    let min = if f & 1 != 0 {
        read_opt_u32(r)?
    } else {
        None
    };
    proof {
        assert(s1 =~= s.skip(1));
        if f & 1 != 0 {
            if let Ok((m, k)) = decode_opt_u32(s.skip(1)) {
                assert(r@ =~= s.skip((1 + k) as int));
            }
        } else {
            assert(r@ =~= s.skip(1int + 0));
        }
    }
    let max = if f & 2 != 0 {
        read_opt_u32(r)?
    } else {
        None
    };
    proof {
        let first: Result<(Option<u32>, nat), DecodeError> = if f & 1 != 0 {
            decode_opt_u32(s.skip(1))
        } else {
            Ok((None, 0))
        };
        if let Ok((m, k1)) = first {
            if f & 2 != 0 {
                if let Ok((x, k2)) = decode_opt_u32(s.skip((1 + k1) as int)) {
                    assert(s.skip((1 + k1) as int).skip(k2 as int) =~= s.skip((1 + k1 + k2) as int));
                }
            } else {
                assert(s.skip((1 + k1) as int) =~= s.skip((1 + k1 + 0) as int));
            }
        }
    }
    Ok((min, max))
}

/// Reads a flags byte and the optional 64-bit bounds it announces.
fn read_bounds_u64(r: &mut &[u8]) -> (res: Result<(Option<u64>, Option<u64>), DecodeError>)
    ensures
        match decode_bounds_u64(old(r)@) {
            Ok((v, n)) => res == Ok::<(Option<u64>, Option<u64>), DecodeError>(v) && final(r)@
                == old(r)@.skip(n as int),
            Err(e) => res == Err::<(Option<u64>, Option<u64>), DecodeError>(e),
        },
{
    let ghost s = r@;
    let f = read_u8(r)?;
    let ghost s1 = r@;
    let min = if f & 1 != 0 {
        read_opt_u64(r)?
    } else {
        None
    };
    proof {
        assert(s1 =~= s.skip(1));
        if f & 1 != 0 {
            if let Ok((m, k)) = decode_opt_u64(s.skip(1)) {
                assert(r@ =~= s.skip((1 + k) as int));
            }
        } else {
            assert(r@ =~= s.skip(1int + 0));
        }
    }
    let max = if f & 2 != 0 {
        read_opt_u64(r)?
    } else {
        None
    };
    proof {
        let first: Result<(Option<u64>, nat), DecodeError> = if f & 1 != 0 {
            decode_opt_u64(s.skip(1))
        } else {
            Ok((None, 0))
        };
        if let Ok((m, k1)) = first {
            if f & 2 != 0 {
                if let Ok((x, k2)) = decode_opt_u64(s.skip((1 + k1) as int)) {
                    assert(s.skip((1 + k1) as int).skip(k2 as int) =~= s.skip((1 + k1 + k2) as int));
                }
            } else {
                assert(s.skip((1 + k1) as int) =~= s.skip((1 + k1 + 0) as int));
            }
        }
    }
    Ok((min, max))
}

fn flags_byte(has_min: bool, has_max: bool) -> (f: u8)
    ensures
        f == bounds_flags(has_min, has_max),
{
    let a: u8 = if has_min {
        1
    } else {
        0
    };
    let b: u8 = if has_max {
        1
    } else {
        0
    };
    let f = (a << 0u8) & (b << 1u8);
    assert((a == 0 || a == 1) && (b == 0 || b == 1) ==> (a << 0u8) & (b << 1u8) == 0) by (bit_vector);
    f
}

impl BrigadierInteger {
    /// Appends the flags byte and the bounds that are present.
    pub fn encode(&self, w: &mut Vec<u8>)
        ensures
            final(w)@ == old(w)@ + seq![bounds_flags(self.min is Some, self.max is Some)]
                + opt_i32_bytes(self.min) + opt_i32_bytes(self.max),
    {
        let ghost w0 = w@;
        let f = flags_byte(self.min.is_some(), self.max.is_some());
        write_u8(w, f);
        if let Some(min) = self.min {
            write_u32_be(w, min as u32);
        }
        if let Some(max) = self.max {
            write_u32_be(w, max as u32);
        }
        assert(w@ =~= w0 + seq![f] + opt_i32_bytes(self.min) + opt_i32_bytes(self.max));
    }

    /// Reads the flags byte and the bounds it announces, each as an
    /// optional value, from the front of `r`, and advances `r` past them.
    pub fn decode(r: &mut &[u8]) -> (res: Result<BrigadierInteger, DecodeError>)
        ensures
            match decode_integer_bounds(old(r)@) {
                Ok((v, n)) => res == Ok::<BrigadierInteger, DecodeError>(v) && final(r)@ == old(
                    r,
                )@.skip(n as int),
                Err(e) => res == Err::<BrigadierInteger, DecodeError>(e),
            },
    {
        let (min, max) = read_bounds_u32(r)?;
        Ok(
            BrigadierInteger {
                min: match min {
                    Some(v) => Some(v as i32),
                    None => None,
                },
                max: match max {
                    Some(v) => Some(v as i32),
                    None => None,
                },
            },
        )
    }
}

impl BrigadierLong {
    /// Appends the flags byte and the bounds that are present.
    pub fn encode(&self, w: &mut Vec<u8>)
        ensures
            final(w)@ == old(w)@ + seq![bounds_flags(self.min is Some, self.max is Some)]
                + opt_i64_bytes(self.min) + opt_i64_bytes(self.max),
    {
        let ghost w0 = w@;
        let f = flags_byte(self.min.is_some(), self.max.is_some());
        write_u8(w, f);
        if let Some(min) = self.min {
            write_u64_be(w, min as u64);
        }
        if let Some(max) = self.max {
            write_u64_be(w, max as u64);
        }
        assert(w@ =~= w0 + seq![f] + opt_i64_bytes(self.min) + opt_i64_bytes(self.max));
    }

    /// Reads the flags byte and the bounds it announces, each as an
    /// optional value, from the front of `r`, and advances `r` past them.
    pub fn decode(r: &mut &[u8]) -> (res: Result<BrigadierLong, DecodeError>)
        ensures
            match decode_long_bounds(old(r)@) {
                Ok((v, n)) => res == Ok::<BrigadierLong, DecodeError>(v) && final(r)@ == old(
                    r,
                )@.skip(n as int),
                Err(e) => res == Err::<BrigadierLong, DecodeError>(e),
            },
    {
        let (min, max) = read_bounds_u64(r)?;
        Ok(
            BrigadierLong {
                min: match min {
                    Some(v) => Some(v as i64),
                    None => None,
                },
                max: match max {
                    Some(v) => Some(v as i64),
                    None => None,
                },
            },
        )
    }
}

/// The bounds of a floating-point argument, as the bit patterns of `f32`
/// values.
#[derive(Clone, Copy, PartialEq, Eq, Debug, Structural)]
pub struct BrigadierFloat {
    pub min: Option<u32>,
    pub max: Option<u32>,
}

/// The bytes written for an optional `f32` bound and whether writing it
/// succeeds: its four bytes, most significant first; nothing, with an
/// error, for a number that is not finite; nothing for no bound.
pub open spec fn opt_f32_write(b: Option<u32>) -> (Seq<u8>, Result<(), EncodeError>) {
    match b {
        None => (Seq::empty(), Ok(())),
        Some(bits) => if f32_bits_finite(bits) {
            (be_bytes_u32(bits), Ok(()))
        } else {
            (Seq::empty(), Err(EncodeError::NonFiniteFloat))
        },
    }
}

/// Two writes one after the other: the second happens only when the first
/// succeeds.
pub open spec fn then_write(
    a: (Seq<u8>, Result<(), EncodeError>),
    b: (Seq<u8>, Result<(), EncodeError>),
) -> (Seq<u8>, Result<(), EncodeError>) {
    if a.1 is Ok {
        (a.0 + b.0, b.1)
    } else {
        a
    }
}

/// What writing floating-point bounds gives: the flags byte, then the least
/// and the greatest bound that are present.
pub open spec fn float_bounds_write(b: BrigadierFloat) -> (Seq<u8>, Result<(), EncodeError>) {
    then_write(
        (seq![bounds_flags(b.min is Some, b.max is Some)], Ok(())),
        then_write(opt_f32_write(b.min), opt_f32_write(b.max)),
    )
}

/// What reading an optional `f32` from the front of `s` gives, with the
/// bytes read: a boolean, then the number if it is true, which must be
/// finite.
pub open spec fn decode_opt_f32(s: Seq<u8>) -> Result<(Option<u32>, nat), DecodeError> {
    match decode_opt_u32(s) {
        Ok((Some(bits), n)) => if f32_bits_finite(bits) {
            Ok((Some(bits), n))
        } else {
            Err(DecodeError::NonFiniteFloat)
        },
        other => other,
    }
}

/// What reading floating-point bounds from `s` gives, with the bytes read,
/// as for integer bounds, each number having to be finite.
pub open spec fn decode_float_bounds(s: Seq<u8>) -> Result<(BrigadierFloat, nat), DecodeError> {
    if s.len() < 1 {
        Err(DecodeError::UnexpectedEof)
    } else {
        let f = s[0];
        let first = if f & 1 != 0 {
            decode_opt_f32(s.skip(1))
        } else {
            Ok((None, 0))
        };
        match first {
            Err(e) => Err(e),
            Ok((min, n1)) => {
                let second = if f & 2 != 0 {
                    decode_opt_f32(s.skip((1 + n1) as int))
                } else {
                    Ok((None, 0))
                };
                match second {
                    Err(e) => Err(e),
                    Ok((max, n2)) => Ok((BrigadierFloat { min, max }, 1 + n1 + n2)),
                }
            },
        }
    }
}

/// Reads an optional `f32`: a boolean, then the number if it is true, which
/// must be finite.
fn read_opt_f32(r: &mut &[u8]) -> (res: Result<Option<u32>, DecodeError>)
    ensures
        match decode_opt_f32(old(r)@) {
            Ok((v, n)) => res == Ok::<Option<u32>, DecodeError>(v) && final(r)@ == old(r)@.skip(
                n as int,
            ),
            Err(e) => res == Err::<Option<u32>, DecodeError>(e),
        },
{
    match read_opt_u32(r)? {
        Some(bits) => if (bits >> 23) & 0xff == 0xff {
            Err(DecodeError::NonFiniteFloat)
        } else {
            Ok(Some(bits))
        },
        None => Ok(None),
    }
}

impl BrigadierFloat {
    /// Appends the flags byte and the bounds that are present; a bound that
    /// is not finite stops the writing with an error.
    pub fn encode(&self, w: &mut Vec<u8>) -> (r: Result<(), EncodeError>)
        ensures
            final(w)@ == old(w)@ + float_bounds_write(*self).0,
            r == float_bounds_write(*self).1,
    {
        let ghost w0 = w@;
        let f = flags_byte(self.min.is_some(), self.max.is_some());
        write_u8(w, f);
        let ghost w1 = w@;
        if let Some(min) = self.min {
            encode_f32_bits(min, w)?;
        }
        let ghost w2 = w@;
        if let Some(max) = self.max {
            encode_f32_bits(max, w)?;
        }
        proof {
            assert(w1 =~= w0 + seq![f]);
            assert(w2 =~= w1 + opt_f32_write(self.min).0);
            assert(w@ =~= w0 + float_bounds_write(*self).0);
        }
        Ok(())
    }

    /// Reads the flags byte and the bounds it announces, each as an
    /// optional finite number, from the front of `r`, and advances `r` past
    /// them.
    pub fn decode(r: &mut &[u8]) -> (res: Result<BrigadierFloat, DecodeError>)
        ensures
            match decode_float_bounds(old(r)@) {
                Ok((v, n)) => res == Ok::<BrigadierFloat, DecodeError>(v) && final(r)@ == old(
                    r,
                )@.skip(n as int),
                Err(e) => res == Err::<BrigadierFloat, DecodeError>(e),
            },
    {
        let ghost s = r@;
        let f = read_u8(r)?;
        let min = if f & 1 != 0 {
            read_opt_f32(r)?
        } else {
            None
        };
        proof {
            if f & 1 != 0 {
                if let Ok((m, k)) = decode_opt_f32(s.skip(1)) {
                    assert(r@ =~= s.skip((1 + k) as int));
                }
            } else {
                assert(r@ =~= s.skip(1int + 0));
            }
        }
        let max = if f & 2 != 0 {
            read_opt_f32(r)?
        } else {
            None
        };
        proof {
            let first: Result<(Option<u32>, nat), DecodeError> = if f & 1 != 0 {
                decode_opt_f32(s.skip(1))
            } else {
                Ok((None, 0))
            };
            if let Ok((m, k1)) = first {
                if f & 2 != 0 {
                    if let Ok((x, k2)) = decode_opt_f32(s.skip((1 + k1) as int)) {
                        assert(s.skip((1 + k1) as int).skip(k2 as int) =~= s.skip((1 + k1 + k2) as int));
                    }
                } else {
                    assert(s.skip((1 + k1) as int) =~= s.skip((1 + k1 + 0) as int));
                }
            }
        }
        Ok(BrigadierFloat { min, max })
    }
}

/// Reading bounds never reads more bytes than there are.
proof fn lemma_bounds_len(s: Seq<u8>)
    ensures
        decode_integer_bounds(s) matches Ok((_, n)) ==> n <= s.len(),
        decode_long_bounds(s) matches Ok((_, n)) ==> n <= s.len(),
        decode_float_bounds(s) matches Ok((_, n)) ==> n <= s.len(),
{
    if s.len() >= 1 {
        let f = s[0];
        if let Ok((m, k1)) = decode_opt_u32(s.skip(1)) {
            if let Ok((x, k2)) = decode_opt_u32(s.skip((1 + k1) as int)) {
            }
        }
        if let Ok((m, k1)) = decode_opt_u64(s.skip(1)) {
            if let Ok((x, k2)) = decode_opt_u64(s.skip((1 + k1) as int)) {
            }
        }
    }
}

/// How the argument of a command node is parsed.
#[derive(Clone, Copy, PartialEq, Eq, Debug, Structural)]
pub enum Parser {
    BrigadierBool(bool),
    BrigadierFloat(BrigadierFloat),
    BrigadierInteger(BrigadierInteger),
    BrigadierLong(BrigadierLong),
}

/// The number that tags each kind of parser on the wire.
pub open spec fn parser_tag(p: Parser) -> i32 {
    match p {
        Parser::BrigadierBool(_) => 0,
        Parser::BrigadierFloat(_) => 1,
        Parser::BrigadierInteger(_) => 2,
        Parser::BrigadierLong(_) => 3,
    }
}

/// Each kind of parser is tagged with its number in the protocol:
/// `brigadier:bool` 0, `brigadier:float` 1, `brigadier:integer` 2 and
/// `brigadier:long` 3, whatever its properties.
pub proof fn parser_tag_law(b: bool, f: BrigadierFloat, i: BrigadierInteger, l: BrigadierLong)
    ensures
        parser_tag(Parser::BrigadierBool(b)) == 0,
        parser_tag(Parser::BrigadierFloat(f)) == 1,
        parser_tag(Parser::BrigadierInteger(i)) == 2,
        parser_tag(Parser::BrigadierLong(l)) == 3,
{
}

/// What writing a parser gives: its tag as a VarInt, then its properties.
pub open spec fn parser_write(p: Parser) -> (Seq<u8>, Result<(), EncodeError>) {
    let tag = varint_bytes(parser_tag(p) as u32);
    match p {
        Parser::BrigadierBool(b) => (tag.push(if b { 1u8 } else { 0u8 }), Ok(())),
        Parser::BrigadierFloat(f) => then_write((tag, Ok(())), float_bounds_write(f)),
        Parser::BrigadierInteger(i) => (
            tag + seq![bounds_flags(i.min is Some, i.max is Some)] + opt_i32_bytes(i.min)
                + opt_i32_bytes(i.max),
            Ok(()),
        ),
        Parser::BrigadierLong(l) => (
            tag + seq![bounds_flags(l.min is Some, l.max is Some)] + opt_i64_bytes(l.min)
                + opt_i64_bytes(l.max),
            Ok(()),
        ),
    }
}

/// What reading the properties of a parser with tag `tag` from `s` gives,
/// with the bytes read.
pub open spec fn decode_parser_body(tag: u32, s: Seq<u8>) -> Result<(Parser, nat), DecodeError> {
    if tag == 0 {
        if s.len() < 1 {
            Err(DecodeError::UnexpectedEof)
        } else if s[0] >= 2 {
            Err(DecodeError::InvalidBool)
        } else {
            Ok((Parser::BrigadierBool(s[0] == 1), 1))
        }
    } else if tag == 1 {
        match decode_float_bounds(s) {
            Err(e) => Err(e),
            Ok((f, k)) => Ok((Parser::BrigadierFloat(f), k)),
        }
    } else if tag == 2 {
        match decode_integer_bounds(s) {
            Err(e) => Err(e),
            Ok((i, k)) => Ok((Parser::BrigadierInteger(i), k)),
        }
    } else if tag == 3 {
        match decode_long_bounds(s) {
            Err(e) => Err(e),
            Ok((l, k)) => Ok((Parser::BrigadierLong(l), k)),
        }
    } else {
        Err(DecodeError::InvalidVariant)
    }
}

/// What reading a parser from `s` gives, with the bytes read: a VarInt tag,
/// then the properties of the kind of parser it names.
pub open spec fn decode_parser(s: Seq<u8>) -> Result<(Parser, nat), DecodeError> {
    match varint_decode(s) {
        Err(e) => Err(e),
        Ok((tag, n)) => match decode_parser_body(tag, s.skip(n as int)) {
            Err(e) => Err(e),
            Ok((p, k)) => Ok((p, n + k)),
        },
    }
}

impl Parser {
    /// Appends the tag of the parser as a VarInt, then its properties.
    pub fn encode(&self, w: &mut Vec<u8>) -> (r: Result<(), EncodeError>)
        ensures
            final(w)@ == old(w)@ + parser_write(*self).0,
            r == parser_write(*self).1,
    {
        let ghost w0 = w@;
        match self {
            Parser::BrigadierBool(b) => {
                VarInt(0).encode(w)?;
                write_bool(w, *b);
                assert(w@ =~= w0 + parser_write(*self).0);
                Ok(())
            },
            Parser::BrigadierFloat(f) => {
                VarInt(1).encode(w)?;
                let r = f.encode(w);
                assert(w@ =~= w0 + parser_write(*self).0);
                r
            },
            Parser::BrigadierInteger(i) => {
                VarInt(2).encode(w)?;
                i.encode(w);
                assert(w@ =~= w0 + parser_write(*self).0);
                Ok(())
            },
            Parser::BrigadierLong(l) => {
                VarInt(3).encode(w)?;
                l.encode(w);
                assert(w@ =~= w0 + parser_write(*self).0);
                Ok(())
            },
        }
    }

    /// Reads the properties of a parser with tag `tag`.
    fn decode_body(tag: u32, r: &mut &[u8]) -> (res: Result<Parser, DecodeError>)
        ensures
            match decode_parser_body(tag, old(r)@) {
                Ok((p, n)) => res == Ok::<Parser, DecodeError>(p) && final(r)@ == old(r)@.skip(
                    n as int,
                ),
                Err(e) => res == Err::<Parser, DecodeError>(e),
            },
    {
        if tag == 0 {
            Ok(Parser::BrigadierBool(read_bool(r)?))
        } else if tag == 1 {
            Ok(Parser::BrigadierFloat(BrigadierFloat::decode(r)?))
        } else if tag == 2 {
            Ok(Parser::BrigadierInteger(BrigadierInteger::decode(r)?))
        } else if tag == 3 {
            Ok(Parser::BrigadierLong(BrigadierLong::decode(r)?))
        } else {
            Err(DecodeError::InvalidVariant)
        }
    }

    /// Reads a parser: its VarInt tag, then its properties.
    #[verifier::spinoff_prover]
    #[verifier::rlimit(40)]
    pub fn decode(r: &mut &[u8]) -> (res: Result<Parser, DecodeError>)
        ensures
            match decode_parser(old(r)@) {
                Ok((p, n)) => res == Ok::<Parser, DecodeError>(p) && final(r)@ == old(r)@.skip(
                    n as int,
                ),
                Err(e) => res == Err::<Parser, DecodeError>(e),
            },
    {
        let ghost s = r@;
        let tag = VarInt::decode(r)?.0;
        proof {
            crate::protocol::var_int::lemma_varint_decode_len(s, 0, 0);
            if let Ok((t, k)) = varint_decode(s) {
                crate::protocol::var_int::lemma_u32_through_i32(t);
                lemma_bounds_len(s.skip(k as int));
            }
        }
        let ghost rest = r@;
        let res = Self::decode_body(tag as u32, r);
        proof {
            if let Ok((t, k)) = varint_decode(s) {
                if let Ok((p, j)) = decode_parser_body(t, rest) {
                    assert(j <= rest.len());
                    assert(rest.skip(j as int) =~= s.skip((k + j) as int));
                }
            }
        }
        res
    }
}

/// The data of a literal node: the word it matches.
#[derive(Clone, Debug)]
pub struct Literal {
    pub name: String,
}

/// The data of an argument node: its name, how it is parsed, and where
/// suggestions for it come from.
#[derive(Clone, Debug)]
pub struct Argument {
    pub name: String,
    pub parser: Parser,
    pub suggestions_type: Option<Ident>,
}

/// What a node of the command graph is.
#[derive(Clone, Debug)]
pub enum NodeData {
    Root,
    Literal(Literal),
    Argument(Argument),
}

/// A node of the command graph: the indices of its children, what it is,
/// whether a command may end at it, and the node it redirects to.
#[derive(Clone, Debug)]
pub struct Node {
    pub children: Vec<VarInt>,
    pub data: NodeData,
    pub is_executable: bool,
    pub redirect_node: Option<VarInt>,
}

/// The flags byte written for a node. It is computed as the kind of the
/// node (0, 1 or 2), the executable bit (4), the redirect bit (8) and the
/// suggestions bit (4) joined with AND, so it is always zero.
pub open spec fn node_flags() -> u8 {
    0
}

/// The VarInts of `v`, one after the other.
pub open spec fn varints_bytes(v: Seq<VarInt>) -> Seq<u8>
    decreases v.len(),
{
    if v.len() == 0 {
        Seq::empty()
    } else {
        varints_bytes(v.drop_last()) + varint_bytes(v.last().0 as u32)
    }
}

/// What writing a list of VarInts gives: its length as a VarInt, then the
/// VarInts; a list longer than `i32::MAX` is refused.
pub open spec fn varints_write(v: Seq<VarInt>) -> (Seq<u8>, Result<(), EncodeError>) {
    if v.len() <= i32::MAX {
        (varint_bytes(v.len() as u32) + varints_bytes(v), Ok(()))
    } else {
        (Seq::empty(), Err(EncodeError::LengthOutOfBounds))
    }
}

/// What writing a string of at most 32767 characters gives.
pub open spec fn string_write(c: Seq<char>) -> (Seq<u8>, Result<(), EncodeError>) {
    if c.len() <= 32767 {
        (prefixed_bytes(vstd::utf8::encode_utf8(c)), Ok(()))
    } else {
        (Seq::empty(), Err(EncodeError::CharCountOutOfBounds))
    }
}

/// What writing the data of a node gives: nothing for the root; the name
/// of a literal; the name, the parser and the suggestions of an argument.
pub open spec fn data_write(d: NodeData) -> (Seq<u8>, Result<(), EncodeError>) {
    match d {
        NodeData::Root => (Seq::empty(), Ok(())),
        NodeData::Literal(l) => string_write(l.name@),
        NodeData::Argument(a) => then_write(
            string_write(a.name@),
            then_write(
                parser_write(a.parser),
                match a.suggestions_type {
                    Some(id) => string_write(id.spec_string()),
                    None => (Seq::empty(), Ok(())),
                },
            ),
        ),
    }
}

/// What writing a node gives: the flags byte, the children, the redirect
/// when there is one, and the data.
pub open spec fn node_write(n: Node) -> (Seq<u8>, Result<(), EncodeError>) {
    then_write(
        (seq![node_flags()], Ok(())),
        then_write(
            varints_write(n.children@),
            then_write(
                match n.redirect_node {
                    Some(v) => (varint_bytes(v.0 as u32), Ok(())),
                    None => (Seq::empty(), Ok(())),
                },
                data_write(n.data),
            ),
        ),
    )
}

/// Appends a list of VarInts: its length as a VarInt, then the VarInts.
fn encode_varints(v: &Vec<VarInt>, w: &mut Vec<u8>) -> (r: Result<(), EncodeError>)
    ensures
        final(w)@ == old(w)@ + varints_write(v@).0,
        r == varints_write(v@).1,
{
    if v.len() > 0x7fff_ffff {
        return Err(EncodeError::LengthOutOfBounds);
    }
    let ghost w0 = w@;
    proof {
        crate::protocol::var_int::lemma_usize_through_i32(v.len());
    }
    VarInt(v.len() as i32).encode(w)?;
    let ghost w1 = w@;
    let mut i: usize = 0;
    while i < v.len()
        invariant
            0 <= i <= v@.len(),
            w@ == w1 + varints_bytes(v@.take(i as int)),
        decreases v@.len() - i,
    {
        v[i].encode(w)?;
        proof {
            assert(v@.take(i + 1).drop_last() =~= v@.take(i as int));
        }
        i = i + 1;
    }
    proof {
        assert(v@.take(v@.len() as int) =~= v@);
        assert(w1 == w0 + varint_bytes(v@.len() as u32));
    }
    Ok(())
}

/// Appends a string of at most 32767 characters.
fn encode_name(c: &str, w: &mut Vec<u8>) -> (r: Result<(), EncodeError>)
    ensures
        final(w)@ == old(w)@ + string_write(c@).0,
        r == string_write(c@).1,
{
    proof {
        crate::protocol::lemma_utf8_len_bound(c@);
    }
    let r = encode_string_bounded(c, 0, 32767, w);
    proof {
        if c@.len() > 32767 {
            assert(w@ =~= old(w)@ + Seq::<u8>::empty());
        }
    }
    match r {
        Ok(()) => Ok(()),
        Err(e) => Err(e),
    }
}

fn node_flags_byte(kind: u8, executable: bool, redirect: bool, suggestions: bool) -> (f: u8)
    requires
        kind <= 2,
    ensures
        f == node_flags(),
{
    let e: u8 = if executable {
        4
    } else {
        0
    };
    let r: u8 = if redirect {
        8
    } else {
        0
    };
    let g: u8 = if suggestions {
        4
    } else {
        0
    };
    let f = kind & e & r & g;
    assert(kind <= 2 && (e == 0 || e == 4) ==> kind & e & r & g == 0) by (bit_vector);
    f
}

impl NodeData {
    /// Appends the data of a node.
    pub fn encode(&self, w: &mut Vec<u8>) -> (r: Result<(), EncodeError>)
        ensures
            final(w)@ == old(w)@ + data_write(*self).0,
            r == data_write(*self).1,
    {
        let ghost w0 = w@;
        match self {
            NodeData::Root => {
                assert(w@ =~= w0 + Seq::<u8>::empty());
                Ok(())
            },
            NodeData::Literal(l) => encode_name(l.name.as_str(), w),
            NodeData::Argument(a) => {
                let r1 = encode_name(a.name.as_str(), w);
                if r1.is_err() {
                    return r1;
                }
                let ghost w1 = w@;
                let r2 = a.parser.encode(w);
                if r2.is_err() {
                    assert(w@ =~= w0 + data_write(*self).0);
                    return r2;
                }
                let ghost w2 = w@;
                let r3 = match &a.suggestions_type {
                    Some(id) => {
                        proof {
                            crate::protocol::lemma_utf8_len_bound(id.spec_string());
                        }
                        match id.encode(w) {
                            Ok(()) => Ok(()),
                            Err(e) => Err(e),
                        }
                    },
                    None => Ok(()),
                };
                proof {
                    if a.suggestions_type is None {
                        assert(w@ =~= w2 + Seq::<u8>::empty());
                    } else if a.suggestions_type.unwrap().spec_string().len() > 32767 {
                        assert(w@ =~= w2 + Seq::<u8>::empty());
                    }
                    assert(w@ =~= w0 + data_write(*self).0);
                }
                r3
            },
        }
    }
}

impl Node {
    /// Appends the node: the flags byte, the children, the redirect when
    /// there is one, and the data; the first part that cannot be written
    /// stops the writing with an error.
    pub fn encode(&self, w: &mut Vec<u8>) -> (r: Result<(), EncodeError>)
        ensures
            final(w)@ == old(w)@ + node_write(*self).0,
            r == node_write(*self).1,
    {
        let ghost w0 = w@;
        let kind: u8 = match &self.data {
            NodeData::Root => 0,
            NodeData::Literal(_) => 1,
            NodeData::Argument(_) => 2,
        };
        let suggestions = match &self.data {
            NodeData::Argument(a) => a.suggestions_type.is_some(),
            _ => false,
        };
        let f = node_flags_byte(kind, self.is_executable, self.redirect_node.is_some(), suggestions);
        write_u8(w, f);
        let ghost w1 = w@;
        let r1 = encode_varints(&self.children, w);
        if r1.is_err() {
            assert(w@ =~= w0 + node_write(*self).0);
            return r1;
        }
        let ghost w2 = w@;
        if let Some(v) = self.redirect_node {
            v.encode(w)?;
        }
        let ghost w3 = w@;
        let r3 = self.data.encode(w);
        proof {
            if self.redirect_node is None {
                assert(w3 =~= w2 + Seq::<u8>::empty());
            }
            assert(w@ =~= w0 + node_write(*self).0);
        }
        r3
    }
}

/// What a node's data is, as plain values: a literal's name, or an
/// argument's name, parser and suggestions identifier.
pub enum NodeDataView {
    Root,
    Literal(Seq<char>),
    Argument(Seq<char>, Parser, Option<Seq<char>>),
}

/// A node as plain values.
pub struct NodeView {
    pub children: Seq<VarInt>,
    pub data: NodeDataView,
    pub is_executable: bool,
    pub redirect_node: Option<VarInt>,
}

impl View for NodeData {
    type V = NodeDataView;

    open spec fn view(&self) -> NodeDataView {
        match self {
            NodeData::Root => NodeDataView::Root,
            NodeData::Literal(l) => NodeDataView::Literal(l.name@),
            NodeData::Argument(a) => NodeDataView::Argument(
                a.name@,
                a.parser,
                match a.suggestions_type {
                    Some(id) => Some(id.spec_string()),
                    None => None,
                },
            ),
        }
    }
}

impl View for Node {
    type V = NodeView;

    open spec fn view(&self) -> NodeView {
        NodeView {
            children: self.children@,
            data: self.data@,
            is_executable: self.is_executable,
            redirect_node: self.redirect_node,
        }
    }
}

/// What reading `k` VarInts one after the other from `s` gives, with the
/// bytes read.
pub open spec fn decode_varints_n(s: Seq<u8>, k: nat) -> Result<(Seq<VarInt>, nat), DecodeError>
    decreases k,
{
    if k == 0 {
        Ok((Seq::empty(), 0))
    } else {
        match decode_varints_n(s, (k - 1) as nat) {
            Err(e) => Err(e),
            Ok((vs, n)) => match varint_decode(s.skip(n as int)) {
                Err(e) => Err(e),
                Ok((v, m)) => Ok((vs.push(VarInt(v as i32)), n + m)),
            },
        }
    }
}

/// What reading a list of VarInts gives: a VarInt length, which must not be
/// negative, then that many VarInts.
pub open spec fn decode_varint_list(s: Seq<u8>) -> Result<(Seq<VarInt>, nat), DecodeError> {
    match varint_decode(s) {
        Err(e) => Err(e),
        Ok((len, n)) => if (len as i32) < 0 {
            Err(DecodeError::LengthOutOfBounds)
        } else {
            match decode_varints_n(s.skip(n as int), (len as i32) as nat) {
                Err(e) => Err(e),
                Ok((vs, m)) => Ok((vs, n + m)),
            }
        },
    }
}

/// What reading an optional VarInt gives: a boolean byte, then the VarInt
/// when it is 1.
pub open spec fn decode_opt_varint(s: Seq<u8>) -> Result<(Option<VarInt>, nat), DecodeError> {
    if s.len() < 1 {
        Err(DecodeError::UnexpectedEof)
    } else if s[0] >= 2 {
        Err(DecodeError::InvalidBool)
    } else if s[0] == 0 {
        Ok((None, 1))
    } else {
        match varint_decode(s.skip(1)) {
            Err(e) => Err(e),
            Ok((v, n)) => Ok((Some(VarInt(v as i32)), 1 + n)),
        }
    }
}

/// What reading an optional identifier gives: a boolean byte, then, when it
/// is 1, a string of at most 32767 characters that must be a valid
/// identifier.
pub open spec fn decode_opt_ident(s: Seq<u8>) -> Result<(Option<Seq<char>>, nat), DecodeError> {
    if s.len() < 1 {
        Err(DecodeError::UnexpectedEof)
    } else if s[0] >= 2 {
        Err(DecodeError::InvalidBool)
    } else if s[0] == 0 {
        Ok((None, 1))
    } else {
        match crate::protocol::decode_string_spec(s.skip(1), 0, 32767) {
            Err(e) => Err(e),
            Ok((c, n)) => match crate::ident::ident_path_start(c) {
                Some(_) => Ok((Some(c), 1 + n)),
                None => Err(DecodeError::InvalidIdent),
            },
        }
    }
}

/// What reading the data of a node of kind `kind` gives: nothing for the
/// root (0); a name for a literal (1); a name, a parser and, when
/// `suggestions` is set, an optional identifier for an argument (2). Any
/// other kind is refused.
#[verifier::opaque]
pub open spec fn decode_node_data(kind: u8, suggestions: bool, s: Seq<u8>) -> Result<
    (NodeDataView, nat),
    DecodeError,
> {
    if kind == 0 {
        Ok((NodeDataView::Root, 0))
    } else if kind == 1 {
        match crate::protocol::decode_string_spec(s, 0, 32767) {
            Err(e) => Err(e),
            Ok((c, n)) => Ok((NodeDataView::Literal(c), n)),
        }
    } else if kind == 2 {
        match crate::protocol::decode_string_spec(s, 0, 32767) {
            Err(e) => Err(e),
            Ok((c, n)) => match decode_parser(s.skip(n as int)) {
                Err(e) => Err(e),
                Ok((p, m)) => if suggestions {
                    match decode_opt_ident(s.skip((n + m) as int)) {
                        Err(e) => Err(e),
                        Ok((g, k)) => Ok((NodeDataView::Argument(c, p, g), n + m + k)),
                    }
                } else {
                    Ok((NodeDataView::Argument(c, p, None), n + m))
                },
            },
        }
    } else {
        Err(DecodeError::InvalidVariant)
    }
}

/// What reading a node gives: the flags byte; an optional redirect when bit
/// 8 is set; the children; then the data of the kind in the two low bits,
/// with suggestions read when bit 16 is set. Bit 4 says whether the node is
/// executable.
pub open spec fn decode_node(s: Seq<u8>) -> Result<(NodeView, nat), DecodeError> {
    if s.len() < 1 {
        Err(DecodeError::UnexpectedEof)
    } else {
        let f = s[0];
        let redirect = if f & 8 != 0 {
            decode_opt_varint(s.skip(1))
        } else {
            Ok((None, 0))
        };
        match redirect {
            Err(e) => Err(e),
            Ok((rd, k1)) => match decode_varint_list(s.skip((1 + k1) as int)) {
                Err(e) => Err(e),
                Ok((ch, k2)) => match decode_node_data(f & 3, f & 16 != 0, s.skip((1 + k1 + k2) as int)) {
                    Err(e) => Err(e),
                    Ok((d, k3)) => Ok((
                        NodeView {
                            children: ch,
                            data: d,
                            is_executable: f & 4 != 0,
                            redirect_node: rd,
                        },
                        1 + k1 + k2 + k3,
                    )),
                },
            },
        }
    }
}

proof fn lemma_varints_n_err(s: Seq<u8>, k: nat, j: nat)
    requires
        k <= j,
        decode_varints_n(s, k) is Err,
    ensures
        decode_varints_n(s, j) == decode_varints_n(s, k),
    decreases j - k,
{
    if k < j {
        lemma_varints_n_err(s, k, (j - 1) as nat);
    }
}

proof fn lemma_varints_n_len(s: Seq<u8>, k: nat)
    ensures
        decode_varints_n(s, k) matches Ok((vs, n)) ==> n <= s.len() && vs.len() == k,
    decreases k,
{
    if k > 0 {
        lemma_varints_n_len(s, (k - 1) as nat);
        if let Ok((vs, n)) = decode_varints_n(s, (k - 1) as nat) {
            crate::protocol::var_int::lemma_varint_decode_len(s.skip(n as int), 0, 0);
        }
    }
}

/// Reads a list of VarInts: its length, then the VarInts.
fn read_varint_list(r: &mut &[u8]) -> (res: Result<Vec<VarInt>, DecodeError>)
    ensures
        match decode_varint_list(old(r)@) {
            Ok((vs, n)) => res matches Ok(v) && v@ == vs && final(r)@ == old(r)@.skip(n as int),
            Err(e) => res == Err::<Vec<VarInt>, DecodeError>(e),
        },
{
    let ghost s0 = r@;
    let len = VarInt::decode(r)?.0;
    proof {
        crate::protocol::var_int::lemma_varint_decode_len(s0, 0, 0);
    }
    if len < 0 {
        return Err(DecodeError::LengthOutOfBounds);
    }
    let ghost t = r@;
    let ghost n0: nat = match varint_decode(s0) {
        Ok((_, m)) => m,
        Err(_) => 0,
    };
    let ghost mut used: nat = 0;
    let mut res: Vec<VarInt> = Vec::new();
    let mut i: i32 = 0;
    while i < len
        invariant
            0 <= i <= len,
            decode_varints_n(t, i as nat) == Ok::<(Seq<VarInt>, nat), DecodeError>((res@, used)),
            used <= t.len(),
            r@ == t.skip(used as int),
            varint_decode(s0) matches Ok((x, m)) && m == n0 && x as i32 == len,
            t == s0.skip(n0 as int),
            s0 == old(r)@,
        decreases len - i,
    {
        let ghost before = r@;
        proof {
            crate::protocol::var_int::lemma_varint_decode_len(before, 0, 0);
        }
        let v = match VarInt::decode(r) {
            Ok(v) => v,
            Err(e) => {
                proof {
                    assert(decode_varints_n(t, (i + 1) as nat) == Err::<(Seq<VarInt>, nat), DecodeError>(e));
                    lemma_varints_n_err(t, (i + 1) as nat, len as nat);
                }
                return Err(e);
            },
        };
        proof {
            if let Ok((x, m)) = varint_decode(before) {
                assert(t.skip((used + m) as int) =~= before.skip(m as int));
                used = used + m;
            }
        }
        res.push(v);
        i = i + 1;
    }
    proof {
        assert(r@ =~= s0.skip((n0 + used) as int));
    }
    Ok(res)
}

/// Reads an optional VarInt: a boolean, then the VarInt when it is true.
fn read_opt_varint(r: &mut &[u8]) -> (res: Result<Option<VarInt>, DecodeError>)
    ensures
        match decode_opt_varint(old(r)@) {
            Ok((v, n)) => res == Ok::<Option<VarInt>, DecodeError>(v) && final(r)@ == old(r)@.skip(
                n as int,
            ),
            Err(e) => res == Err::<Option<VarInt>, DecodeError>(e),
        },
{
    let ghost s0 = r@;
    if read_bool(r)? {
        let v = VarInt::decode(r)?;
        proof {
            crate::protocol::var_int::lemma_varint_decode_len(s0.skip(1), 0, 0);
            if let Ok((x, n)) = varint_decode(s0.skip(1)) {
                assert(r@ =~= s0.skip((1 + n) as int));
            }
        }
        Ok(Some(v))
    } else {
        Ok(None)
    }
}

/// Reads an optional identifier: a boolean, then the identifier when it is
/// true.
fn read_opt_ident(r: &mut &[u8]) -> (res: Result<Option<Ident>, DecodeError>)
    ensures
        match decode_opt_ident(old(r)@) {
            Ok((c, n)) => res matches Ok(g) && (match g {
                Some(id) => c == Some(id.spec_string()),
                None => c is None,
            }) && final(r)@ == old(r)@.skip(n as int),
            Err(e) => res == Err::<Option<Ident>, DecodeError>(e),
        },
{
    let ghost s0 = r@;
    if read_bool(r)? {
        let id = Ident::decode(r)?;
        proof {
            if let Ok((c, n)) = crate::protocol::decode_string_spec(s0.skip(1), 0, 32767) {
                lemma_string_len(s0.skip(1));
                assert(r@ =~= s0.skip((1 + n) as int));
            }
        }
        Ok(Some(id))
    } else {
        Ok(None)
    }
}

proof fn lemma_string_len(s: Seq<u8>)
    ensures
        crate::protocol::decode_string_spec(s, 0, 32767) matches Ok((_, n)) ==> n <= s.len(),
{
    crate::protocol::var_int::lemma_varint_decode_len(s, 0, 0);
}

proof fn lemma_parts_len(s: Seq<u8>)
    ensures
        decode_parser(s) matches Ok((_, n)) ==> n <= s.len(),
        decode_opt_varint(s) matches Ok((_, n)) ==> n <= s.len(),
        decode_varint_list(s) matches Ok((_, n)) ==> n <= s.len(),
        crate::protocol::decode_string_spec(s, 0, 32767) matches Ok((_, n)) ==> n <= s.len(),
{
    crate::protocol::var_int::lemma_varint_decode_len(s, 0, 0);
    lemma_string_len(s);
    if s.len() >= 1 {
        crate::protocol::var_int::lemma_varint_decode_len(s.skip(1), 0, 0);
    }
    if let Ok((v, n)) = varint_decode(s) {
        lemma_bounds_len(s.skip(n as int));
        lemma_varints_n_len(s.skip(n as int), (v as i32) as nat);
    }
}

proof fn lemma_node_data_len(kind: u8, suggestions: bool, s: Seq<u8>)
    ensures
        decode_node_data(kind, suggestions, s) matches Ok((_, n)) ==> n <= s.len(),
{
    reveal(decode_node_data);
    lemma_parts_len(s);
    if let Ok((c, n)) = crate::protocol::decode_string_spec(s, 0, 32767) {
        lemma_parts_len(s.skip(n as int));
        if let Ok((p, m)) = decode_parser(s.skip(n as int)) {
            let t = s.skip((n + m) as int);
            if t.len() >= 1 {
                lemma_string_len(t.skip(1));
            }
        }
    }
}

impl NodeData {
    #[verifier::spinoff_prover]
    #[verifier::rlimit(60)]
    fn decode_argument(suggestions: bool, r: &mut &[u8]) -> (res: Result<NodeData, DecodeError>)
        ensures
            match decode_node_data(2, suggestions, old(r)@) {
                Ok((d, n)) => res matches Ok(x) && x@ == d && final(r)@ == old(r)@.skip(n as int),
                Err(e) => res == Err::<NodeData, DecodeError>(e),
            },
    {
        let ghost s0 = r@;
        proof {
            reveal(decode_node_data);
            lemma_parts_len(s0);
        }
        let name = crate::protocol::decode_string_bounded(0, 32767, r)?;
        let ghost s1 = r@;
        let ghost n: nat = match crate::protocol::decode_string_spec(s0, 0, 32767) {
            Ok((_, k)) => k,
            Err(_) => 0,
        };
        proof {
            assert(s1 =~= s0.skip(n as int));
            lemma_parts_len(s1);
        }
        let parser = Parser::decode(r)?;
        let ghost s2 = r@;
        let ghost m: nat = match decode_parser(s1) {
            Ok((_, k)) => k,
            Err(_) => 0,
        };
        proof {
            assert(s2 =~= s0.skip((n + m) as int));
        }
        let suggestions_type = if suggestions {
            let g = read_opt_ident(r)?;
            proof {
                if let Ok((c, k)) = decode_opt_ident(s2) {
                    assert(r@ =~= s0.skip((n + m + k) as int));
                }
            }
            g
        } else {
            None
        };
        Ok(NodeData::Argument(Argument { name, parser, suggestions_type }))
    }

    /// Reads the data of a node of kind `kind`, with the suggestions
    /// identifier of an argument read only when `suggestions` is set.
    fn decode_kind(kind: u8, suggestions: bool, r: &mut &[u8]) -> (res: Result<NodeData, DecodeError>)
        ensures
            match decode_node_data(kind, suggestions, old(r)@) {
                Ok((d, n)) => res matches Ok(x) && x@ == d && final(r)@ == old(r)@.skip(n as int),
                Err(e) => res == Err::<NodeData, DecodeError>(e),
            },
    {
        let ghost s0 = r@;
        proof {
            reveal(decode_node_data);
        }
        if kind == 0 {
            assert(r@ =~= s0.skip(0));
            Ok(NodeData::Root)
        } else if kind == 1 {
            let name = crate::protocol::decode_string_bounded(0, 32767, r)?;
            Ok(NodeData::Literal(Literal { name }))
        } else if kind == 2 {
            Self::decode_argument(suggestions, r)
        } else {
            Err(DecodeError::InvalidVariant)
        }
    }
}

impl Node {
    /// Reads a node: the flags byte, the redirect when its bit is set, the
    /// children, then the data of the kind the flags name.
    #[verifier::spinoff_prover]
    #[verifier::rlimit(60)]
    pub fn decode(r: &mut &[u8]) -> (res: Result<Node, DecodeError>)
        ensures
            match decode_node(old(r)@) {
                Ok((v, n)) => res matches Ok(x) && x@ == v && final(r)@ == old(r)@.skip(n as int),
                Err(e) => res == Err::<Node, DecodeError>(e),
            },
    {
        let ghost s0 = r@;
        let flags = read_u8(r)?;
        let is_executable = flags & 4 != 0;
        proof {
            lemma_parts_len(s0.skip(1));
        }
        let redirect_node = if flags & 8 != 0 {
            read_opt_varint(r)?
        } else {
            None
        };
        let ghost s1 = r@;
        let ghost k1: nat = if flags & 8 != 0 {
            match decode_opt_varint(s0.skip(1)) {
                Ok((_, k)) => k,
                Err(_) => 0,
            }
        } else {
            0
        };
        proof {
            assert(s1 =~= s0.skip((1 + k1) as int));
            lemma_parts_len(s1);
        }
        let children = read_varint_list(r)?;
        let ghost s2 = r@;
        let ghost k2: nat = match decode_varint_list(s1) {
            Ok((_, k)) => k,
            Err(_) => 0,
        };
        proof {
            assert(s2 =~= s0.skip((1 + k1 + k2) as int));
        }
        let data = NodeData::decode_kind(flags & 3, flags & 16 != 0, r)?;
        proof {
            lemma_node_data_len(flags & 3, flags & 16 != 0, s2);
            if let Ok((d, k3)) = decode_node_data(flags & 3, flags & 16 != 0, s2) {
                assert(r@ =~= s0.skip((1 + k1 + k2 + k3) as int));
            }
        }
        Ok(Node { children, data, is_executable, redirect_node })
    }
}

proof fn lemma_varints_roundtrip(v: Seq<VarInt>, rest: Seq<u8>)
    ensures
        decode_varints_n(varints_bytes(v) + rest, v.len()) == Ok::<(Seq<VarInt>, nat), DecodeError>(
            (v, varints_bytes(v).len()),
        ),
    decreases v.len(),
{
    if v.len() > 0 {
        let last = v.last();
        let tail = varint_bytes(last.0 as u32) + rest;
        lemma_varints_roundtrip(v.drop_last(), tail);
        let s = varints_bytes(v) + rest;
        assert(s =~= varints_bytes(v.drop_last()) + tail);
        assert(s.skip(varints_bytes(v.drop_last()).len() as int) =~= tail);
        crate::protocol::var_int::lemma_varint_roundtrip(last.0, rest);
        assert(varint_bytes(last.0 as u32).len() == crate::protocol::var_int::varint_size(
            last.0 as u32,
        ));
        assert(v.drop_last().push(VarInt(((last.0 as u32) as i32))) =~= v);
        assert(decode_varints_n(s, v.len()) == Ok::<(Seq<VarInt>, nat), DecodeError>(
            (v, varints_bytes(v).len()),
        ));
    } else {
        assert(v =~= Seq::<VarInt>::empty());
        assert(varints_bytes(v) + rest =~= rest);
    }
}

/// Every node whose children can be written is written with a zero flags
/// byte, so reading it back gives a root node that is not executable and
/// has no redirect, with the same children, and takes only the flags byte
/// and the children. A root node that is not executable and has no
/// redirect therefore reads back as itself, taking every byte written.
pub proof fn node_roundtrip_law(n: Node, rest: Seq<u8>)
    requires
        n.children@.len() <= i32::MAX,
    ensures
        decode_node(node_write(n).0 + rest) == Ok::<(NodeView, nat), DecodeError>(
            (
                NodeView {
                    children: n.children@,
                    data: NodeDataView::Root,
                    is_executable: false,
                    redirect_node: None,
                },
                1 + varints_write(n.children@).0.len(),
            ),
        ),
        (n.data is Root && !n.is_executable && n.redirect_node is None) ==> decode_node(
            node_write(n).0 + rest,
        ) == Ok::<(NodeView, nat), DecodeError>((n@, node_write(n).0.len())),
{
    reveal(decode_node_data);
    let ch = n.children@;
    let lenb = varint_bytes(ch.len() as u32);
    let after = then_write(
        match n.redirect_node {
            Some(v) => (varint_bytes(v.0 as u32), Ok(())),
            None => (Seq::empty(), Ok(())),
        },
        data_write(n.data),
    ).0;
    let s = node_write(n).0 + rest;
    let t = after + rest;
    assert(s =~= seq![0u8] + (lenb + varints_bytes(ch) + t));
    assert(0u8 & 8 == 0 && 0u8 & 3 == 0 && 0u8 & 4 == 0 && 0u8 & 16 == 0) by (bit_vector);
    let s1 = s.skip(1);
    assert(s1 =~= lenb + (varints_bytes(ch) + t));
    crate::protocol::var_int::lemma_varint_roundtrip(ch.len() as i32, varints_bytes(ch) + t);
    assert(((ch.len() as i32) as u32) == ch.len() as u32) by {
        crate::protocol::var_int::lemma_u32_through_i32(ch.len() as u32);
    }
    assert(((ch.len() as u32) as i32) as nat == ch.len());
    assert(s1.skip(lenb.len() as int) =~= varints_bytes(ch) + t);
    lemma_varints_roundtrip(ch, t);
    if n.data is Root && n.redirect_node is None {
        assert(after =~= Seq::<u8>::empty());
    }
}

/// Reading back what was written gives the same bounds and takes every byte
/// written, for bounds without a least and a greatest value. With either
/// present the flags byte written is zero all the same, so the reader takes
/// no bound and stops after the flags byte.
pub proof fn bounds_roundtrip_law(i: BrigadierInteger, l: BrigadierLong, rest: Seq<u8>)
    requires
        i.min is None && i.max is None,
        l.min is None && l.max is None,
    ensures
        decode_integer_bounds(seq![bounds_flags(false, false)] + opt_i32_bytes(i.min)
            + opt_i32_bytes(i.max) + rest) == Ok::<(BrigadierInteger, nat), DecodeError>((i, 1)),
        decode_long_bounds(seq![bounds_flags(false, false)] + opt_i64_bytes(l.min) + opt_i64_bytes(
            l.max,
        ) + rest) == Ok::<(BrigadierLong, nat), DecodeError>((l, 1)),
{
    assert(0u8 & 1 == 0 && 0u8 & 2 == 0) by (bit_vector);
    let s = seq![0u8] + Seq::<u8>::empty() + Seq::<u8>::empty() + rest;
    assert(s[0] == 0u8);
}

} // verus!
