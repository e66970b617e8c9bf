//! Angles in steps of 1/256 of a full turn.

use vstd::prelude::*;

use crate::protocol::{read_u8, write_u8, DecodeError};

verus! {

/// An angle in steps of 1/256 of a full turn.
#[derive(Clone, Copy, PartialEq, Eq, PartialOrd, Ord, Hash, Debug, Structural)]
pub struct ByteAngle(pub u8);

impl ByteAngle {
    /// Appends the angle as one byte.
    pub fn encode(&self, w: &mut Vec<u8>)
        ensures
            final(w)@ == old(w)@.push(self.0),
    {
        write_u8(w, self.0)
    }

    /// Reads an angle from one byte at the front of `r`.
    pub fn decode(r: &mut &[u8]) -> (res: Result<ByteAngle, DecodeError>)
        ensures
            old(r)@.len() >= 1 ==> res == Ok::<ByteAngle, DecodeError>(ByteAngle(old(r)@[0]))
                && final(r)@ == old(r)@.skip(1),
            old(r)@.len() == 0 ==> res == Err::<ByteAngle, DecodeError>(DecodeError::UnexpectedEof)
                && final(r)@ == old(r)@,
    {
        match read_u8(r) {
            Ok(b) => Ok(ByteAngle(b)),
            Err(e) => Err(e),
        }
    }
}

} // verus!
