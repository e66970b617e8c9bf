//! IDs of chunks in a chunk store.

use vstd::prelude::*;

use crate::component::{Id, IdData, IdRaw};

verus! {

/// The ID of a chunk.
#[derive(Clone, Copy, Default, PartialEq, Eq, Hash, Debug, Structural)]
pub struct ChunkId(pub IdData);

impl ChunkId {
    /// The ID that never names a chunk.
    pub fn null() -> (c: Self)
        ensures
            c.0 == (IdData { idx: u32::MAX, gen: u32::MAX }),
    {
        ChunkId(IdData::null())
    }
}

impl IdRaw for ChunkId {
    open spec fn spec_data(self) -> IdData {
        self.0
    }

    fn to_data(self) -> (d: IdData) {
        self.0
    }

    fn from_data(d: IdData) -> (s: Self) {
        ChunkId(d)
    }
}

impl Id for ChunkId {}

} // verus!
