//! Keys of versioned slabs: an index and the version of the value stored there.

use vstd::prelude::*;

verus! {

/// A key into a versioned slab: the index of an entry and its version.
#[derive(Clone, Copy, PartialEq, Eq, PartialOrd, Ord, Hash, Debug, Structural)]
pub struct Key {
    pub index: u32,
    pub version: u32,
}

impl Key {
    pub fn new(index: u32, version: u32) -> (k: Self)
        ensures
            k == (Key { index, version }),
    {
        Key { index, version }
    }

    /// The key that never names a value.
    pub open spec fn null_spec() -> Self {
        Key { index: u32::MAX, version: u32::MAX }
    }

    /// The key that never names a value.
    pub fn null() -> (k: Self)
        ensures
            k == (Key { index: u32::MAX, version: u32::MAX }),
    {
        Key { index: u32::MAX, version: u32::MAX }
    }

    pub fn index(self) -> (i: u32)
        ensures
            i == self.index,
    {
        self.index
    }

    pub fn version(self) -> (v: u32)
        ensures
            v == self.version,
    {
        self.version
    }
}

impl Default for Key {
    fn default() -> (k: Self)
        ensures
            k == (Key { index: u32::MAX, version: u32::MAX }),
    {
        Key::null()
    }
}

} // verus!
