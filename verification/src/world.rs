//! Identifiers of worlds.

use vstd::prelude::*;

use crate::key::Key;

verus! {

/// The ID of a world: a key into the world slab.
#[derive(Clone, Copy, Default, PartialEq, Eq, PartialOrd, Ord, Hash, Debug, Structural)]
pub struct WorldId(pub Key);

impl WorldId {
    /// The ID that never names a world.
    pub fn null() -> (w: Self)
        ensures
            w.0 == Key::null_spec(),
    {
        WorldId(Key::null())
    }
}

} // verus!
