//! Entities: their identifiers and the values of their metadata.

use vstd::prelude::*;

pub mod meta;
pub mod types;

use crate::key::Key;

verus! {

/// The ID of an entity: a key into the entity slab.
#[derive(Clone, Copy, Default, PartialEq, Eq, PartialOrd, Ord, Hash, Debug, Structural)]
pub struct EntityId(pub Key);

impl EntityId {
    /// The ID that never names an entity.
    pub fn null() -> (e: Self)
        ensures
            e.0 == Key::null_spec(),
    {
        EntityId(Key::null())
    }

    /// The ID the client knows this entity by: the version of its key.
    pub fn to_network_id(self) -> (n: i32)
        ensures
            n == self.0.version as i32,
    {
        self.0.version() as i32
    }
}

} // verus!
