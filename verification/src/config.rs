//! How the server handles new connections.

use vstd::prelude::*;

verus! {

/// Describes how new connections to the server are handled.
#[derive(Clone, PartialEq, Eq, Debug)]
pub enum ConnectionMode {
    /// Player data comes from the session server and encryption is on.
    Online,
    /// No authentication; clients choose their username and UUID.
    Offline,
    /// Player data comes from a BungeeCord or legacy Velocity proxy.
    BungeeCord,
    /// Player data comes from a Velocity proxy in modern forwarding mode,
    /// which shares this secret key with the server.
    Velocity { secret: String },
}

impl ConnectionMode {
    /// Whether connections in this mode are authenticated and encrypted by
    /// the server itself.
    pub fn is_online(&self) -> (b: bool)
        ensures
            b == (*self is Online),
    {
        match self {
            ConnectionMode::Online => true,
            _ => false,
        }
    }
}

} // verus!
