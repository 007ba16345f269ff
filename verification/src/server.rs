//! The game server, as far as it exists: how a client is connected.

use vstd::prelude::*;

verus! {

/// A client that runs in the server's own process.
pub type Client = ();

/// How a client reaches the server.
pub enum ClientConnectionType<'a> {
    Remote,
    /// A client local to the server's machine. Messages are sent via direct
    /// calls. Only used for single player and for a player who hosts a
    /// non-dedicated server.
    Local(&'a Client),
}

/// The game server.
pub struct Server {}

} // verus!
