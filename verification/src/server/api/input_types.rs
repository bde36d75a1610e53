//! The bodies of the requests that the server takes.

use vstd::prelude::*;

verus! {

/// A game to be recorded: the recording `r` and the client that played it.
pub struct RecordInput {
    pub r: String,
    pub client: String,
}

/// A request to wipe the recorded games, with the key that allows it.
pub struct WipeInput {
    pub key: String,
}

} // verus!
