//! A game as the analyzer loads it from the data files and the database.

use vstd::prelude::*;

use crate::server::api::internal_types;

verus! {

/// A recorded game: the recording, its hash, the client that sent it and,
/// where known, when it was recorded.
#[derive(Clone, Debug, PartialEq)]
pub struct Game {
    pub data_raw: String,
    pub hash: String,
    pub client: Option<String>,
    pub created_at: Option<i64>,
}

/// The name that stands for a client that did not say who it was.
pub open spec fn client_name(client: Option<String>) -> Seq<char> {
    match client {
        Some(c) => c@,
        None => "unknown"@,
    }
}

/// The client's name, or `"unknown"` when there is none.
pub fn client_or_unknown(client: &Option<String>) -> (name: String)
    ensures
        name@ == client_name(*client),
{
    match client {
        Some(c) => c.clone(),
        None => "unknown".to_owned(),
    }
}

impl Game {
    /// The analyzer's game for a game of a data file: the same recording, hash
    /// and client, recorded at the file's time.
    pub fn from_stored(g: internal_types::Game) -> (res: Game)
        ensures
            res.data_raw == g.data_raw,
            res.hash == g.hash,
            res.client == g.client,
            res.created_at == Some(g.created_at),
    {
        Game { data_raw: g.data_raw, hash: g.hash, client: g.client, created_at: Some(g.created_at) }
    }
}

} // verus!
