//! The answers that the server gives.

use vstd::prelude::*;

verus! {

/// The answer to a liveness check.
pub enum AliveResponse {
    /// The server is up.
    Success,
}

/// What the server tells of itself.
#[derive(Debug, Clone)]
pub struct ServerConfig {
    pub platform: String,
    pub version: String,
    pub rust_version: String,
}

/// The answer to a configuration request.
pub enum GetConfigResponse {
    Success(ServerConfig),
}

/// The answer to a wipe request.
pub enum WipeResponse {
    /// The recorded games were wiped.
    Success,
    /// The key was missing or wrong; nothing was wiped.
    Unauthorized,
}

/// How much the server has gathered.
#[derive(Debug, Clone)]
pub struct Stats {
    pub recorded_games: usize,
}

/// The answer to a statistics request.
pub enum StatsResponse {
    Success(Stats),
}

/// The answer to a request to record a game.
pub enum RecordResponse {
    /// The game was recorded.
    Success,
    /// The recording is not a valid game.
    InvalidGame,
    /// A game with the same hash is already recorded.
    AlreadyExists,
}

/// A recorded game as the server hands it out.
#[derive(Debug, Clone)]
pub struct Game {
    pub data_raw: String,
    pub hash: String,
    pub client: Option<String>,
    pub created_at: i64,
}

/// The answer to a request for recorded games.
pub enum GetDataResponse {
    Success(Vec<Game>),
}

} // verus!
