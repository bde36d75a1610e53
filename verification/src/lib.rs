//! Analytics for recorded games of 2048: the game records that the server
//! accepts, the statistics that the analyzer draws from them, and the rules
//! that decide what is stored and what is answered.

pub mod analyzer;
pub mod engine_input;
pub mod filter;
pub mod game;
pub mod io;
pub mod libproxy;
pub mod server;
