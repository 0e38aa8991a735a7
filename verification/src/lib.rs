//! Number guessing, verified: the ledger that keeps finished games, and the
//! game that produces them.
//!
//! The ledger ([`contract`]) keeps game records under unique identifiers
//! ([`store`]), folds every accepted record into per-player statistics
//! ([`stats`], [`player`]), ranks the players on a cached leaderboard
//! ([`leaderboard`], [`ranking`]), settles the storage fee of each insertion
//! ([`settlement`]) and guards its admin operations ([`access`]). What holds
//! of the ledger across calls is proved in [`laws`]. The ledger is plain data
//! passed in and out: the host supplies the caller, the clock, the payment
//! and the storage readings as values.
//!
//! The game ([`session`], [`game`], [`manager`], [`server`]) plays one round
//! of guessing and leaves a record behind; [`storage`], [`retry`] and
//! [`calimero`] are what its client needs to get that record to the ledger.

pub mod access;
pub mod calimero;
pub mod contract;
pub mod error;
pub mod event;
pub mod game;
pub mod game_error;
pub mod laws;
pub mod leaderboard;
pub mod lookup;
pub mod manager;
pub mod player;
pub mod random;
pub mod ranking;
pub mod ratio;
pub mod record;
pub mod retry;
pub mod server;
pub mod session;
pub mod settlement;
pub mod stats;
pub mod storage;
pub mod store;
pub mod text;
pub mod utils;
