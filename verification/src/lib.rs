//! Session and matchmaking engine of a multiplayer game server: the identity,
//! player and lobby registries, the per-region queues and the request handlers
//! that keep them consistent.

pub mod client;
pub mod error;
pub mod events;
pub mod ident;
pub mod invariants;
pub mod laws;
pub mod lobby;
pub mod model;
pub mod networking;
pub mod parse;
pub mod preservation;
pub mod queue;
pub mod store;
pub mod tables;
