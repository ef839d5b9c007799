//! Orchestration of a dealer-free card game: configuration, the coordinator
//! state machine and the per-player agent state, with the cryptographic
//! values carried in their canonical byte encodings.
pub mod config;
pub mod values;
pub mod error;
pub mod user_card;
pub mod player;
pub mod server;
pub mod protocol;
pub mod session;
