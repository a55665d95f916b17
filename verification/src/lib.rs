//! A verified core for a local-first client-records manager.
//!
//! The crate keeps client records and, for each client, a gap-free numbered
//! sequence of sessions; it also derives where a session photograph is stored
//! and turns transport-encoded image payloads into bytes and back.

pub mod text;
pub mod models;
pub mod errors;
pub mod slot;
pub mod sequencer;
pub mod state;
mod clock;
pub mod store;
pub mod photo;
pub mod commands;
pub mod laws;
