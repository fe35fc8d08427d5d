//! Decoder and classifier for the fixed-layout replay records of a puzzle game.
//!
//! A record is one little-endian byte buffer. [`replay::Replay::from_bytes`]
//! turns it into a typed [`replay::Replay`]; [`store::ReplayStore::classify`]
//! sorts a batch of decoded records into one ordered bucket per game mode,
//! and [`store::ReplayStore::new`] does both for a batch of buffers.
//!
//! Around that core stand the state of a list of the stored records
//! ([`manager`]) and the record of the players' display names ([`steam`]).
//! Nothing in this crate reads a file, draws or talks to a network.

pub mod error;
pub mod field;
pub mod manager;
pub mod mode;
pub mod modifier;
pub mod replay;
pub mod steam;
pub mod store;
pub mod text;
