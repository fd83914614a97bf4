//! Settlement core of a pay-per-relay contract server: the balance ledger, the
//! share-token queue and settlement tick, the canonical digests that are signed,
//! and the checks that admit signed requests.
//!
//! The library decides; it does no I/O. Time, nonces, request bodies and what the
//! payment system answers are handed to it as plain values.

pub mod api;
pub mod auth;
pub mod b64e;
pub mod cfg;
pub mod contract;
pub mod decimal;
pub mod directory;
pub mod ed25519;
pub mod ps;
pub mod state;
pub mod text;
pub mod time;
