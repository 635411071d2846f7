//! Guild activity audit and rate-limiting core.
//!
//! Tracks per-message snapshots so that edits and deletions can be
//! reconstructed and classified after the fact, attributes deletions to an
//! actor by time-correlation against an audit trail, and enforces a
//! fixed-window request budget per (guild, channel, user) backed by a
//! pluggable counter store.

pub mod activity;
pub mod assoc;
pub mod attribution;
pub mod cache;
pub mod cases;
pub mod classify;
pub mod clock;
pub mod display;
pub mod error;
pub mod ids;
pub mod laws;
pub mod media;
pub mod pipeline;
pub mod rate;
pub mod snapshot;
pub mod text;
