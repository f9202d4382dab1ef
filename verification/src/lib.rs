//! Spaced-repetition scheduling for a song-memorisation library.
//!
//! A learning record tracks one attempt at memorising one song.  Records move
//! through a fixed ladder of levels; each level carries a wait interval (in
//! days) taken from the interval curve in [`easing`].  The due predicate and
//! the record state machine live in [`schedule`], the batch enrollment and
//! level-transition engines over an in-memory store in [`engine`], and the
//! SQLite-backed commands in [`commands`].

pub mod commands;
pub mod easing;
pub mod encoding;
pub mod engine;
pub mod err;
pub mod error;
pub mod models;
pub mod report;
pub mod schedule;
pub mod store;
pub mod table_config;
pub mod text;
pub mod utils;
