//! A small colour service: clients pass a fixed line-oriented handshake and
//! are handed one snapshot of a shared RGB value, which a watcher keeps
//! current from a hex-encoded source.
//!
//! This crate holds the rules of that service as plain functions on plain
//! values; sockets, timers and locks belong to the program around it.

pub mod color;
pub mod exchange;
pub mod future;
pub mod handshake;
pub mod hex;
pub mod line;
pub mod text;
pub mod watcher;
