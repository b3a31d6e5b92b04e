//! A guessing game over salted digests: a player opens a session, receives
//! its salt, and submits guesses that are scored letter by letter against the
//! digest of a hidden random password.
//!
//! The crate decides and computes; it performs no I/O. Whoever drives it
//! carries the store requests it builds to a key-value store and hands the
//! answers back.

pub mod digest;
pub mod error;
pub mod game;
pub mod laws;
pub mod random;
pub mod scoring;
pub mod store;
