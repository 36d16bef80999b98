//! Core of a small chess server: the wire framing, the player policies, the
//! matchmaking slot, the transcript naming and the turn-by-turn coordinator.
//!
//! The library performs no input or output. Its caller owns the sockets, the
//! files and the lock; the library frames and checks bytes, decides what
//! happens next and says so in its results.

pub mod bytes;
pub mod connection;
pub mod engine;
pub mod evaluator;
pub mod frame;
pub mod game_coordinator;
pub mod player;
pub mod position;
pub mod rendezvous;
pub mod transcript;
