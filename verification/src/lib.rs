//! Interaction-orchestration core for a minesweeper client.
//!
//! This library turns pointer gestures on a grid of cells into engine
//! operations (reveal, chord, flag), keeps the per-cell "pressed/revealing"
//! indicators consistent while several operations are in flight, tracks every
//! outstanding cancellable operation in a registry, and drives an autoplay
//! state machine that is mutually exclusive per session.  The engine itself
//! (board generation, reveal semantics, win/loss detection) and the solving
//! strategy are external collaborators: a driver reads snapshots from the
//! engine, feeds them to this library as plain values, and performs the
//! engine calls that the library's decision functions return.

pub mod auto;
pub mod board;
pub mod cell;
pub mod game;
pub mod grid;
pub mod laws;
pub mod registry;
pub mod settings;
pub mod snapshot;
pub mod state;
pub mod texture;
