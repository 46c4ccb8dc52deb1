//! A chess rules engine: board snapshots, legal move generation, check
//! detection and state transitions, every function verified against its
//! contract.

pub mod coordinates;
pub mod pieces;
pub mod moves;
pub mod game;
