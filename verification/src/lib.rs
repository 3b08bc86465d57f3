//! Core logic of a Snake game on a toroidal grid.
//!
//! The game state machine (movement with wrap-around, the reversal guard,
//! self-collision detection, food placement and score accounting) lives in
//! [`game`], fully verified. The proofs of the game's global invariants are
//! collected in [`laws`].

pub mod game;
pub mod laws;
