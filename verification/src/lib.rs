//! Core of a chess position engine: board representation, compact move
//! encoding, make/unmake with history, attack detection and move generation.

pub mod attack;
pub mod bitset;
pub mod board;
pub mod game;
pub mod movegen;
pub mod moves;
pub mod piece;
pub mod rules;
pub mod state;
pub mod validate;
