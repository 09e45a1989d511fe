//! A falling-block puzzle simulation: pieces, rotation, board, line clears,
//! scoring and a bag-based piece queue, with contracts checked by Verus.

pub mod piece;
pub mod shape;
pub mod score;
pub mod queue;
pub mod board;
pub mod game;
