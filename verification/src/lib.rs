//! Tic-tac-toe for one human against an exhaustive-minimax computer
//! opponent: the board model, terminal detection, the recursive utility
//! evaluator, optimal move selection, and the per-turn game transition.

pub mod board;
pub mod engine;
pub mod game;
pub mod input;
pub mod mark;
pub mod player;
pub mod square;
