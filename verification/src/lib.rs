//! A chess engine: board and piece-position state, pseudo-legal move
//! generation with castling and promotion, pure state transitions, a
//! king-safety oracle, a tapered positional evaluation, and minimax search
//! with alpha-beta pruning.

pub mod ai;
pub mod engine;
pub mod evaluation;
pub mod figures;
pub mod input;
pub mod laws;
pub mod legality;
pub mod movegen;
pub mod transition;
