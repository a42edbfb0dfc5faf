//! Decision core of a Santorini-style board game engine: the board and its
//! transition rules, move generation, a bounded evaluator and a time-limited
//! negamax search.
pub mod board_rep;
pub mod engine;
pub mod eval;
pub mod search;
pub mod squares;
pub mod time_management;
