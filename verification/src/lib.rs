//! Rules of a pocket-drop chess variant on top of a standard chess engine,
//! and a light Monte-Carlo tree search over its positions.

pub mod bitboard;
pub mod pocket;
pub mod error;
pub mod rules;
pub mod setup;
pub mod types;
pub mod drops;
pub mod board;
pub mod chance;
pub mod engine;
