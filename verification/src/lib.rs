//! A chess rules engine with a fixed-depth game-tree search.
//!
//! Every rule is stated as a specification over a mathematical board (a
//! sequence of 64 optional pieces) and the executable code is proved to
//! compute exactly what the specification says.
pub mod player;
pub mod piece;
pub mod pawn;
pub mod knight;
pub mod bishop;
pub mod rook;
pub mod queen;
pub mod king;
pub mod rules;
pub mod board;
pub mod attack;
pub mod position;
pub mod game;
pub mod slide;
pub mod cache;
pub mod search;
pub mod play;
pub mod notation;
pub mod laws;
pub mod sound;
