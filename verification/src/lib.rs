//! Gomoku engine core: board state, move encoding, zobrist hashing, Renju
//! forbidden-move rules, line patterns and threat search.

pub mod constants;
pub mod types;
pub mod zobrist;
pub mod board;
pub mod rules;
pub mod patterns;
pub mod threats;
pub mod search;
pub mod eval;
pub mod text;
pub mod config;
pub mod game;
pub mod protocol;
pub mod controller;
pub mod cli;
pub mod referee;
