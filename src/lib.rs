//! Legal chess move generation on bitboards, with reversible apply and undo.
#![allow(non_snake_case)]

pub mod bits;
pub mod geometry;
pub mod state;
pub mod pieces;
pub mod board;
pub mod analysis;
pub mod movegen;
pub mod laws;
pub mod perft;
pub mod fen;
