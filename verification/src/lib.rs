//! A verified rules engine for a two-player game on an 8x8 board.
//!
//! The engine decides whether a proposed move is legal under per-piece
//! movement rules, applies legal moves to the board, tracks captured
//! pieces, and reports follow-up obligations (promotion, check).

pub mod board_manager;
pub mod chessboard;
pub mod chessboard_factory;
pub mod color;
pub mod direction;
pub mod game;
pub mod laws;
pub mod move_offsets;
pub mod piece;
pub mod position;
