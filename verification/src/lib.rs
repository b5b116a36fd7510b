//! The simulation engine of a falling-block puzzle game.
//!
//! The engine keeps every length as a fixed-point integer (see
//! [`constants::CELL`]), so that the whole state machine is exact and can be
//! reasoned about with integer arithmetic.
//!
//! [`tetris::Tetris`] is the session. It stands for a [`state::State`], the
//! session as a mathematical value, and each of its steps is specified by
//! the function of the same meaning there. A falling [`block::Block`]
//! stands for a [`piece::Piece`] in the same way.

pub mod block;
pub mod board;
pub mod bomb;
pub mod configuration;
pub mod constants;
pub mod fixed;
pub mod input;
pub mod piece;
pub mod random;
pub mod state;
pub mod tetris;
