//! Core of an interactive handwritten-digit recognizer.
//!
//! A user draws on a fixed 28x28 canvas; the drawn image is converted into
//! the numeric input a pretrained classifier expects, and the classifier's
//! per-class probabilities are tracked together with the running best guess.
//!
//! This crate holds the verified drawing-to-inference pipeline: coordinate
//! mapping from pointer positions to grid cells, the board state, the
//! normalization transform, the inference bookkeeping, and the controller
//! that turns input events into board mutations and inference requests.
//! Window handling, rendering and the classifier runtime itself live outside.
//!
//! Intensities and probabilities are carried in fixed point: the value 1.0
//! is stored as the integer [`FIXED_ONE`] (one thousand), so a board cell is
//! either `0` or `FIXED_ONE`, and a normalized cell with the standard
//! mean/scale of one half is either `-FIXED_ONE` or `FIXED_ONE`.

use vstd::prelude::*;

pub mod board;
pub mod controller;
pub mod coords;
pub mod errors;
pub mod inference;
pub mod normalize;

verus! {

/// Number of cells in one board row.
pub const BOARD_WIDTH: usize = 28;

/// Number of board rows.
pub const BOARD_HEIGHT: usize = 28;

/// Total number of board cells, row-major.
pub const IMAGE_SIZE: usize = 784;

/// Fixed-point representation of the intensity 1.0.
pub const FIXED_ONE: i32 = 1000;

} // verus!
