//! Board geometry, timing and scoring constants.
//!
//! Lengths are fixed-point integers. The unit is chosen so that a pixel, a
//! sixtieth of a cell and a hundredth of a cell are all whole numbers.

use vstd::prelude::*;

verus! {

/// Fixed-point units in one board cell.
pub const CELL: i64 = 2100;

/// Side of one cell on screen, in pixels.
pub const SQUARE_SIZE: i64 = 35;

/// Fixed-point units in one pixel.
pub const PIXEL: i64 = 60;

/// Width of a cell's border on screen, in pixels.
pub const BORDER_SIZE: i64 = 1;

/// Number of columns of the board.
pub const BOARD_COLUMNS: i64 = 10;

/// Number of rows of the logical board.
pub const BOARD_ROWS: i64 = 18;

/// Width of the board in fixed-point units.
pub const BOARD_WIDTH: i64 = 21000;

/// Height of the board in fixed-point units.
pub const BOARD_HEIGHT: i64 = 37800;

/// Width of the window, in pixels.
pub const WINDOW_WIDTH: i64 = 665;

/// Height of the window, in pixels.
pub const WINDOW_HEIGHT: i64 = 700;

/// Where the board's top left corner lies in the window, in fixed-point units.
pub const ENTRY_POINT: (i64, i64) = (2100, 2100);

/// Distance a piece falls in one physics step before any speed is added: a
/// sixtieth of a cell.
pub const STEP_FALL: i64 = 35;

/// Frames between two rotations.
pub const ROTATION_INTERVAL: i32 = 5;

/// Frames between two horizontal moves.
pub const MOVE_INTERVAL: i32 = 5;

/// Base gravity when none is configured: a hundredth of a cell per step.
pub const DEFAULT_SPEED: i32 = 21;

/// Soft-drop boost while the key is held: a tenth of a cell per step.
pub const SPEED_BOOST: i32 = 210;

/// Points for one cleared row.
pub const SINGLE_LINE_POINTS: i64 = 40;

/// Points for two rows cleared at once.
pub const DOUBLE_LINE_POINTS: i64 = 100;

/// Points for three rows cleared at once.
pub const TRIPLE_LINE_POINTS: i64 = 300;

/// Points for four rows cleared at once.
pub const TETRIS_POINTS: i64 = 1200;

/// Cleared rows that raise the level when none are configured.
pub const LINES_TO_LEVEL_UP: i32 = 10;

/// Rows of the viewing window when none are configured.
pub const VIEWING_AREA_ROWS_COUNT: i32 = 10;

/// A row is full when it holds this many settled cells.
pub const FULL_ROW: u64 = 10;

/// The largest offset, either way, from which a step is sure to stay in the
/// machine's range.
pub const COORD_LIMIT: i64 = 0x1000_0000_0000_0000;

/// The largest score, either way, from which a step is sure to stay in the
/// machine's range.
pub const SCORE_LIMIT: i64 = 0x4000_0000_0000_0000;

/// The largest level, and the largest number of cleared rows, from which a
/// step is sure to stay in the machine's range.
pub const COUNT_LIMIT: i32 = 0x4000_0000;

} // verus!
