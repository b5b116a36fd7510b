//! The bomb: a falling entity that clears cells where it lands.

use vstd::prelude::*;
use crate::block::Square;
use crate::constants::{BOARD_HEIGHT, BOARD_WIDTH, CELL, ENTRY_POINT, PIXEL};
use crate::fixed::{lemma_nearest_cell_bounds, nearest_cell, round_to_cell};

verus! {

/// A position in the window, in fixed-point units. The board's top left
/// corner lies at [`ENTRY_POINT`].
#[derive(Clone, Copy, Debug, PartialEq, Eq, Structural)]
pub struct Point {
    pub x: i64,
    pub y: i64,
}

/// A falling bomb. Its position is that of its picture's top left corner in
/// the window; it is not bound to whole cells.
#[derive(Clone, Copy, Debug, PartialEq, Eq, Structural)]
pub struct Bomb {
    pub pos: Point,
    /// Height of the bomb's picture, in fixed-point units.
    pub height: i64,
}

impl Bomb {
    /// A bomb where every bomb starts, with a picture `height` pixels high.
    pub open spec fn fresh(height: int) -> Bomb {
        Bomb { pos: Point { x: ENTRY_POINT.0, y: ENTRY_POINT.1 }, height: (height * PIXEL) as i64 }
    }

    /// The bomb moved by `(x, y)`.
    pub open spec fn moved(self, x: int, y: int) -> Bomb {
        Bomb { pos: Point { x: (self.pos.x + x) as i64, y: (self.pos.y + y) as i64 }, ..self }
    }

    /// The board column that the bomb is in once moved sideways by `movement`.
    pub open spec fn column(self, movement: int) -> int {
        nearest_cell(self.pos.x + movement) - 1
    }

    /// The board row that the bomb is in once it has fallen by `speed`.
    pub open spec fn row(self, speed: int) -> int {
        nearest_cell(self.pos.y + speed) - 1
    }

    /// Whether the cell that the bomb would be in, shifted by `movement` and
    /// fallen by `speed`, is settled.
    pub open spec fn overlaps(self, squares: Seq<Square>, movement: int, speed: int) -> bool {
        exists|j: int|
            0 <= j < squares.len() && (#[trigger] squares[j]).column == self.column(movement)
                && squares[j].row == self.row(speed)
    }

    /// Whether the bomb, shifted by `movement`, is past a side edge of the
    /// board.
    pub open spec fn leaves_board(self, movement: int) -> bool {
        self.pos.x + movement > BOARD_WIDTH || self.pos.x + movement < ENTRY_POINT.1
    }

    /// Whether the bomb stands in the column of `square` and reaches from the
    /// row above it down into it.
    pub open spec fn rests_on(self, square: Square) -> bool {
        &&& self.pos.y + self.height >= (square.row + 1) * CELL
        &&& self.pos.y <= square.row * CELL
        &&& self.pos.x == (square.column + 1) * CELL
    }

    /// Whether the bomb is about to land: on a settled cell or on the bottom
    /// of the board.
    pub open spec fn about_to_land(self, squares: Seq<Square>) -> bool {
        ||| exists|j: int| 0 <= j < squares.len() && self.rests_on(#[trigger] squares[j])
        ||| self.pos.y + self.height > BOARD_HEIGHT + ENTRY_POINT.0
    }

    /// The collision test of the bomb, of the same three parts as a piece's:
    /// lying on a settled cell, reaching past a side edge, being about to
    /// land.
    pub open spec fn collides(self, squares: Seq<Square>, movement: int, speed: int) -> bool {
        self.overlaps(squares, movement, speed) || self.leaves_board(movement)
            || self.about_to_land(squares)
    }

    /// Whether `square` lies in the 3 by 3 box of cells around the cell that
    /// the bomb is in.
    pub open spec fn blasts(self, square: Square) -> bool {
        &&& self.row(0) - 1 <= square.row <= self.row(0) + 1
        &&& self.column(0) - 1 <= square.column <= self.column(0) + 1
    }

    /// A bomb at the entry point whose picture is `height` pixels high.
    pub fn new(height: u16) -> (bomb: Bomb)
        ensures
            bomb == Bomb::fresh(height as int),
            bomb.height == height * PIXEL,
    {
        Bomb {
            pos: Point { x: ENTRY_POINT.0, y: ENTRY_POINT.1 },
            height: height as i64 * PIXEL,
        }
    }

    /// Moves the bomb by `(x, y)` without looking at the board.
    pub fn translate(&mut self, x: i64, y: i64)
        requires
            i64::MIN <= old(self).pos.x + x <= i64::MAX,
            i64::MIN <= old(self).pos.y + y <= i64::MAX,
        ensures
            *final(self) == old(self).moved(x as int, y as int),
            final(self).pos.x == old(self).pos.x + x,
            final(self).pos.y == old(self).pos.y + y,
    {
        self.pos.x += x;
        self.pos.y += y;
    }

    /// Whether the bomb is about to land where it is.
    fn should_stop(&self, squares: &Vec<Square>) -> (stop: bool)
        ensures
            stop == self.about_to_land(squares@),
    {
        let bottom: i128 = self.pos.y as i128 + self.height as i128;
        let mut j: usize = 0;
        while j < squares.len()
            invariant
                j <= squares.len(),
                bottom == self.pos.y + self.height,
                CELL == 2100,
                forall|b: int| 0 <= b < j ==> !self.rests_on(#[trigger] squares@[b]),
            decreases squares.len() - j,
        {
            let square = squares[j];
            let top: i128 = square.row as i128 * (CELL as i128);
            let left: i128 = square.column as i128 * (CELL as i128);
            if bottom >= top + (CELL as i128) && self.pos.y as i128 <= top && self.pos.x as i128
                == left + (CELL as i128) {
                assert(self.rests_on(squares@[j as int]));
                return true;
            }
            j += 1;
        }
        bottom > BOARD_HEIGHT as i128 + ENTRY_POINT.0 as i128
    }

    /// The collision test of the bomb once shifted sideways by `movement`
    /// and fallen by `speed`.
    pub fn will_collide(&self, squares: &Vec<Square>, movement: i64, speed: i64) -> (hit: bool)
        ensures
            hit == self.collides(squares@, movement as int, speed as int),
    {
        let x: i128 = self.pos.x as i128 + movement as i128;
        let square_column: i128 = round_to_cell(x) - 1;
        let square_row: i128 = round_to_cell(self.pos.y as i128 + speed as i128) - 1;
        let mut j: usize = 0;
        while j < squares.len()
            invariant
                j <= squares.len(),
                square_column == self.column(movement as int),
                square_row == self.row(speed as int),
                forall|b: int|
                    0 <= b < j ==> !((#[trigger] squares@[b]).column == square_column
                        && squares@[b].row == square_row),
            decreases squares.len() - j,
        {
            let square = squares[j];
            if square.column as i128 == square_column && square.row as i128 == square_row {
                assert(self.overlaps(squares@, movement as int, speed as int));
                return true;
            }
            j += 1;
        }
        if x > BOARD_WIDTH as i128 || x < ENTRY_POINT.1 as i128 {
            return true;
        }
        self.should_stop(squares)
    }

    /// Sets the bomb off: gives the row and the column of the cell that the
    /// bomb is in, the centre of the box that it clears.
    pub fn explode(&self) -> (centre: (i64, i64))
        ensures
            centre.0 == self.row(0),
            centre.1 == self.column(0),
    {
        let row: i128 = round_to_cell(self.pos.y as i128) - 1;
        let column: i128 = round_to_cell(self.pos.x as i128) - 1;
        proof {
            lemma_nearest_cell_bounds(self.pos.y as int);
            lemma_nearest_cell_bounds(self.pos.x as int);
        }
        (row as i64, column as i64)
    }
}

} // verus!
