//! Pieces: the falling shapes and the cells they leave on the board.

use vstd::prelude::*;
use crate::configuration::Configuration;
use crate::constants::{BOARD_HEIGHT, BOARD_WIDTH, CELL};
use crate::fixed::{lemma_nearest_cell_bounds, nearest_cell, round_to_cell};
use crate::piece::{overshoot, Piece};
use crate::random::random_up_to;

verus! {

/// The kinds of piece. `Plus` and `BigZ` are the extended kinds, which
/// classic mode does without.
#[derive(Clone, Copy, Debug, PartialEq, Eq, Structural)]
pub enum BlockType {
    I,
    J,
    L,
    O,
    S,
    T,
    Z,
    Plus,
    BigZ,
}

/// How a kind of piece turns.
#[derive(Clone, Copy, Debug, PartialEq, Eq, Structural)]
pub enum Rotation {
    /// The piece looks the same after a turn and is left alone.
    Fixed,
    /// Columns and rows change places.
    Transpose,
    /// A quarter turn inside the 3 by 3 box of local cells.
    Pivot,
}

impl BlockType {
    /// Whether the kind is one of the two that classic mode forbids.
    pub open spec fn extended(self) -> bool {
        self is Plus || self is BigZ
    }

    /// The kind with the given number; numbers past the last kind stand for `I`.
    pub open spec fn of_index(n: int) -> BlockType {
        if n == 1 {
            BlockType::J
        } else if n == 2 {
            BlockType::L
        } else if n == 3 {
            BlockType::O
        } else if n == 4 {
            BlockType::S
        } else if n == 5 {
            BlockType::T
        } else if n == 6 {
            BlockType::Z
        } else if n == 7 {
            BlockType::Plus
        } else if n == 8 {
            BlockType::BigZ
        } else {
            BlockType::I
        }
    }

    /// The rule by which the kind turns.
    pub open spec fn rule(self) -> Rotation {
        match self {
            BlockType::I => Rotation::Transpose,
            BlockType::O | BlockType::Plus => Rotation::Fixed,
            _ => Rotation::Pivot,
        }
    }

    /// The cells of the kind as it spawns, each a (column, row) pair in the
    /// piece's own frame.
    pub open spec fn shape(self) -> Seq<(i64, i64)> {
        match self {
            BlockType::I => seq![(0i64, 0i64), (1i64, 0i64), (2i64, 0i64), (3i64, 0i64)],
            BlockType::J => seq![(0i64, 1i64), (1i64, 1i64), (2i64, 1i64), (2i64, 0i64)],
            BlockType::L => seq![(0i64, 0i64), (1i64, 0i64), (2i64, 0i64), (2i64, 1i64)],
            BlockType::O => seq![(0i64, 0i64), (0i64, 1i64), (1i64, 0i64), (1i64, 1i64)],
            BlockType::S => seq![(0i64, 1i64), (0i64, 2i64), (1i64, 0i64), (1i64, 1i64)],
            BlockType::T => seq![(0i64, 0i64), (0i64, 1i64), (0i64, 2i64), (1i64, 1i64)],
            BlockType::Z => seq![(0i64, 0i64), (0i64, 1i64), (1i64, 1i64), (1i64, 2i64)],
            BlockType::Plus => seq![
                (0i64, 1i64),
                (1i64, 0i64),
                (1i64, 1i64),
                (1i64, 2i64),
                (2i64, 1i64),
            ],
            BlockType::BigZ => seq![
                (0i64, 0i64),
                (0i64, 1i64),
                (1i64, 1i64),
                (2i64, 1i64),
                (2i64, 2i64),
            ],
        }
    }

    pub fn is_extended(self) -> (b: bool)
        ensures
            b == self.extended(),
    {
        match self {
            BlockType::Plus | BlockType::BigZ => true,
            _ => false,
        }
    }

    /// The kind numbered `n`, counting from `I` at 0 to `BigZ` at 8.
    pub fn from_index(n: u32) -> (kind: BlockType)
        ensures
            kind == BlockType::of_index(n as int),
    {
        match n {
            0 => BlockType::I,
            1 => BlockType::J,
            2 => BlockType::L,
            3 => BlockType::O,
            4 => BlockType::S,
            5 => BlockType::T,
            6 => BlockType::Z,
            7 => BlockType::Plus,
            8 => BlockType::BigZ,
            _ => BlockType::I,
        }
    }

    /// A kind drawn at random from all nine.
    pub fn random() -> (kind: BlockType) {
        BlockType::from_index(random_up_to(8))
    }

    /// A kind drawn at random from the seven that classic mode allows.
    pub fn random_classic() -> (kind: BlockType)
        ensures
            !kind.extended(),
    {
        BlockType::from_index(random_up_to(6))
    }

    pub fn rotation(self) -> (rule: Rotation)
        ensures
            rule == self.rule(),
    {
        match self {
            BlockType::I => Rotation::Transpose,
            BlockType::O | BlockType::Plus => Rotation::Fixed,
            _ => Rotation::Pivot,
        }
    }

    /// The cells of a new piece of this kind.
    pub fn cells(self) -> (cells: Vec<(i64, i64)>)
        ensures
            cells@ == self.shape(),
    {
        let cells: Vec<(i64, i64)> = match self {
            BlockType::I => vec![(0, 0), (1, 0), (2, 0), (3, 0)],
            BlockType::J => vec![(0, 1), (1, 1), (2, 1), (2, 0)],
            BlockType::L => vec![(0, 0), (1, 0), (2, 0), (2, 1)],
            BlockType::O => vec![(0, 0), (0, 1), (1, 0), (1, 1)],
            BlockType::S => vec![(0, 1), (0, 2), (1, 0), (1, 1)],
            BlockType::T => vec![(0, 0), (0, 1), (0, 2), (1, 1)],
            BlockType::Z => vec![(0, 0), (0, 1), (1, 1), (1, 2)],
            BlockType::Plus => vec![(0, 1), (1, 0), (1, 1), (1, 2), (2, 1)],
            BlockType::BigZ => vec![(0, 0), (0, 1), (1, 1), (2, 1), (2, 2)],
        };
        assert(cells@ =~= self.shape());
        cells
    }
}

/// A colour with four channels, each from 0 to 255.
#[derive(Clone, Copy, Debug, PartialEq, Eq, Structural)]
pub struct Color {
    pub r: u8,
    pub g: u8,
    pub b: u8,
    pub a: u8,
}

impl Color {
    /// Whether every channel lies in the upper half of its range.
    pub open spec fn bright(self) -> bool {
        self.r >= 128 && self.g >= 128 && self.b >= 128 && self.a >= 128
    }

    pub fn new(r: u8, g: u8, b: u8, a: u8) -> (c: Color)
        ensures
            c == (Color { r, g, b, a }),
    {
        Color { r, g, b, a }
    }

    /// A colour whose four channels are drawn independently from the upper
    /// half of the range.
    pub fn random() -> (c: Color)
        ensures
            c.bright(),
    {
        let r: u32 = 128 + random_up_to(127);
        let g: u32 = 128 + random_up_to(127);
        let b: u32 = 128 + random_up_to(127);
        let a: u32 = 128 + random_up_to(127);
        Color { r: r as u8, g: g as u8, b: b as u8, a: a as u8 }
    }
}

/// One settled cell of the board.
#[derive(Clone, Copy, Debug, PartialEq, Eq, Structural)]
pub struct Square {
    pub row: i64,
    pub column: i64,
    pub color: Color,
}

impl Square {
    pub fn new(row: i64, column: i64, color: Color) -> (s: Square)
        ensures
            s == (Square { row, column, color }),
    {
        Square { row, column, color }
    }
}

/// A falling piece.
#[derive(Debug)]
pub struct Block {
    /// The cells in the piece's own frame, each a (column, row) pair.
    pub positions: Vec<(i64, i64)>,
    /// The offset, in fixed-point units, added to every cell to place it on
    /// the board.
    pub translate: (i64, i64),
    pub configuration: Configuration,
    pub block_type: BlockType,
    pub color: Color,
}

impl View for Block {
    type V = Piece;

    open spec fn view(&self) -> Piece {
        Piece {
            cells: self.positions@,
            translate: (self.translate.0 as int, self.translate.1 as int),
            kind: self.block_type,
            color: self.color,
            configuration: self.configuration,
        }
    }
}

/// The 3-entry diagonal by which a pivoting piece turns: the row that a
/// transposed cell of row `y` goes to, if `y` is on the diagonal.
fn diagonal(y: i64) -> (row: Option<i64>)
    ensures
        0 <= y <= 2 ==> row == Some((2 - y) as i64),
        !(0 <= y <= 2) ==> row is None,
{
    if y == 2 {
        Some(0)
    } else if y == 1 {
        Some(1)
    } else if y == 0 {
        Some(2)
    } else {
        None
    }
}

impl Block {
    /// The kind that a piece gets when `block_type` is asked for: the kind
    /// itself, or `replacement` where classic mode forbids it.
    pub open spec fn granted(
        block_type: BlockType,
        configuration: Configuration,
        replacement: BlockType,
    ) -> BlockType {
        if configuration.classic() && block_type.extended() {
            replacement
        } else {
            block_type
        }
    }

    /// A new piece at the board's origin, from given draws: `replacement` is
    /// the kind it takes where classic mode forbids `block_type`, and `color`
    /// its colour.
    pub fn with_draw(
        block_type: BlockType,
        configuration: Configuration,
        replacement: BlockType,
        color: Color,
    ) -> (block: Block)
        ensures
            block@ == Piece::spawned(
                Self::granted(block_type, configuration, replacement),
                color,
                configuration,
            ),
    {
        let kind = if configuration.classic_mode() && block_type.is_extended() {
            replacement
        } else {
            block_type
        };
        Block {
            positions: kind.cells(),
            translate: (0, 0),
            configuration,
            block_type: kind,
            color,
        }
    }

    /// A new piece at the board's origin with a random bright colour. In
    /// classic mode an extended kind is replaced by a kind drawn from the
    /// allowed ones.
    pub fn new(block_type: BlockType, configuration: Configuration) -> (block: Block)
        ensures
            block@.is_fresh(configuration),
            !(configuration.classic() && block_type.extended()) ==> block@.kind == block_type,
        decreases
            (if configuration.classic() && block_type.extended() {
                1int
            } else {
                0int
            }),
    {
        if configuration.classic_mode() && block_type.is_extended() {
            return Block::new(BlockType::random_classic(), configuration);
        }
        Block::with_draw(block_type, configuration, block_type, Color::random())
    }

    /// The settled cells that the piece would leave where it now is. The
    /// piece itself stays as it is.
    pub fn to_squares(&self) -> (squares: Vec<Square>)
        requires
            self@.wf(),
        ensures
            squares@ == self@.squares(),
            forall|i: int|
                0 <= i < squares@.len() ==> {
                    &&& (#[trigger] squares@[i]).row == nearest_cell(self@.y(i))
                    &&& squares@[i].column == nearest_cell(self@.x(i))
                    &&& squares@[i].color == self@.color
                },
    {
        let mut squares: Vec<Square> = Vec::new();
        let mut i: usize = 0;
        while i < self.positions.len()
            invariant
                i <= self.positions.len(),
                self@.wf(),
                squares@ =~= self@.squares().take(i as int),
                forall|k: int|
                    0 <= k < i ==> {
                        &&& (#[trigger] squares@[k]).row == nearest_cell(self@.y(k))
                        &&& squares@[k].column == nearest_cell(self@.x(k))
                    },
            decreases self.positions.len() - i,
        {
            let pos = self.positions[i];
            let y: i128 = pos.1 as i128 * (CELL as i128) + self.translate.1 as i128;
            let x: i128 = pos.0 as i128 * (CELL as i128) + self.translate.0 as i128;
            let row: i128 = round_to_cell(y);
            let column: i128 = round_to_cell(x);
            proof {
                lemma_nearest_cell_bounds(y as int);
                lemma_nearest_cell_bounds(x as int);
            }
            squares.push(Square::new(row as i64, column as i64, self.color));
            i += 1;
        }
        assert(squares@ =~= self@.squares());
        squares
    }

    /// Whether the piece is about to land where it stands: whether the next
    /// row down of one of its cells lies in the row band of a settled cell of
    /// the same column, or past the bottom of the board.
    fn should_stop(&self, squares: &Vec<Square>) -> (stop: bool)
        ensures
            stop == self@.should_stop(squares@),
    {
        let mut i: usize = 0;
        while i < self.positions.len()
            invariant
                i <= self.positions.len(),
                forall|a: int| 0 <= a < i ==> !self@.cell_stops(a, squares@),
            decreases self.positions.len() - i,
        {
            let pos = self.positions[i];
            let x: i128 = pos.0 as i128 * (CELL as i128) + self.translate.0 as i128;
            let below: i128 = pos.1 as i128 * (CELL as i128) + self.translate.1 as i128 + (
            CELL as i128);
            let mut j: usize = 0;
            while j < squares.len()
                invariant
                    j <= squares.len(),
                    i < self.positions.len(),
                    x == self@.x(i as int),
                    below == self@.y(i as int) + CELL,
                    forall|b: int| 0 <= b < j ==> !#[trigger] self@.rests_on(i as int, squares@[b]),
                decreases squares.len() - j,
            {
                let square = squares[j];
                let top: i128 = square.row as i128 * (CELL as i128);
                if below >= top && below <= top + (CELL as i128) && x == square.column as i128 * (
                CELL as i128) {
                    assert(self@.rests_on(i as int, squares@[j as int]));
                    assert(self@.cell_stops(i as int, squares@));
                    return true;
                }
                j += 1;
            }
            if below > BOARD_HEIGHT as i128 {
                assert(self@.cell_stops(i as int, squares@));
                return true;
            }
            i += 1;
        }
        false
    }

    /// The collision test. With `movement` 0 it tells whether the piece
    /// lands where it stands; with another `movement` it tells whether the
    /// piece may shift sideways by that much. Either way all three parts are
    /// tested: lying on a settled cell after the shift, reaching past a side
    /// edge after the shift, and being about to land.
    pub fn will_collide(&self, squares: &Vec<Square>, movement: i64) -> (hit: bool)
        ensures
            hit == self@.collides(squares@, movement as int),
    {
        let mut i: usize = 0;
        while i < self.positions.len()
            invariant
                i <= self.positions.len(),
                forall|a: int, b: int|
                    0 <= a < i && 0 <= b < squares.len() ==> !#[trigger] self@.lands_on(
                        a,
                        squares@[b],
                        movement as int,
                    ),
                forall|a: int| 0 <= a < i ==> !self@.outside(a, movement as int),
            decreases self.positions.len() - i,
        {
            let pos = self.positions[i];
            let x: i128 = pos.0 as i128 * (CELL as i128) + self.translate.0 as i128
                + movement as i128;
            let y: i128 = pos.1 as i128 * (CELL as i128) + self.translate.1 as i128;
            let square_column: i128 = round_to_cell(x);
            let square_row: i128 = round_to_cell(y);
            let mut j: usize = 0;
            while j < squares.len()
                invariant
                    j <= squares.len(),
                    i < self.positions.len(),
                    square_column == nearest_cell(self@.x(i as int) + movement),
                    square_row == nearest_cell(self@.y(i as int)),
                    forall|b: int|
                        0 <= b < j ==> !#[trigger] self@.lands_on(
                            i as int,
                            squares@[b],
                            movement as int,
                        ),
                decreases squares.len() - j,
            {
                let square = squares[j];
                if square.column as i128 == square_column && square.row as i128 == square_row {
                    assert(self@.lands_on(i as int, squares@[j as int], movement as int));
                    return true;
                }
                j += 1;
            }
            if x + (CELL as i128) > BOARD_WIDTH as i128 || x < 0 {
                assert(self@.outside(i as int, movement as int));
                return true;
            }
            i += 1;
        }
        self.should_stop(squares)
    }

    /// Turns a pivoting piece: every cell is transposed and its row then
    /// looked up on the diagonal. A cell whose row is not on the diagonal
    /// would be lost; a well-formed piece has none.
    fn rotate_easy_blocks(&mut self)
        requires
            old(self)@.wf(),
            old(self)@.kind.rule() is Pivot,
        ensures
            final(self)@ == (Piece { cells: old(self)@.turned(), ..old(self)@ }),
    {
        let mut new_positions: Vec<(i64, i64)> = Vec::new();
        let mut i: usize = 0;
        while i < self.positions.len()
            invariant
                i <= self.positions.len(),
                *self == *old(self),
                self@.wf(),
                self@.kind.rule() is Pivot,
                new_positions@ =~= self@.turned().take(i as int),
            decreases self.positions.len() - i,
        {
            let pos = self.positions[i];
            match diagonal(pos.0) {
                Some(row) => new_positions.push((pos.1, row)),
                None => {},
            }
            i += 1;
        }
        assert(new_positions@ =~= self@.turned());
        self.positions = new_positions;
    }

    /// Swaps column and row of every cell.
    fn transpose(&mut self)
        requires
            old(self)@.kind.rule() is Transpose,
        ensures
            final(self)@ == (Piece { cells: old(self)@.turned(), ..old(self)@ }),
    {
        let mut new_positions: Vec<(i64, i64)> = Vec::new();
        let mut i: usize = 0;
        while i < self.positions.len()
            invariant
                i <= self.positions.len(),
                *self == *old(self),
                self@.kind.rule() is Transpose,
                new_positions@ =~= self@.turned().take(i as int),
            decreases self.positions.len() - i,
        {
            let pos = self.positions[i];
            new_positions.push((pos.1, pos.0));
            i += 1;
        }
        assert(new_positions@ =~= self@.turned());
        self.positions = new_positions;
    }

    /// Rotates the piece by a quarter turn and keeps it from reaching past
    /// the board's right edge. Neither the left edge nor the settled cells
    /// are looked at: the caller checks for a collision afterwards.
    pub fn rotate(&mut self)
        requires
            old(self)@.wf(),
            old(self)@.can_rotate(),
        ensures
            final(self)@ == old(self)@.rotated(),
            final(self)@.wf(),
    {
        match self.block_type.rotation() {
            Rotation::Pivot => self.rotate_easy_blocks(),
            Rotation::Transpose => {
                self.transpose();
                if self.positions[1].0 == 0 {
                    self.translate(CELL, -CELL);
                } else {
                    self.translate(0, CELL);
                }
            },
            Rotation::Fixed => {},
        }
        assert(self@.cells =~= old(self)@.turned());
        let tx: i128 = self.translate.0 as i128;
        let mut move_left: i128 = 0;
        let mut i: usize = 0;
        while i < self.positions.len()
            invariant
                i <= self.positions.len(),
                self@.wf(),
                tx == self.translate.0,
                move_left == overshoot(self.positions@.take(i as int), tx as int),
                0 <= move_left,
                move_left == 0 || move_left <= tx - 6 * CELL,
            decreases self.positions.len() - i,
        {
            let pos = self.positions[i];
            let reach: i128 = pos.0 as i128 * (CELL as i128) + tx + (CELL as i128) - (BOARD_WIDTH as i128);
            assert(self.positions@.take(i + 1).drop_last() =~= self.positions@.take(i as int));
            if reach > move_left {
                move_left = reach;
            }
            i += 1;
        }
        assert(self.positions@.take(i as int) =~= self.positions@);
        self.translate.0 = (tx - move_left) as i64;
    }

    /// A copy of the piece.
    pub fn duplicate(&self) -> (copy: Block)
        ensures
            copy@ == self@,
    {
        let mut positions: Vec<(i64, i64)> = Vec::new();
        let mut i: usize = 0;
        while i < self.positions.len()
            invariant
                i <= self.positions.len(),
                positions@ =~= self.positions@.take(i as int),
            decreases self.positions.len() - i,
        {
            positions.push(self.positions[i]);
            i += 1;
        }
        assert(positions@ =~= self.positions@);
        Block {
            positions,
            translate: self.translate,
            configuration: self.configuration,
            block_type: self.block_type,
            color: self.color,
        }
    }

    /// Moves the piece by `(x, y)` without looking at the board.
    pub fn translate(&mut self, x: i64, y: i64)
        requires
            i64::MIN <= old(self).translate.0 + x <= i64::MAX,
            i64::MIN <= old(self).translate.1 + y <= i64::MAX,
        ensures
            final(self)@ == old(self)@.moved(x as int, y as int),
    {
        self.translate.0 += x;
        self.translate.1 += y;
    }
}

} // verus!
