//! A piece as a mathematical value: its cells, how it turns, where it
//! collides, and what holds of it.

use vstd::prelude::*;
use crate::block::{BlockType, Color, Rotation, Square};
use crate::configuration::Configuration;
use crate::constants::{BOARD_HEIGHT, BOARD_ROWS, BOARD_WIDTH, CELL};
use crate::fixed::nearest_cell;

verus! {

/// A piece as a mathematical value: what a [`Block`] stands for.
pub struct Piece {
    /// The cells in the piece's own frame, each a (column, row) pair.
    pub cells: Seq<(i64, i64)>,
    /// The offset, in fixed-point units, that takes the piece's frame to the
    /// board's.
    pub translate: (int, int),
    pub kind: BlockType,
    pub color: Color,
    pub configuration: Configuration,
}

/// Where one cell goes in a turn under the given rule.
pub open spec fn turn_cell(rule: Rotation, cell: (i64, i64)) -> (i64, i64) {
    match rule {
        Rotation::Fixed => cell,
        Rotation::Transpose => (cell.1, cell.0),
        Rotation::Pivot => (cell.1, (2 - cell.0) as i64),
    }
}

/// The farthest that any of the cells, offset by `tx`, reaches past the
/// board's right edge; 0 when none does.
pub open spec fn overshoot(cells: Seq<(i64, i64)>, tx: int) -> int
    decreases cells.len(),
{
    if cells.len() == 0 {
        0
    } else {
        let before = overshoot(cells.drop_last(), tx);
        let here = cells.last().0 * CELL + tx + CELL - BOARD_WIDTH;
        if here > before {
            here
        } else {
            before
        }
    }
}

impl Piece {
    /// The largest local coordinate that a cell of the given rule may have.
    pub open spec fn extent(rule: Rotation) -> int {
        if rule is Pivot {
            2
        } else {
            3
        }
    }

    /// Every cell lies in the local box of the piece's rule, and a piece that
    /// turns by transposing has a second cell to steer its shift by.
    pub open spec fn wf(self) -> bool {
        &&& forall|i: int|
            0 <= i < self.cells.len() ==> {
                &&& 0 <= #[trigger] self.cells[i].0 <= Self::extent(self.kind.rule())
                &&& 0 <= self.cells[i].1 <= Self::extent(self.kind.rule())
            }
        &&& self.kind.rule() is Transpose ==> self.cells.len() >= 2
    }

    /// A piece of the given kind as it spawns.
    pub open spec fn spawned(kind: BlockType, color: Color, configuration: Configuration) -> Piece {
        Piece { cells: kind.shape(), translate: (0, 0), kind, color, configuration }
    }

    /// Whether the piece is as a piece is made for a session of the given
    /// configuration: as spawned, of a kind that the mode allows, and of a
    /// bright colour.
    pub open spec fn is_fresh(self, configuration: Configuration) -> bool {
        &&& self == Piece::spawned(self.kind, self.color, configuration)
        &&& configuration.classic() ==> !self.kind.extended()
        &&& self.color.bright()
    }

    /// Horizontal position of cell `i` on the board, in fixed-point units.
    pub open spec fn x(self, i: int) -> int {
        self.cells[i].0 * CELL + self.translate.0
    }

    /// Vertical position of cell `i` on the board, in fixed-point units.
    pub open spec fn y(self, i: int) -> int {
        self.cells[i].1 * CELL + self.translate.1
    }

    /// The piece moved by `(dx, dy)`.
    pub open spec fn moved(self, dx: int, dy: int) -> Piece {
        Piece { translate: (self.translate.0 + dx, self.translate.1 + dy), ..self }
    }

    /// The settled cell that cell `i` leaves where the piece now is.
    pub open spec fn landed(self, i: int) -> Square {
        Square {
            row: nearest_cell(self.y(i)) as i64,
            column: nearest_cell(self.x(i)) as i64,
            color: self.color,
        }
    }

    /// The settled cells that the piece leaves where it now is, one for each
    /// of its cells and in their order.
    pub open spec fn squares(self) -> Seq<Square> {
        Seq::new(self.cells.len(), |i: int| self.landed(i))
    }

    /// Whether cell `i`, moved sideways by `movement`, comes to lie on the
    /// settled cell `square`.
    pub open spec fn lands_on(self, i: int, square: Square, movement: int) -> bool {
        &&& nearest_cell(self.x(i) + movement) == square.column
        &&& nearest_cell(self.y(i)) == square.row
    }

    /// Whether cell `i`, moved sideways by `movement`, reaches past the left
    /// or the right edge of the board.
    pub open spec fn outside(self, i: int, movement: int) -> bool {
        self.x(i) + movement + CELL > BOARD_WIDTH || self.x(i) + movement < 0
    }

    /// Whether cell `i` stands in the column of `square` with its next row
    /// down inside the row band of `square`.
    pub open spec fn rests_on(self, i: int, square: Square) -> bool {
        &&& square.row * CELL <= self.y(i) + CELL <= (square.row + 1) * CELL
        &&& self.x(i) == square.column * CELL
    }

    /// Whether the next row down of cell `i` lies past the bottom of the
    /// board.
    pub open spec fn at_bottom(self, i: int) -> bool {
        self.y(i) + CELL > BOARD_HEIGHT
    }

    /// Whether a cell of the piece, moved sideways by `movement`, comes to
    /// lie on a settled cell.
    pub open spec fn overlaps(self, squares: Seq<Square>, movement: int) -> bool {
        exists|i: int, j: int|
            0 <= i < self.cells.len() && 0 <= j < squares.len() && #[trigger] self.lands_on(
                i,
                squares[j],
                movement,
            )
    }

    /// Whether a cell of the piece, moved sideways by `movement`, reaches
    /// past the left or the right edge.
    pub open spec fn leaves_board(self, movement: int) -> bool {
        exists|i: int| 0 <= i < self.cells.len() && self.outside(i, movement)
    }

    /// Whether cell `i` is about to land: on a settled cell or on the bottom.
    pub open spec fn cell_stops(self, i: int, squares: Seq<Square>) -> bool {
        self.at_bottom(i) || exists|j: int|
            0 <= j < squares.len() && #[trigger] self.rests_on(i, squares[j])
    }

    /// Whether the piece is about to land where it stands.
    pub open spec fn should_stop(self, squares: Seq<Square>) -> bool {
        exists|i: int| 0 <= i < self.cells.len() && self.cell_stops(i, squares)
    }

    /// The collision test, one predicate for two questions: with `movement`
    /// 0 it tells whether the piece lands, with another `movement` whether
    /// the piece may shift sideways by it. It holds when any of the three
    /// parts does, whatever `movement` is.
    pub open spec fn collides(self, squares: Seq<Square>, movement: int) -> bool {
        self.overlaps(squares, movement) || self.leaves_board(movement) || self.should_stop(
            squares,
        )
    }

    /// The cells after one turn.
    pub open spec fn turned(self) -> Seq<(i64, i64)> {
        Seq::new(self.cells.len(), |i: int| turn_cell(self.kind.rule(), self.cells[i]))
    }

    /// The shift that goes with a turn. Only a piece that transposes shifts:
    /// one cell right and one up when its second cell has come to column 0,
    /// one cell down otherwise.
    pub open spec fn compensation(self) -> (int, int) {
        if self.kind.rule() is Transpose {
            if self.turned()[1].0 == 0 {
                (CELL as int, -CELL)
            } else {
                (0, CELL as int)
            }
        } else {
            (0, 0)
        }
    }

    /// The piece after one rotation: turned, shifted by the compensation, and
    /// then pushed left as a whole by as much as its cells would reach past
    /// the right edge.
    pub open spec fn rotated(self) -> Piece {
        let cells = self.turned();
        let shift = self.compensation();
        let tx = self.translate.0 + shift.0;
        Piece {
            cells,
            translate: (tx - overshoot(cells, tx), self.translate.1 + shift.1),
            ..self
        }
    }

    /// Whether the shift of a rotation keeps the offset in the machine's range.
    pub open spec fn can_rotate(self) -> bool {
        &&& i64::MIN <= self.translate.0 + self.compensation().0 <= i64::MAX
        &&& i64::MIN <= self.translate.1 + self.compensation().1 <= i64::MAX
    }
}

/// The cells of every kind, as they spawn, make a well-formed piece.
pub proof fn lemma_spawned_wf(kind: BlockType, color: Color, configuration: Configuration)
    ensures
        Piece::spawned(kind, color, configuration).wf(),
{
}

/// A rotation keeps a well-formed piece well-formed.
pub proof fn lemma_rotated_wf(p: Piece)
    requires
        p.wf(),
    ensures
        p.rotated().wf(),
        p.rotated().kind == p.kind,
        p.rotated().cells.len() == p.cells.len(),
{
    let r = p.rotated();
    assert forall|i: int| 0 <= i < r.cells.len() implies {
        &&& 0 <= #[trigger] r.cells[i].0 <= Piece::extent(r.kind.rule())
        &&& 0 <= r.cells[i].1 <= Piece::extent(r.kind.rule())
    } by {
        assert(r.cells[i] == turn_cell(p.kind.rule(), p.cells[i]));
        assert(0 <= p.cells[i].0 <= Piece::extent(p.kind.rule()));
    }
}

/// The push to the left that ends a rotation is none where no cell reaches
/// past the right edge, and never takes a cell's left side off the board.
pub proof fn lemma_overshoot_bounds(cells: Seq<(i64, i64)>, tx: int)
    requires
        forall|i: int| 0 <= i < cells.len() ==> 0 <= (#[trigger] cells[i]).0 <= 3,
    ensures
        0 <= overshoot(cells, tx),
        overshoot(cells, tx) == 0 || overshoot(cells, tx) <= tx - 6 * CELL,
    decreases cells.len(),
{
    if cells.len() > 0 {
        assert(0 <= cells[cells.len() - 1].0 <= 3);
        lemma_overshoot_bounds(cells.drop_last(), tx);
    }
}

/// A rotation moves a well-formed piece by no more than a cell either way,
/// but for the push to the left that keeps it on the board.
pub proof fn lemma_rotated_offset(p: Piece)
    requires
        p.wf(),
    ensures
        p.rotated().translate.0 <= p.translate.0 + CELL,
        p.rotated().translate.0 >= p.translate.0 || p.rotated().translate.0 >= 6 * CELL,
        p.translate.1 - CELL <= p.rotated().translate.1 <= p.translate.1 + CELL,
{
    lemma_rotated_wf(p);
    let cells = p.turned();
    assert forall|i: int| 0 <= i < cells.len() implies 0 <= (#[trigger] cells[i]).0 <= 3 by {
        assert(cells[i] == p.rotated().cells[i]);
        assert(0 <= p.rotated().cells[i].0 <= Piece::extent(p.kind.rule()));
    }
    lemma_overshoot_bounds(cells, p.translate.0 + p.compensation().0);
}

/// Rotating four times brings the cells of a well-formed piece back to what
/// they were, cell by cell; a piece of a kind that does not turn has them
/// back after each rotation. (The offset is another matter: a transposing
/// piece shifts with every turn, and any piece may be pushed off the right
/// edge.)
pub proof fn lemma_four_rotations(p: Piece)
    requires
        p.wf(),
    ensures
        p.rotated().rotated().rotated().rotated().cells == p.cells,
        p.kind.rule() is Fixed ==> p.rotated().cells == p.cells,
{
    let r1 = p.rotated();
    let r2 = r1.rotated();
    let r3 = r2.rotated();
    let r4 = r3.rotated();
    lemma_rotated_wf(p);
    lemma_rotated_wf(r1);
    lemma_rotated_wf(r2);
    let rule = p.kind.rule();
    assert forall|i: int| 0 <= i < p.cells.len() implies r4.cells[i] == p.cells[i] by {
        assert(0 <= p.cells[i].0 <= Piece::extent(rule));
        assert(r1.cells[i] == turn_cell(rule, p.cells[i]));
        assert(r2.cells[i] == turn_cell(rule, r1.cells[i]));
        assert(r3.cells[i] == turn_cell(rule, r2.cells[i]));
        assert(r4.cells[i] == turn_cell(rule, r3.cells[i]));
    }
    assert(r4.cells =~= p.cells);
    if rule is Fixed {
        assert(r1.cells =~= p.cells);
    }
}

/// On an empty board a piece that has just spawned collides with nothing,
/// whatever its kind.
pub proof fn lemma_spawned_is_free(kind: BlockType, color: Color, configuration: Configuration)
    ensures
        !Piece::spawned(kind, color, configuration).collides(Seq::empty(), 0),
{
    let p = Piece::spawned(kind, color, configuration);
    lemma_spawned_wf(kind, color, configuration);
    assert forall|i: int| 0 <= i < p.cells.len() implies !p.outside(i, 0) && !p.cell_stops(
        i,
        Seq::empty(),
    ) by {
        assert(0 <= p.cells[i].0 <= 3 && 0 <= p.cells[i].1 <= 3);
    }
}

/// A piece with a cell that has sunk into the last row of the board, by
/// however little, collides: on any board and for any sideways shift.
pub proof fn lemma_last_row_collides(p: Piece, i: int, squares: Seq<Square>, movement: int)
    requires
        0 <= i < p.cells.len(),
        nearest_cell(p.y(i)) == BOARD_ROWS - 1,
        p.y(i) > (BOARD_ROWS - 1) * CELL,
    ensures
        p.collides(squares, movement),
{
    assert(p.at_bottom(i));
    assert(p.cell_stops(i, squares));
}

/// A piece with a cell standing exactly on the last row collides as soon as
/// it has fallen any further.
pub proof fn lemma_last_row_collides_after_fall(
    p: Piece,
    i: int,
    squares: Seq<Square>,
    movement: int,
    fall: int,
)
    requires
        0 <= i < p.cells.len(),
        p.y(i) == (BOARD_ROWS - 1) * CELL,
        fall > 0,
    ensures
        p.moved(0, fall).collides(squares, movement),
{
    let q = p.moved(0, fall);
    assert(q.at_bottom(i));
    assert(q.cell_stops(i, squares));
}

} // verus!
