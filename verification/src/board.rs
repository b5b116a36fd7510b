//! The settled cells of the board: how they are counted row by row, and what
//! clearing a row or the blast of a bomb leaves of them.

use vstd::prelude::*;
use crate::block::Square;
use crate::bomb::Bomb;
use crate::constants::BOARD_ROWS;

verus! {

/// How many of the settled cells lie in the given row.
pub open spec fn count_in_row(squares: Seq<Square>, row: int) -> nat
    decreases squares.len(),
{
    if squares.len() == 0 {
        0
    } else {
        count_in_row(squares.drop_last(), row) + if squares.last().row == row {
            1nat
        } else {
            0nat
        }
    }
}

/// No row holds more cells than there are.
pub proof fn lemma_count_in_row_bound(squares: Seq<Square>, row: int)
    ensures
        count_in_row(squares, row) <= squares.len(),
    decreases squares.len(),
{
    if squares.len() > 0 {
        lemma_count_in_row_bound(squares.drop_last(), row);
    }
}

/// A row that no cell lies in counts 0.
pub proof fn lemma_count_in_empty_row(squares: Seq<Square>, row: int)
    requires
        forall|j: int| 0 <= j < squares.len() ==> (#[trigger] squares[j]).row != row,
    ensures
        count_in_row(squares, row) == 0,
    decreases squares.len(),
{
    if squares.len() > 0 {
        lemma_count_in_empty_row(squares.drop_last(), row);
    }
}

/// Where a settled cell goes when the row `line` is cleared: a cell above
/// the line comes down by one row, a cell below it stays.
pub open spec fn dropped(square: Square, line: int) -> Square {
    if square.row < line {
        Square { row: (square.row + 1) as i64, ..square }
    } else {
        square
    }
}

/// The settled cells once the row `line` is cleared: those of the row are
/// gone, the others are in their old order, each where it is dropped to.
pub open spec fn without_row(squares: Seq<Square>, line: int) -> Seq<Square>
    decreases squares.len(),
{
    if squares.len() == 0 {
        Seq::empty()
    } else {
        let rest = without_row(squares.drop_last(), line);
        if squares.last().row == line {
            rest
        } else {
            rest.push(dropped(squares.last(), line))
        }
    }
}

/// What clearing a row does to the count of every row: a row below the
/// cleared one keeps its count, and every other row, the cleared one too,
/// takes the count of the row above it.
pub proof fn lemma_count_without_row(squares: Seq<Square>, line: int, row: int)
    requires
        line <= i64::MAX,
    ensures
        count_in_row(without_row(squares, line), row) == if row > line {
            count_in_row(squares, row)
        } else {
            count_in_row(squares, row - 1)
        },
    decreases squares.len(),
{
    if squares.len() > 0 {
        lemma_count_without_row(squares.drop_last(), line, row);
        let rest = without_row(squares.drop_last(), line);
        if squares.last().row != line {
            assert(rest.push(dropped(squares.last(), line)).drop_last() =~= rest);
        }
    }
}

/// Every cell that is left when a row is cleared comes from a cell of
/// another row, dropped.
pub proof fn lemma_without_row_source(squares: Seq<Square>, line: int, k: int)
    requires
        0 <= k < without_row(squares, line).len(),
    ensures
        exists|j: int|
            0 <= j < squares.len() && (#[trigger] squares[j]).row != line && without_row(
                squares,
                line,
            )[k] == dropped(squares[j], line),
    decreases squares.len(),
{
    let rest = without_row(squares.drop_last(), line);
    if squares.last().row != line && k == rest.len() {
        assert(squares[squares.len() - 1] == squares.last());
    } else {
        lemma_without_row_source(squares.drop_last(), line, k);
        let j = choose|j: int|
            0 <= j < squares.drop_last().len() && (#[trigger] squares.drop_last()[j]).row != line
                && rest[k] == dropped(squares.drop_last()[j], line);
        assert(squares[j] == squares.drop_last()[j]);
    }
}

/// Every cell of another row than the cleared one is still there when the
/// row is cleared, dropped.
pub proof fn lemma_without_row_keeps(squares: Seq<Square>, line: int, j: int)
    requires
        0 <= j < squares.len(),
        squares[j].row != line,
    ensures
        exists|k: int|
            0 <= k < without_row(squares, line).len() && #[trigger] without_row(squares, line)[k]
                == dropped(squares[j], line),
    decreases squares.len(),
{
    let rest = without_row(squares.drop_last(), line);
    if j == squares.len() - 1 {
        assert(without_row(squares, line)[rest.len() as int] == dropped(squares[j], line));
    } else {
        lemma_without_row_keeps(squares.drop_last(), line, j);
        let k = choose|k: int|
            0 <= k < rest.len() && #[trigger] rest[k] == dropped(squares.drop_last()[j], line);
        assert(without_row(squares, line)[k] == rest[k]);
    }
}

/// The settled cells that a bomb leaves: those outside the 3 by 3 box around
/// it, in their old order.
pub open spec fn without_blast(squares: Seq<Square>, bomb: Bomb) -> Seq<Square>
    decreases squares.len(),
{
    if squares.len() == 0 {
        Seq::empty()
    } else {
        let rest = without_blast(squares.drop_last(), bomb);
        if bomb.blasts(squares.last()) {
            rest
        } else {
            rest.push(squares.last())
        }
    }
}

/// Every cell that a bomb leaves is one of the cells that were there.
pub proof fn lemma_without_blast_source(squares: Seq<Square>, bomb: Bomb, k: int)
    requires
        0 <= k < without_blast(squares, bomb).len(),
    ensures
        exists|j: int|
            0 <= j < squares.len() && !bomb.blasts(#[trigger] squares[j]) && without_blast(
                squares,
                bomb,
            )[k] == squares[j],
    decreases squares.len(),
{
    let rest = without_blast(squares.drop_last(), bomb);
    if !bomb.blasts(squares.last()) && k == rest.len() {
        assert(squares[squares.len() - 1] == squares.last());
    } else {
        lemma_without_blast_source(squares.drop_last(), bomb, k);
        let j = choose|j: int|
            0 <= j < squares.drop_last().len() && !bomb.blasts(#[trigger] squares.drop_last()[j])
                && rest[k] == squares.drop_last()[j];
        assert(squares[j] == squares.drop_last()[j]);
    }
}

/// Counts the settled cells of every row of the board.
pub(crate) fn count_rows(squares: &Vec<Square>) -> (counts: Vec<u64>)
    requires
        forall|j: int| 0 <= j < squares@.len() ==> 0 <= (#[trigger] squares@[j]).row < BOARD_ROWS,
    ensures
        counts@.len() == BOARD_ROWS,
        forall|row: int|
            0 <= row < BOARD_ROWS ==> #[trigger] counts@[row] == count_in_row(squares@, row),
{
    let mut counts: Vec<u64> = Vec::new();
    let mut row: i64 = 0;
    while row < BOARD_ROWS
        invariant
            0 <= row <= BOARD_ROWS,
            counts@.len() == row,
            forall|r: int| 0 <= r < row ==> counts@[r] == 0,
        decreases BOARD_ROWS - row,
    {
        counts.push(0);
        row += 1;
    }
    let mut j: usize = 0;
    while j < squares.len()
        invariant
            j <= squares.len(),
            counts@.len() == BOARD_ROWS,
            forall|k: int|
                0 <= k < squares@.len() ==> 0 <= (#[trigger] squares@[k]).row < BOARD_ROWS,
            forall|r: int|
                0 <= r < BOARD_ROWS ==> #[trigger] counts@[r] == count_in_row(
                    squares@.take(j as int),
                    r,
                ),
        decreases squares.len() - j,
    {
        let at: usize = squares[j].row as usize;
        proof {
            assert(squares@.take(j + 1).drop_last() =~= squares@.take(j as int));
            lemma_count_in_row_bound(squares@.take(j as int), at as int);
        }
        counts[at] = counts[at] + 1;
        j += 1;
    }
    proof {
        assert(squares@.take(j as int) =~= squares@);
    }
    counts
}

/// Moves the row counters down by one row over the rows from the top to
/// `line`: going from `line` upwards, every row takes the count of the row
/// above it, and the topmost row is left with 0.
pub(crate) fn shift_counts(counts: &mut Vec<u64>, line: usize)
    requires
        line < old(counts)@.len(),
    ensures
        final(counts)@.len() == old(counts)@.len(),
        forall|row: int|
            0 <= row < old(counts)@.len() ==> #[trigger] final(counts)@[row] == if row > line {
                old(counts)@[row]
            } else if row == 0 {
                0
            } else {
                old(counts)@[row - 1]
            },
{
    let rows: usize = counts.len();
    counts[line] = 0;
    let mut i: usize = line + 1;
    while i > 0
        invariant
            i <= line + 1,
            line < counts@.len(),
            counts@.len() == old(counts)@.len(),
            forall|row: int|
                i <= row <= line ==> #[trigger] counts@[row] == if row == 0 {
                    0
                } else {
                    old(counts)@[row - 1]
                },
            forall|row: int|
                0 <= row < i && row != line ==> #[trigger] counts@[row] == old(counts)@[row],
            forall|row: int|
                line < row < counts@.len() ==> #[trigger] counts@[row] == old(counts)@[row],
        decreases i,
    {
        i -= 1;
        if i == 0 {
            counts[i] = 0;
        } else {
            counts[i] = counts[i - 1];
        }
    }
}

} // verus!
