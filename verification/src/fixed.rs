//! Rounding of fixed-point lengths to whole cells.

use vstd::prelude::*;
use crate::constants::CELL;

verus! {

/// The whole cell nearest to the fixed-point length `v`; a length halfway
/// between two cells goes to the one farther from zero.
pub open spec fn nearest_cell(v: int) -> int {
    if v >= 0 {
        (v + CELL / 2) / (CELL as int)
    } else {
        -((CELL / 2 - v) / (CELL as int))
    }
}

/// `nearest_cell(v)` is the cell within half a cell of `v`, and of two such
/// cells the one farther from zero.
pub proof fn lemma_nearest_cell_bounds(v: int)
    ensures
        v >= 0 ==> nearest_cell(v) * CELL - CELL / 2 <= v < nearest_cell(v) * CELL + CELL / 2,
        v < 0 ==> nearest_cell(v) * CELL - CELL / 2 < v <= nearest_cell(v) * CELL + CELL / 2,
{
    if v >= 0 {
        let q = (v + 1050) / 2100;
        assert(2100 * q <= v + 1050 < 2100 * q + 2100);
    } else {
        let q = (1050 - v) / 2100;
        assert(2100 * q <= 1050 - v < 2100 * q + 2100);
    }
}

/// A whole number of cells rounds to itself.
pub proof fn lemma_nearest_cell_exact(n: int)
    ensures
        nearest_cell(n * CELL) == n,
{
    lemma_nearest_cell_bounds(n * 2100);
}

/// Rounds a fixed-point length to the nearest whole cell.
pub fn round_to_cell(v: i128) -> (r: i128)
    requires
        i128::MIN + CELL <= v <= i128::MAX - CELL,
    ensures
        r == nearest_cell(v as int),
{
    if v >= 0 {
        (v + 1050) / 2100
    } else {
        -((1050 - v) / 2100)
    }
}

} // verus!
