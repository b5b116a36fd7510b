//! The session as a mathematical value: its states, the steps that lead from
//! one to the next, and what holds of them.

use vstd::prelude::*;
use crate::block::Square;
use crate::board::{
    count_in_row, dropped, lemma_count_in_empty_row, lemma_count_without_row,
    lemma_without_row_keeps, lemma_without_row_source, without_blast, without_row,
};
use crate::bomb::Bomb;
use crate::configuration::Configuration;
use crate::constants::{
    BOARD_ROWS, CELL, COORD_LIMIT, COUNT_LIMIT, DOUBLE_LINE_POINTS, FULL_ROW, MOVE_INTERVAL,
    ROTATION_INTERVAL, SCORE_LIMIT, SINGLE_LINE_POINTS, STEP_FALL, TETRIS_POINTS,
    TRIPLE_LINE_POINTS,
};
use crate::input::Input;
use crate::piece::Piece;

verus! {

/// What a physics step came to.
#[derive(Clone, Copy, Debug, PartialEq, Eq, Structural)]
pub enum Step {
    /// The game is over: nothing moved.
    Idle,
    /// The piece fell.
    Fell,
    /// The piece landed, and a new piece or a bomb has appeared.
    Landed,
    /// The bomb fell.
    BombFell,
    /// The bomb went off, and the next piece has taken over.
    Exploded,
}

/// The session as a mathematical value: what a [`Tetris`] stands for.
pub struct State {
    /// The piece that the player steers.
    pub current: Piece,
    /// The piece that comes after it.
    pub next: Piece,
    /// The settled cells, in the order in which they settled.
    pub squares: Seq<Square>,
    /// First row of the viewing window.
    pub window_start: int,
    /// The falling bomb, if there is one.
    pub bomb: Option<Bomb>,
    /// Height of a bomb's picture, in pixels.
    pub bomb_height: int,
    pub game_over: bool,
    pub configuration: Configuration,
    /// Rows cleared since the level last rose.
    pub lines: int,
    pub score: int,
    pub level: int,
    /// Frames since the player's intents were last applied.
    pub ticks: int,
}

/// The fixed points for `lines_count` rows cleared at once.
pub open spec fn line_points(lines_count: int) -> int {
    if lines_count == 1 {
        SINGLE_LINE_POINTS as int
    } else if lines_count == 2 {
        DOUBLE_LINE_POINTS as int
    } else if lines_count == 3 {
        TRIPLE_LINE_POINTS as int
    } else if lines_count == 4 {
        TETRIS_POINTS as int
    } else {
        0
    }
}

impl State {
    /// Both pieces are well-formed, every settled cell lies in a row of the
    /// board, and the counters have not run backwards.
    pub open spec fn wf(self) -> bool {
        &&& self.current.wf()
        &&& self.next.wf()
        &&& forall|j: int|
            0 <= j < self.squares.len() ==> 0 <= (#[trigger] self.squares[j]).row < BOARD_ROWS
        &&& self.lines >= 0
        &&& self.level >= 1
    }

    /// A session at its start: an empty board, the window at the top, no
    /// bomb, no points, level 1.
    pub open spec fn initial(
        configuration: Configuration,
        bomb_height: int,
        current: Piece,
        next: Piece,
    ) -> State {
        State {
            current,
            next,
            squares: Seq::empty(),
            window_start: 0,
            bomb: None,
            bomb_height,
            game_over: false,
            configuration,
            lines: 0,
            score: 0,
            level: 1,
            ticks: 0,
        }
    }

    /// Gravity at the current level, in fixed-point units per physics step.
    pub open spec fn speed(self) -> int {
        self.configuration.base_speed() * self.level
    }

    /// Whether the row holds as many settled cells as make it full.
    pub open spec fn full(self, row: int) -> bool {
        count_in_row(self.squares, row) == FULL_ROW
    }

    /// The session once `square` has settled. A cell in the topmost row ends
    /// the game. A cell outside the rows of the board has no place to settle
    /// in and is left out.
    pub open spec fn placed(self, square: Square) -> State {
        if 0 <= square.row < BOARD_ROWS {
            State {
                squares: self.squares.push(square),
                game_over: self.game_over || square.row == 0,
                ..self
            }
        } else {
            self
        }
    }

    /// The session once the row `line` is cleared: its cells are removed,
    /// every cell above it comes down by one row, and one more row counts as
    /// cleared.
    pub open spec fn cleared(self, line: int) -> State {
        State { squares: without_row(self.squares, line), lines: self.lines + 1, ..self }
    }

    /// The session once every one of `cells` has settled, in their order.
    pub open spec fn placed_all(self, cells: Seq<Square>) -> State
        decreases cells.len(),
    {
        if cells.len() == 0 {
            self
        } else {
            self.placed_all(cells.drop_last()).placed(cells.last())
        }
    }

    /// The session once the rows from `from` to the bottom are swept: going
    /// down the board, every row that is full when its turn comes is
    /// cleared.
    pub open spec fn swept(self, from: int) -> State
        decreases BOARD_ROWS - from,
    {
        if from >= BOARD_ROWS {
            self
        } else if self.full(from) {
            self.cleared(from).swept(from + 1)
        } else {
            self.swept(from + 1)
        }
    }

    /// The factor by which points are scaled, in tenths. The factor is 1 in
    /// classic mode, and else 2 and a tenth more for every row by which the
    /// viewing window is lower than the board.
    pub open spec fn multiplier_tenths(self) -> int {
        if self.configuration.classic() {
            10
        } else {
            20 + (BOARD_ROWS - self.configuration.window_rows())
        }
    }

    /// The points for `lines_count` rows cleared at once, scaled. The fixed
    /// points are multiples of 10, so the division is exact.
    pub open spec fn award(self, lines_count: int) -> int {
        line_points(lines_count) * self.multiplier_tenths() / 10
    }

    /// The session once the points for `lines_count` rows are added.
    pub open spec fn scored(self, lines_count: int) -> State {
        State { score: self.score + self.award(lines_count), ..self }
    }

    /// The session once the level is looked after: where the cleared rows
    /// have reached what the configuration asks for, the level rises by one
    /// and the rows are counted from 0 again.
    pub open spec fn leveled(self) -> State {
        if self.lines >= self.configuration.level_lines() {
            State { level: self.level + 1, lines: 0, ..self }
        } else {
            self
        }
    }

    /// The session once the next piece has taken the place of the current
    /// one, with `fresh` behind it.
    pub open spec fn promoted(self, fresh: Piece) -> State {
        State { current: self.next, next: fresh, ..self }
    }

    /// The session once a new falling entity has appeared: a bomb where the
    /// roll is 1 and the mode is not classic, and else the next piece.
    pub open spec fn spawned(self, roll: int, fresh: Piece) -> State {
        if roll == 1 && !self.configuration.classic() {
            State { bomb: Some(Bomb::fresh(self.bomb_height)), ..self }
        } else {
            self.promoted(fresh)
        }
    }

    /// The session once the current piece has landed: its cells settle, the
    /// full rows are cleared, the rows cleared at this landing are paid for,
    /// and the level is looked after.
    pub open spec fn landed(self) -> State {
        let swept = self.placed_all(self.current.squares()).swept(0);
        swept.scored(swept.lines - self.lines).leveled()
    }

    /// The session once the bomb, if there is one, has gone off: the settled
    /// cells in the 3 by 3 box around it are gone, and so is the bomb.
    pub open spec fn exploded(self) -> State {
        match self.bomb {
            Some(bomb) => State {
                squares: without_blast(self.squares, bomb),
                bomb: None,
                ..self
            },
            None => self,
        }
    }

    /// The session once the current piece has moved by `(x, y)`, if the
    /// collision test for a sideways shift by `x` lets it; unchanged if not.
    pub open spec fn translated(self, x: int, y: int) -> State {
        if self.current.collides(self.squares, x) {
            self
        } else {
            State { current: self.current.moved(x, y), ..self }
        }
    }

    /// Whether every number of the session is far enough from the ends of
    /// the machine's range for a step to stay inside it.
    pub open spec fn in_range(self) -> bool {
        &&& -COORD_LIMIT <= self.current.translate.0 <= COORD_LIMIT
        &&& -COORD_LIMIT <= self.current.translate.1 <= COORD_LIMIT
        &&& match self.bomb {
            Some(bomb) => {
                &&& -COORD_LIMIT <= bomb.pos.x <= COORD_LIMIT
                &&& -COORD_LIMIT <= bomb.pos.y <= COORD_LIMIT
            },
            None => true,
        }
        &&& -COUNT_LIMIT <= self.window_start <= COUNT_LIMIT
        &&& self.lines <= COUNT_LIMIT
        &&& self.level <= COUNT_LIMIT
        &&& self.ticks <= COUNT_LIMIT
        &&& -SCORE_LIMIT <= self.score <= SCORE_LIMIT
    }

    /// How far the falling entity falls in one physics step: the step's own
    /// fall, the soft-drop boost and the level's speed, added and doubled.
    pub open spec fn fall_speed(self, input: Input) -> int {
        (STEP_FALL + input.speed_boost + self.speed()) * 2
    }

    /// The session once the bomb, if there is one, has moved by `(x, y)`.
    pub open spec fn bomb_moved(self, x: int, y: int) -> State {
        match self.bomb {
            Some(bomb) => State { bomb: Some(bomb.moved(x, y)), ..self },
            None => self,
        }
    }

    /// What a physics step comes to.
    pub open spec fn outcome(self, input: Input) -> Step {
        let speed = self.fall_speed(input);
        if self.game_over {
            Step::Idle
        } else {
            match self.bomb {
                Some(bomb) => if bomb.moved(0, speed).collides(self.squares, 0, speed) {
                    Step::Exploded
                } else {
                    Step::BombFell
                },
                None => if self.current.collides(self.squares, 0) {
                    Step::Landed
                } else {
                    Step::Fell
                },
            }
        }
    }

    /// The session after a physics step, short of the new falling entity
    /// that a landing or an explosion calls for. Nothing happens once the
    /// game is over. A bomb falls, and goes off where it then collides. A
    /// piece lands where it collides as it stands, and falls otherwise.
    pub open spec fn advanced(self, input: Input) -> State {
        let speed = self.fall_speed(input);
        match self.outcome(input) {
            Step::Idle => self,
            Step::BombFell => self.bomb_moved(0, speed),
            Step::Exploded => self.bomb_moved(0, speed).exploded(),
            Step::Landed => self.landed(),
            Step::Fell => State { current: self.current.moved(0, speed), ..self },
        }
    }

    /// The session after a physics step. After a landing a new falling
    /// entity appears, by the roll; after an explosion the next piece takes
    /// over. `fresh` is the piece that then comes to wait as the next one.
    pub open spec fn stepped(self, input: Input, roll: int, fresh: Piece) -> State {
        match self.outcome(input) {
            Step::Landed => self.advanced(input).spawned(roll, fresh),
            Step::Exploded => self.advanced(input).promoted(fresh),
            _ => self.advanced(input),
        }
    }

    /// The session once a frame has begun: one more frame has passed since
    /// the intents were applied, unless the game is over.
    pub open spec fn ticked(self) -> State {
        if self.game_over {
            self
        } else {
            State { ticks: self.ticks + 1, ..self }
        }
    }

    /// The session once a rotation is tried: the current piece is rotated
    /// if it then collides with nothing, and is left as it was, shape and
    /// offset, if it does.
    pub open spec fn turned(self) -> State {
        let candidate = self.current.rotated();
        if candidate.collides(self.squares, 0) {
            self
        } else {
            State { current: candidate, ..self }
        }
    }

    /// The session once the viewing window is asked to move by `movement`
    /// rows: it moves unless it would then reach past the top or the bottom
    /// of the board.
    pub open spec fn scrolled(self, movement: int) -> State {
        if self.window_start + self.configuration.visible_rows() + movement > BOARD_ROWS
            || self.window_start + movement < 0 {
            self
        } else {
            State { window_start: self.window_start + movement, ..self }
        }
    }

    /// The session once the current piece and the bomb, if there is one, are
    /// asked to move sideways by `x`: each moves if its collision test lets
    /// it.
    pub open spec fn shifted(self, x: int) -> State {
        let moved = self.translated(x, 0);
        match self.bomb {
            Some(bomb) => if bomb.collides(self.squares, x, 0) {
                moved
            } else {
                moved.bomb_moved(x, 0)
            },
            None => moved,
        }
    }

    /// The session once the player's intents are applied, which happens
    /// only when enough frames have passed. First the rotation and the
    /// scrolling of the window, then the sideways movement; either resets
    /// the count of frames. Nothing happens once the game is over.
    pub open spec fn steered(self, input: Input) -> State {
        if self.game_over {
            self
        } else {
            let first = if self.ticks >= ROTATION_INTERVAL {
                let turned = if input.rotate {
                    self.turned()
                } else {
                    self
                };
                State { ticks: 0, ..turned.scrolled(input.viewing_area_movement as int) }
            } else {
                self
            };
            if self.ticks >= MOVE_INTERVAL {
                State { ticks: 0, ..first.shifted(input.movement * CELL) }
            } else {
                first
            }
        }
    }
}

/// How many of the rows from `from` to the bottom are full.
pub open spec fn full_rows(state: State, from: int) -> int
    decreases BOARD_ROWS - from,
{
    if from >= BOARD_ROWS {
        0
    } else if state.full(from) {
        1 + full_rows(state, from + 1)
    } else {
        full_rows(state, from + 1)
    }
}

/// Settling cells changes the settled cells and may end the game; it
/// changes nothing else.
pub proof fn lemma_placed_all_frame(state: State, cells: Seq<Square>)
    ensures
        state.placed_all(cells) == (State {
            squares: state.placed_all(cells).squares,
            game_over: state.placed_all(cells).game_over,
            ..state
        }),
    decreases cells.len(),
{
    if cells.len() > 0 {
        lemma_placed_all_frame(state, cells.drop_last());
    }
}

/// Settling cells keeps a well-formed session well-formed.
pub proof fn lemma_placed_all_wf(state: State, cells: Seq<Square>)
    requires
        state.wf(),
    ensures
        state.placed_all(cells).wf(),
    decreases cells.len(),
{
    if cells.len() > 0 {
        lemma_placed_all_wf(state, cells.drop_last());
    }
}

/// Sweeping changes the settled cells and the number of cleared rows; it
/// changes nothing else. It clears no more rows than it looks at.
pub proof fn lemma_swept_frame(state: State, from: int)
    requires
        0 <= from <= BOARD_ROWS,
    ensures
        state.swept(from) == (State {
            squares: state.swept(from).squares,
            lines: state.swept(from).lines,
            ..state
        }),
        state.lines <= state.swept(from).lines <= state.lines + (BOARD_ROWS - from),
    decreases BOARD_ROWS - from,
{
    if from < BOARD_ROWS {
        if state.full(from) {
            lemma_swept_frame(state.cleared(from), from + 1);
        } else {
            lemma_swept_frame(state, from + 1);
        }
    }
}

/// The scaled points are a whole number: no rounding takes part in them.
pub proof fn lemma_award_exact(state: State, lines_count: int)
    ensures
        state.award(lines_count) * 10 == line_points(lines_count) * state.multiplier_tenths(),
        state.award(lines_count) == (line_points(lines_count) / 10) * state.multiplier_tenths(),
{
    let t = state.multiplier_tenths();
    assert(40 * t / 10 == 4 * t);
    assert(100 * t / 10 == 10 * t);
    assert(300 * t / 10 == 30 * t);
    assert(1200 * t / 10 == 120 * t);
    assert(0 * t / 10 == 0 * t);
}

/// A physics step leaves the configuration as it is.
pub proof fn lemma_advanced_configuration(state: State, input: Input)
    ensures
        state.advanced(input).configuration == state.configuration,
{
    let cells = state.current.squares();
    lemma_placed_all_frame(state, cells);
    lemma_swept_frame(state.placed_all(cells), 0);
}

/// What clearing a row does. The cells that are left are those of the other
/// rows: each cell that was above the cleared row is one row lower, each
/// cell that was below it is where it was, and no cell has gone up. Every
/// row from the top to the cleared one now counts what the row above it
/// counted, the topmost row nothing; so the cleared row counts 0 where the
/// row above it was empty. The rows below count what they counted.
pub proof fn lemma_clear_line(state: State, line: int)
    requires
        state.wf(),
        0 <= line < BOARD_ROWS,
    ensures
        state.cleared(line).wf(),
        state.cleared(line).lines == state.lines + 1,
        forall|k: int|
            0 <= k < state.cleared(line).squares.len() ==> exists|j: int|
                0 <= j < state.squares.len() && (#[trigger] state.squares[j]).row != line
                    && (#[trigger] state.cleared(line).squares[k]) == dropped(state.squares[j], line),
        forall|j: int|
            0 <= j < state.squares.len() && (#[trigger] state.squares[j]).row != line ==> exists|
                k: int,
            |
                0 <= k < state.cleared(line).squares.len() && #[trigger] state.cleared(
                    line,
                ).squares[k] == dropped(state.squares[j], line),
        forall|square: Square|
            0 <= square.row < BOARD_ROWS ==> {
                &&& (#[trigger] dropped(square, line)).row == if square.row < line {
                    square.row + 1
                } else {
                    square.row as int
                }
                &&& dropped(square, line).column == square.column
                &&& dropped(square, line).color == square.color
            },
        forall|row: int|
            0 <= row < BOARD_ROWS ==> #[trigger] count_in_row(state.cleared(line).squares, row)
                == if row > line {
                count_in_row(state.squares, row)
            } else if row == 0 {
                0
            } else {
                count_in_row(state.squares, row - 1)
            },
        line == 0 || count_in_row(state.squares, line - 1) == 0 ==> count_in_row(
            state.cleared(line).squares,
            line,
        ) == 0,
{
    let after = state.cleared(line).squares;
    assert forall|k: int| 0 <= k < after.len() implies exists|j: int|
        0 <= j < state.squares.len() && (#[trigger] state.squares[j]).row != line
            && (#[trigger] after[k]) == dropped(state.squares[j], line) by {
        lemma_without_row_source(state.squares, line, k);
    }
    assert forall|k: int| 0 <= k < after.len() implies 0 <= (#[trigger] after[k]).row
        < BOARD_ROWS by {
        lemma_without_row_source(state.squares, line, k);
    }
    assert forall|j: int|
        0 <= j < state.squares.len() && (#[trigger] state.squares[j]).row != line implies exists|
        k: int,
    |
        0 <= k < after.len() && #[trigger] after[k] == dropped(state.squares[j], line) by {
        lemma_without_row_keeps(state.squares, line, j);
    }
    assert forall|row: int| 0 <= row < BOARD_ROWS implies #[trigger] count_in_row(after, row)
        == if row > line {
        count_in_row(state.squares, row)
    } else if row == 0 {
        0
    } else {
        count_in_row(state.squares, row - 1)
    } by {
        lemma_count_without_row(state.squares, line, row);
        if row == 0 {
            lemma_count_in_empty_row(state.squares, -1);
        }
    }
}

/// Two boards that agree on the counts of the rows from `from` down have
/// the same number of full rows there.
proof fn lemma_full_rows_below(a: State, b: State, from: int)
    requires
        0 <= from <= BOARD_ROWS,
        forall|row: int|
            from <= row < BOARD_ROWS ==> #[trigger] count_in_row(b.squares, row) == count_in_row(
                a.squares,
                row,
            ),
    ensures
        full_rows(a, from) == full_rows(b, from),
    decreases BOARD_ROWS - from,
{
    if from < BOARD_ROWS {
        assert(count_in_row(b.squares, from) == count_in_row(a.squares, from));
        lemma_full_rows_below(a, b, from + 1);
    }
}

/// A sweep clears every row that is full when the sweep begins, once, and
/// no other: it clears as many rows as were full, and leaves no row full.
/// (A sweep from a row further down does the same for the rows from there
/// on, where no row above them is full.)
pub proof fn lemma_swept_lines(state: State, from: int)
    requires
        state.wf(),
        0 <= from <= BOARD_ROWS,
        forall|row: int| 0 <= row < from ==> !state.full(row),
    ensures
        state.swept(from).wf(),
        state.swept(from).lines == state.lines + full_rows(state, from),
        forall|row: int| 0 <= row < BOARD_ROWS ==> !state.swept(from).full(row),
    decreases BOARD_ROWS - from,
{
    if from < BOARD_ROWS {
        if state.full(from) {
            let after = state.cleared(from);
            lemma_clear_line(state, from);
            lemma_full_rows_below(state, after, from + 1);
            assert forall|row: int| 0 <= row < from + 1 implies !after.full(row) by {
                if row > 0 {
                    assert(!state.full(row - 1));
                }
            }
            lemma_swept_lines(after, from + 1);
        } else {
            lemma_swept_lines(state, from + 1);
        }
    }
}

/// The points of a landing. In classic mode one to four rows cleared at
/// once bring 40, 100, 300 and 1200 points; otherwise ten times the points
/// are as many tenths of the factor as the fixed points say. Any other
/// number of rows brings nothing.
pub proof fn lemma_award(state: State, lines_count: int)
    ensures
        state.configuration.classic() ==> state.award(1) == 40 && state.award(2) == 100
            && state.award(3) == 300 && state.award(4) == 1200,
        !state.configuration.classic() ==> state.award(lines_count) * 10 == line_points(
            lines_count,
        ) * (20 + (BOARD_ROWS - state.configuration.window_rows())),
        !(1 <= lines_count <= 4) ==> state.award(lines_count) == 0,
        state.scored(lines_count).score == state.score + state.award(lines_count),
{
    lemma_award_exact(state, lines_count);
    lemma_award_exact(state, 1);
    lemma_award_exact(state, 2);
    lemma_award_exact(state, 3);
    lemma_award_exact(state, 4);
}

/// The level rises by exactly one when the cleared rows have reached what
/// the configuration asks for, however far past it they are, and the speed
/// is then the base speed times the new level; short of that, level and
/// speed stay.
pub proof fn lemma_level_up(state: State)
    ensures
        state.lines >= state.configuration.level_lines() ==> {
            &&& state.leveled().level == state.level + 1
            &&& state.leveled().lines == 0
            &&& state.leveled().speed() == state.configuration.base_speed() * (state.level + 1)
        },
        state.lines < state.configuration.level_lines() ==> state.leveled() == state,
{
}

/// A landing pays for exactly the rows that are full once the piece has
/// settled, and clears each of them once.
pub proof fn lemma_landed(state: State)
    requires
        state.wf(),
    ensures
        state.landed().wf(),
        ({
            let settled = state.placed_all(state.current.squares());
            let cleared = full_rows(settled, 0);
            &&& state.landed().score == state.score + state.award(cleared)
            &&& state.landed() == settled.swept(0).scored(cleared).leveled()
            &&& forall|row: int| 0 <= row < BOARD_ROWS ==> !state.landed().full(row)
        }),
{
    let settled = state.placed_all(state.current.squares());
    lemma_placed_all_wf(state, state.current.squares());
    lemma_placed_all_frame(state, state.current.squares());
    lemma_swept_lines(settled, 0);
    lemma_swept_frame(settled, 0);
    let swept = settled.swept(0);
    let cleared = full_rows(settled, 0);
    assert(swept.lines - state.lines == cleared);
    assert(swept.configuration == state.configuration);
    assert(swept.award(cleared) == state.award(cleared));
    assert(swept.score == state.score);
    assert(state.landed().squares == swept.squares);
    assert forall|row: int| 0 <= row < BOARD_ROWS implies !state.landed().full(row) by {
        assert(!swept.full(row));
    }
}

} // verus!
