//! The game session: the board of settled cells, the falling piece or bomb,
//! score and level, and the steps that advance them.

use vstd::prelude::*;
use crate::block::{Block, BlockType, Color, Square};
use crate::board::{
    count_in_row, count_rows, lemma_count_in_empty_row, lemma_count_in_row_bound,
    lemma_count_without_row, lemma_without_blast_source, lemma_without_row_source,
    shift_counts, without_blast, without_row,
};
use crate::bomb::Bomb;
use crate::configuration::Configuration;
use crate::constants::{
    BOARD_ROWS, CELL, COORD_LIMIT, COUNT_LIMIT, DOUBLE_LINE_POINTS, FULL_ROW, MOVE_INTERVAL,
    ROTATION_INTERVAL, SCORE_LIMIT, SINGLE_LINE_POINTS, STEP_FALL, TETRIS_POINTS,
    TRIPLE_LINE_POINTS,
};
use crate::input::Input;
use crate::piece::{lemma_rotated_offset, lemma_spawned_wf, Piece};
use crate::random::random_up_to;
use crate::state::{
    lemma_advanced_configuration, lemma_award_exact, lemma_placed_all_frame, lemma_swept_frame,
    line_points, State, Step,
};

verus! {

/// The game session.
pub struct Tetris {
    current_block: Block,
    next_block: Block,
    squares: Vec<Square>,
    viewing_area_start_row: i32,
    bomb: Option<Bomb>,
    bomb_height: u16,
    game_over: bool,
    configuration: Configuration,
    lines_block_count: Vec<u64>,
    lines: i32,
    score: i64,
    speed: i64,
    level: i32,
    ticks: i32,
}

impl View for Tetris {
    type V = State;

    closed spec fn view(&self) -> State {
        State {
            current: self.current_block@,
            next: self.next_block@,
            squares: self.squares@,
            window_start: self.viewing_area_start_row as int,
            bomb: self.bomb,
            bomb_height: self.bomb_height as int,
            game_over: self.game_over,
            configuration: self.configuration,
            lines: self.lines as int,
            score: self.score as int,
            level: self.level as int,
            ticks: self.ticks as int,
        }
    }
}

impl Tetris {
    /// The session's invariant: its value is well-formed, the row counters
    /// agree with the settled cells, and the stored speed is that of the
    /// level.
    pub closed spec fn wf(&self) -> bool {
        &&& self@.wf()
        &&& self.lines_block_count@.len() == BOARD_ROWS
        &&& forall|row: int|
            0 <= row < BOARD_ROWS ==> #[trigger] self.lines_block_count@[row] == count_in_row(
                self.squares@,
                row,
            )
        &&& self.speed == self@.speed()
    }

    /// A well-formed session stands for a well-formed value.
    pub proof fn lemma_wf(&self)
        requires
            self.wf(),
        ensures
            self@.wf(),
    {
    }

    /// A session at its start with the given two pieces.
    pub fn with_blocks(
        configuration: Configuration,
        bomb_height: u16,
        current: Block,
        next: Block,
    ) -> (session: Tetris)
        requires
            current@.wf(),
            next@.wf(),
        ensures
            session.wf(),
            session@ == State::initial(configuration, bomb_height as int, current@, next@),
    {
        let squares: Vec<Square> = Vec::new();
        let lines_block_count = count_rows(&squares);
        let speed: i64 = configuration.default_speed() as i64;
        Tetris {
            current_block: current,
            next_block: next,
            squares,
            viewing_area_start_row: 0,
            bomb: None,
            bomb_height,
            game_over: false,
            configuration,
            lines_block_count,
            lines: 0,
            score: 0,
            speed,
            level: 1,
            ticks: 0,
        }
    }

    /// Settles one cell: the cell joins the settled cells and its row counts
    /// one more; a cell in the topmost row ends the game. A cell outside the
    /// rows of the board is left out.
    pub fn place(&mut self, square: Square)
        requires
            old(self).wf(),
        ensures
            final(self).wf(),
            final(self)@ == old(self)@.placed(square),
    {
        if 0 <= square.row && square.row < BOARD_ROWS {
            if square.row == 0 {
                self.game_over = true;
            }
            self.squares.push(square);
            // A row counts no more cells than there were before this one, and
            // the vector had room for one more: the counter does not overflow.
            let settled: usize = self.squares.len();
            let row: usize = square.row as usize;
            proof {
                lemma_count_in_row_bound(old(self).squares@, square.row as int);
                assert(self.squares@.drop_last() =~= old(self).squares@);
                assert(count_in_row(old(self).squares@, square.row as int) < settled);
            }
            self.lines_block_count[row] = self.lines_block_count[row] + 1;
        }
    }

    /// Clears the row `line`: removes its cells, brings every cell above it
    /// down by one row, and moves the row counters down with the cells.
    pub fn clear_line(&mut self, line: usize)
        requires
            old(self).wf(),
            line < BOARD_ROWS,
            old(self)@.lines < i32::MAX,
        ensures
            final(self).wf(),
            final(self)@ == old(self)@.cleared(line as int),
    {
        let mut kept: Vec<Square> = Vec::new();
        let mut j: usize = 0;
        while j < self.squares.len()
            invariant
                j <= self.squares.len(),
                line < BOARD_ROWS,
                self.squares == old(self).squares,
                kept@ == without_row(self.squares@.take(j as int), line as int),
            decreases self.squares.len() - j,
        {
            let square = self.squares[j];
            proof {
                assert(self.squares@.take(j + 1).drop_last() =~= self.squares@.take(j as int));
            }
            if square.row != line as i64 {
                if square.row < line as i64 {
                    kept.push(Square::new(square.row + 1, square.column, square.color));
                } else {
                    kept.push(square);
                }
            }
            j += 1;
        }
        proof {
            assert(self.squares@.take(j as int) =~= self.squares@);
            assert forall|k: int| 0 <= k < kept@.len() implies 0 <= (#[trigger] kept@[k]).row
                < BOARD_ROWS by {
                lemma_without_row_source(old(self).squares@, line as int, k);
            }
            assert forall|row: int| 0 <= row < BOARD_ROWS implies count_in_row(kept@, row) == if row
                > line {
                count_in_row(old(self).squares@, row)
            } else if row == 0 {
                0
            } else {
                count_in_row(old(self).squares@, row - 1)
            } by {
                lemma_count_without_row(old(self).squares@, line as int, row);
                if row == 0 {
                    lemma_count_in_empty_row(old(self).squares@, -1);
                }
            }
        }
        self.lines += 1;
        self.squares = kept;
        shift_counts(&mut self.lines_block_count, line);
    }

    /// Moves the current piece by `(x, y)` if the collision test for a
    /// sideways shift by `x` lets it, and tells whether it did.
    pub fn translate_current_block(&mut self, x: i64, y: i64) -> (moved: bool)
        requires
            old(self).wf(),
            i64::MIN <= old(self)@.current.translate.0 + x <= i64::MAX,
            i64::MIN <= old(self)@.current.translate.1 + y <= i64::MAX,
        ensures
            final(self).wf(),
            moved == !old(self)@.current.collides(old(self)@.squares, x as int),
            final(self)@ == old(self)@.translated(x as int, y as int),
    {
        if self.current_block.will_collide(&self.squares, x) {
            return false;
        }
        self.current_block.translate(x, y);
        true
    }

    /// Settles every cell of the current piece where the piece now is.
    fn settle(&mut self)
        requires
            old(self).wf(),
        ensures
            final(self).wf(),
            final(self)@ == old(self)@.placed_all(old(self)@.current.squares()),
    {
        let cells = self.current_block.to_squares();
        let mut k: usize = 0;
        while k < cells.len()
            invariant
                k <= cells.len(),
                self.wf(),
                self@ == old(self)@.placed_all(cells@.take(k as int)),
            decreases cells.len() - k,
        {
            proof {
                assert(cells@.take(k + 1).drop_last() =~= cells@.take(k as int));
            }
            self.place(cells[k]);
            k += 1;
        }
        proof {
            assert(cells@.take(k as int) =~= cells@);
        }
    }

    /// Clears every full row, going down the board, and gives the number of
    /// rows cleared.
    pub fn sweep(&mut self) -> (lines_count: i32)
        requires
            old(self).wf(),
            old(self)@.lines + BOARD_ROWS <= i32::MAX,
        ensures
            final(self).wf(),
            final(self)@ == old(self)@.swept(0),
            lines_count == final(self)@.lines - old(self)@.lines,
            0 <= lines_count <= BOARD_ROWS,
    {
        let mut lines_count: i32 = 0;
        let mut i: usize = 0;
        while i < self.lines_block_count.len()
            invariant
                i <= BOARD_ROWS,
                self.wf(),
                self@.swept(i as int) == old(self)@.swept(0),
                lines_count == self@.lines - old(self)@.lines,
                0 <= lines_count <= i,
                old(self)@.lines + BOARD_ROWS <= i32::MAX,
            decreases BOARD_ROWS - i,
        {
            if self.lines_block_count[i] == FULL_ROW {
                lines_count += 1;
                self.clear_line(i);
            }
            i += 1;
        }
        lines_count
    }

    /// Adds the points for `lines_count` rows cleared at once: 40, 100, 300
    /// or 1200 for one to four rows and nothing for any other number, times
    /// the factor of the viewing window outside classic mode.
    pub fn update_score(&mut self, lines_count: i32)
        requires
            old(self).wf(),
            i64::MIN <= old(self)@.score + old(self)@.award(lines_count as int) <= i64::MAX,
        ensures
            final(self).wf(),
            final(self)@ == old(self)@.scored(lines_count as int),
    {
        let tenths: i64 = if self.configuration.classic_mode() {
            10
        } else {
            20 + (BOARD_ROWS - self.configuration.viewing_area_rows_count() as i64)
        };
        let points: i64 = match lines_count {
            1 => SINGLE_LINE_POINTS,
            2 => DOUBLE_LINE_POINTS,
            3 => TRIPLE_LINE_POINTS,
            4 => TETRIS_POINTS,
            _ => 0,
        };
        let unit: i64 = points / 10;
        proof {
            lemma_award_exact(self@, lines_count as int);
            assert(-0x1_0000_0000_0000 <= unit * tenths <= 0x1_0000_0000_0000) by (nonlinear_arith)
                requires
                    0 <= unit <= 120,
                    -0x1_0000_0000 <= tenths <= 0x1_0000_0000,
            ;
        }
        self.score = self.score + unit * tenths;
    }

    /// Raises the level by one where the rows cleared since it last rose
    /// have reached what the configuration asks for; the speed then becomes
    /// the base speed times the new level.
    pub fn level_up(&mut self)
        requires
            old(self).wf(),
            old(self)@.level < i32::MAX,
        ensures
            final(self).wf(),
            final(self)@ == old(self)@.leveled(),
    {
        if self.lines >= self.configuration.lines_to_level_up() {
            self.level += 1;
            self.lines = 0;
            let base: i64 = self.configuration.default_speed() as i64;
            let level: i64 = self.level as i64;
            assert(-0x4000_0000_0000_0000 <= base * level <= 0x4000_0000_0000_0000)
                by (nonlinear_arith)
                requires
                    -0x8000_0000 <= base <= 0x7fff_ffff,
                    1 <= level <= 0x7fff_ffff,
            ;
            self.speed = base * level;
        }
    }

    /// Sets the bomb off: the settled cells in the 3 by 3 box around the
    /// cell that the bomb is in are removed, the row counters are counted
    /// anew from the cells that are left, and the bomb is gone.
    pub fn explode_bomb(&mut self)
        requires
            old(self).wf(),
            old(self)@.bomb is Some,
        ensures
            final(self).wf(),
            final(self)@ == old(self)@.exploded(),
    {
        let bomb = self.bomb.unwrap();
        let centre = bomb.explode();
        let row: i128 = centre.0 as i128;
        let column: i128 = centre.1 as i128;
        let mut kept: Vec<Square> = Vec::new();
        let mut j: usize = 0;
        while j < self.squares.len()
            invariant
                j <= self.squares.len(),
                row == bomb.row(0),
                column == bomb.column(0),
                kept@ == without_blast(self.squares@.take(j as int), bomb),
            decreases self.squares.len() - j,
        {
            let square = self.squares[j];
            proof {
                assert(self.squares@.take(j + 1).drop_last() =~= self.squares@.take(j as int));
            }
            if row - 1 > square.row as i128 || square.row as i128 > row + 1 || column - 1
                > square.column as i128 || square.column as i128 > column + 1 {
                kept.push(square);
            }
            j += 1;
        }
        proof {
            assert(self.squares@.take(j as int) =~= self.squares@);
            assert forall|k: int| 0 <= k < kept@.len() implies 0 <= (#[trigger] kept@[k]).row
                < BOARD_ROWS by {
                lemma_without_blast_source(self.squares@, bomb, k);
            }
        }
        self.lines_block_count = count_rows(&kept);
        self.squares = kept;
        self.bomb = None;
    }

    /// Moves the bomb down by `speed` and sets it off if it then collides;
    /// tells whether it went off.
    fn update_bomb(&mut self, speed: i64) -> (hit: bool)
        requires
            old(self).wf(),
            old(self)@.bomb is Some,
            i64::MIN <= old(self)@.bomb.unwrap().pos.y + speed <= i64::MAX,
        ensures
            final(self).wf(),
            hit == old(self)@.bomb.unwrap().moved(0, speed as int).collides(
                old(self)@.squares,
                0,
                speed as int,
            ),
            final(self)@ == if hit {
                old(self)@.bomb_moved(0, speed as int).exploded()
            } else {
                old(self)@.bomb_moved(0, speed as int)
            },
    {
        let mut bomb = self.bomb.unwrap();
        bomb.translate(0, speed);
        self.bomb = Some(bomb);
        if bomb.will_collide(&self.squares, 0, speed) {
            self.explode_bomb();
            true
        } else {
            false
        }
    }

    /// Lands the current piece: settles its cells, clears the full rows,
    /// pays for them and looks after the level.
    fn land(&mut self)
        requires
            old(self).wf(),
            old(self)@.in_range(),
        ensures
            final(self).wf(),
            final(self)@ == old(self)@.landed(),
    {
        proof {
            lemma_placed_all_frame(self@, self@.current.squares());
            lemma_swept_frame(self@.placed_all(self@.current.squares()), 0);
        }
        self.settle();
        let lines_count = self.sweep();
        proof {
            lemma_award_exact(self@, lines_count as int);
            let tenths = self@.multiplier_tenths();
            let unit = line_points(lines_count as int) / 10;
            assert(-0x1_0000_0000_0000 <= unit * tenths <= 0x1_0000_0000_0000) by (nonlinear_arith)
                requires
                    0 <= unit <= 120,
                    -0x1_0000_0000 <= tenths <= 0x1_0000_0000,
            ;
        }
        self.update_score(lines_count);
        self.level_up();
    }

    /// The next piece takes the place of the current one, and `fresh` comes
    /// to wait behind it.
    fn promote(&mut self, fresh: Block)
        requires
            old(self).wf(),
            fresh@.wf(),
        ensures
            final(self).wf(),
            final(self)@ == old(self)@.promoted(fresh@),
    {
        std::mem::swap(&mut self.current_block, &mut self.next_block);
        self.next_block = fresh;
    }

    /// A bomb appears at the entry point.
    fn spawn_bomb(&mut self)
        requires
            old(self).wf(),
        ensures
            final(self).wf(),
            final(self)@ == (State {
                bomb: Some(Bomb::fresh(old(self)@.bomb_height)),
                ..old(self)@
            }),
    {
        self.bomb = Some(Bomb::new(self.bomb_height));
    }

    /// The fall of one physics step.
    fn fall_speed(&self, input: &Input) -> (speed: i64)
        requires
            self.wf(),
            self@.in_range(),
        ensures
            speed == self@.fall_speed(*input),
            -0x5000_0000_0000_0000 <= speed <= 0x5000_0000_0000_0000,
    {
        proof {
            let base = self@.configuration.base_speed();
            let level = self@.level;
            assert(-0x2000_0000_0000_0000 <= base * level <= 0x2000_0000_0000_0000)
                by (nonlinear_arith)
                requires
                    -0x8000_0000 <= base <= 0x7fff_ffff,
                    1 <= level <= 0x4000_0000,
            ;
        }
        (STEP_FALL + input.speed_boost as i64 + self.speed) * 2
    }

    /// A physics step short of the new falling entity that a landing or an
    /// explosion calls for.
    fn advance(&mut self, input: &Input) -> (outcome: Step)
        requires
            old(self).wf(),
            old(self)@.in_range(),
        ensures
            final(self).wf(),
            outcome == old(self)@.outcome(*input),
            final(self)@ == old(self)@.advanced(*input),
    {
        if self.game_over {
            return Step::Idle;
        }
        let speed = self.fall_speed(input);
        if self.bomb.is_some() {
            if self.update_bomb(speed) {
                Step::Exploded
            } else {
                Step::BombFell
            }
        } else if self.translate_current_block(0, speed) {
            Step::Fell
        } else {
            self.land();
            Step::Landed
        }
    }

    /// One physics step with given draws: `roll`, which decides whether a
    /// bomb appears after a landing, and `fresh`, the piece that comes to
    /// wait as the next one once the next piece takes over.
    pub fn step_with(&mut self, input: &Input, roll: u32, fresh: Block) -> (outcome: Step)
        requires
            old(self).wf(),
            old(self)@.in_range(),
            fresh@.wf(),
        ensures
            final(self).wf(),
            outcome == old(self)@.outcome(*input),
            final(self)@ == old(self)@.stepped(*input, roll as int, fresh@),
    {
        let outcome = self.advance(input);
        match outcome {
            Step::Landed => {
                if roll == 1 && !self.configuration.classic_mode() {
                    self.spawn_bomb();
                } else {
                    self.promote(fresh);
                }
            },
            Step::Exploded => {
                self.promote(fresh);
            },
            _ => {},
        }
        outcome
    }

    /// One physics step. After a landing a bomb appears with one chance in
    /// four, outside classic mode; where a piece is called for, one of a
    /// random kind is made.
    pub fn step(&mut self, input: &Input) -> (outcome: Step)
        requires
            old(self).wf(),
            old(self)@.in_range(),
        ensures
            final(self).wf(),
            outcome == old(self)@.outcome(*input),
            exists|roll: int, fresh: Piece|
                0 <= roll <= 3 && fresh.is_fresh(old(self)@.configuration) && final(self)@ == old(
                    self,
                )@.stepped(*input, roll, fresh),
    {
        let outcome = self.advance(input);
        let ghost after = self@;
        let ghost idle = Piece::spawned(
            BlockType::I,
            Color { r: 255, g: 255, b: 255, a: 255 },
            self@.configuration,
        );
        proof {
            lemma_advanced_configuration(old(self)@, *input);
        }
        match outcome {
            Step::Landed => {
                let roll = random_up_to(3);
                if roll == 1 && !self.configuration.classic_mode() {
                    self.spawn_bomb();
                    assert(self@ == old(self)@.stepped(*input, roll as int, idle));
                } else {
                    let fresh = Block::new(BlockType::random(), self.configuration);
                    proof {
                        lemma_spawned_wf(
                            fresh@.kind,
                            fresh@.color,
                            self@.configuration,
                        );
                    }
                    self.promote(fresh);
                    assert(self@ == old(self)@.stepped(*input, roll as int, fresh@));
                }
            },
            Step::Exploded => {
                let fresh = Block::new(BlockType::random(), self.configuration);
                proof {
                    lemma_spawned_wf(fresh@.kind, fresh@.color, self@.configuration);
                }
                self.promote(fresh);
                assert(self@ == old(self)@.stepped(*input, 0, fresh@));
            },
            _ => {
                assert(self@ == old(self)@.stepped(*input, 0, idle));
            },
        }
        outcome
    }

    /// Begins a frame: counts it, unless the game is over. Tells whether the
    /// game goes on.
    pub fn tick(&mut self) -> (running: bool)
        requires
            old(self).wf(),
            old(self)@.ticks < i32::MAX,
        ensures
            final(self).wf(),
            running == !old(self)@.game_over,
            final(self)@ == old(self)@.ticked(),
    {
        if self.game_over {
            return false;
        }
        self.ticks += 1;
        true
    }

    /// Tries a rotation of the current piece: the piece is rotated if it
    /// then collides with nothing, and stays as it was if it does.
    fn try_rotate(&mut self)
        requires
            old(self).wf(),
            old(self)@.current.can_rotate(),
        ensures
            final(self).wf(),
            final(self)@ == old(self)@.turned(),
    {
        let mut candidate = self.current_block.duplicate();
        candidate.rotate();
        if !candidate.will_collide(&self.squares, 0) {
            self.current_block = candidate;
        }
    }

    /// Moves the viewing window by `movement` rows unless it would then
    /// reach past the top or the bottom of the board.
    pub fn update_viewing_area(&mut self, movement: i8)
        requires
            old(self).wf(),
            i32::MIN <= old(self)@.window_start + movement <= i32::MAX,
        ensures
            final(self).wf(),
            final(self)@ == old(self)@.scrolled(movement as int),
    {
        let start: i64 = self.viewing_area_start_row as i64;
        let rows: i64 = self.configuration.viewing_area_rows_count() as i64;
        if start + rows + movement as i64 > BOARD_ROWS || start + (movement as i64) < 0 {
            return ;
        }
        self.viewing_area_start_row = (start + movement as i64) as i32;
    }

    /// Moves the current piece and the bomb, if there is one, sideways by
    /// `x`, each if its collision test lets it.
    fn shift(&mut self, x: i64)
        requires
            old(self).wf(),
            i64::MIN <= old(self)@.current.translate.0 + x <= i64::MAX,
            old(self)@.bomb is Some ==> i64::MIN <= old(self)@.bomb.unwrap().pos.x + x <= i64::MAX,
        ensures
            final(self).wf(),
            final(self)@ == old(self)@.shifted(x as int),
    {
        self.translate_current_block(x, 0);
        if self.bomb.is_some() {
            let mut bomb = self.bomb.unwrap();
            if !bomb.will_collide(&self.squares, x, 0) {
                bomb.translate(x, 0);
                self.bomb = Some(bomb);
            }
        }
    }

    /// Applies the player's intents, if enough frames have passed since they
    /// were last applied.
    pub fn steer(&mut self, input: &Input)
        requires
            old(self).wf(),
            old(self)@.in_range(),
        ensures
            final(self).wf(),
            final(self)@ == old(self)@.steered(*input),
    {
        if self.game_over {
            return ;
        }
        let current_ticks = self.ticks;
        if current_ticks >= ROTATION_INTERVAL {
            if input.rotate {
                proof {
                    lemma_rotated_offset(self@.current);
                }
                self.try_rotate();
            }
            self.update_viewing_area(input.viewing_area_movement);
            self.ticks = 0;
        }
        if current_ticks >= MOVE_INTERVAL {
            self.shift(input.movement as i64 * CELL);
            self.ticks = 0;
        }
    }

    /// Whether every number of the session is far enough from the ends of
    /// the machine's range for a step to stay inside it.
    pub fn in_range(&self) -> (fits: bool)
        ensures
            fits == self@.in_range(),
    {
        let piece = self.current_block.translate;
        let bomb_fits = match self.bomb {
            Some(bomb) => -COORD_LIMIT <= bomb.pos.x && bomb.pos.x <= COORD_LIMIT && -COORD_LIMIT
                <= bomb.pos.y && bomb.pos.y <= COORD_LIMIT,
            None => true,
        };
        -COORD_LIMIT <= piece.0 && piece.0 <= COORD_LIMIT && -COORD_LIMIT <= piece.1 && piece.1
            <= COORD_LIMIT && bomb_fits && -COUNT_LIMIT <= self.viewing_area_start_row
            && self.viewing_area_start_row <= COUNT_LIMIT && self.lines <= COUNT_LIMIT && self.level <= COUNT_LIMIT
            && self.ticks <= COUNT_LIMIT && -SCORE_LIMIT <= self.score && self.score
            <= SCORE_LIMIT
    }

    /// A session at its start, with two pieces of random kinds.
    pub fn new(configuration: Configuration, bomb_height: u16) -> (session: Tetris)
        ensures
            session.wf(),
            session@.current.is_fresh(configuration),
            session@.next.is_fresh(configuration),
            session@ == State::initial(
                configuration,
                bomb_height as int,
                session@.current,
                session@.next,
            ),
    {
        let current = Block::new(BlockType::random(), configuration);
        let next = Block::new(BlockType::random(), configuration);
        proof {
            lemma_spawned_wf(current@.kind, current@.color, configuration);
            lemma_spawned_wf(next@.kind, next@.color, configuration);
        }
        Tetris::with_blocks(configuration, bomb_height, current, next)
    }

    pub fn current_block(&self) -> (block: &Block)
        ensures
            block@ == self@.current,
    {
        &self.current_block
    }

    pub fn next_block(&self) -> (block: &Block)
        ensures
            block@ == self@.next,
    {
        &self.next_block
    }

    pub fn squares(&self) -> (squares: &Vec<Square>)
        ensures
            squares@ == self@.squares,
    {
        &self.squares
    }

    /// The number of settled cells in every row of the board.
    pub fn lines_block_count(&self) -> (counts: &Vec<u64>)
        requires
            self.wf(),
        ensures
            counts@.len() == BOARD_ROWS,
            forall|row: int|
                0 <= row < BOARD_ROWS ==> #[trigger] counts@[row] == count_in_row(
                    self@.squares,
                    row,
                ),
    {
        &self.lines_block_count
    }

    pub fn viewing_area_start_row(&self) -> (row: i32)
        ensures
            row == self@.window_start,
    {
        self.viewing_area_start_row
    }

    pub fn bomb(&self) -> (bomb: Option<Bomb>)
        ensures
            bomb == self@.bomb,
    {
        self.bomb
    }

    pub fn game_over(&self) -> (over: bool)
        ensures
            over == self@.game_over,
    {
        self.game_over
    }

    pub fn configuration(&self) -> (configuration: Configuration)
        ensures
            configuration == self@.configuration,
    {
        self.configuration
    }

    pub fn lines(&self) -> (lines: i32)
        ensures
            lines == self@.lines,
    {
        self.lines
    }

    pub fn score(&self) -> (score: i64)
        ensures
            score == self@.score,
    {
        self.score
    }

    /// Gravity at the current level, in fixed-point units per physics step.
    pub fn speed(&self) -> (speed: i64)
        requires
            self.wf(),
        ensures
            speed == self@.speed(),
    {
        self.speed
    }

    pub fn level(&self) -> (level: i32)
        ensures
            level == self@.level,
    {
        self.level
    }

    pub fn ticks(&self) -> (ticks: i32)
        ensures
            ticks == self@.ticks,
    {
        self.ticks
    }
}

} // verus!
