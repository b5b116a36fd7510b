//! The values a session is configured with.

use vstd::prelude::*;

verus! {

/// The four settings of a game. They stay fixed for the lifetime of a session.
#[derive(Clone, Copy, Debug)]
pub struct Configuration {
    classic_mode: bool,
    viewing_area_rows_count: i32,
    default_speed: i32,
    lines_to_level_up: i32,
}

impl Configuration {
    /// Whether bombs, the two large piece kinds and the scrolling window are
    /// switched off.
    pub closed spec fn classic(&self) -> bool {
        self.classic_mode
    }

    /// The configured height of the viewing window, which only counts outside
    /// classic mode.
    pub closed spec fn window_rows(&self) -> i32 {
        self.viewing_area_rows_count
    }

    /// Base gravity in fixed-point units per physics step.
    pub closed spec fn base_speed(&self) -> i32 {
        self.default_speed
    }

    /// Cleared rows that raise the level.
    pub closed spec fn level_lines(&self) -> i32 {
        self.lines_to_level_up
    }

    /// The height of the viewing window in force: in classic mode the window
    /// reaches one row past the whole board.
    pub open spec fn visible_rows(&self) -> int {
        if self.classic() {
            19
        } else {
            self.window_rows() as int
        }
    }

    /// A configuration holding exactly the given values.
    pub fn new(
        classic_mode: bool,
        viewing_area_rows_count: i32,
        default_speed: i32,
        lines_to_level_up: i32,
    ) -> (c: Configuration)
        ensures
            c.classic() == classic_mode,
            c.window_rows() == viewing_area_rows_count,
            c.base_speed() == default_speed,
            c.level_lines() == lines_to_level_up,
    {
        Configuration { classic_mode, viewing_area_rows_count, default_speed, lines_to_level_up }
    }

    pub fn classic_mode(&self) -> (b: bool)
        ensures
            b == self.classic(),
    {
        self.classic_mode
    }

    pub fn viewing_area_rows_count(&self) -> (rows: i32)
        ensures
            rows == self.visible_rows(),
    {
        if self.classic_mode {
            19
        } else {
            self.viewing_area_rows_count
        }
    }

    pub fn default_speed(&self) -> (speed: i32)
        ensures
            speed == self.base_speed(),
    {
        self.default_speed
    }

    pub fn lines_to_level_up(&self) -> (lines: i32)
        ensures
            lines == self.level_lines(),
    {
        self.lines_to_level_up
    }
}

} // verus!
