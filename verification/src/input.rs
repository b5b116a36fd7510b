//! What the player asks for.

use vstd::prelude::*;

verus! {

/// The four intents that the player's keys stand for. The engine does not
/// know the keys themselves.
#[derive(Clone, Copy, Debug, PartialEq, Eq, Structural)]
pub struct Input {
    /// Sideways movement in whole cells: -1, 0 or 1.
    pub movement: i8,
    /// Whether a rotation is asked for.
    pub rotate: bool,
    /// Gravity added while the piece is dropped softly, in fixed-point units
    /// per physics step.
    pub speed_boost: i32,
    /// Scrolling of the viewing window in rows: -1, 0 or 1.
    pub viewing_area_movement: i8,
}

impl Input {
    /// The input of a player who touches no key.
    pub open spec fn idle() -> Input {
        Input { movement: 0, rotate: false, speed_boost: 0, viewing_area_movement: 0 }
    }

    pub fn new() -> (input: Input)
        ensures
            input == Input::idle(),
    {
        Input { movement: 0, rotate: false, speed_boost: 0, viewing_area_movement: 0 }
    }
}

impl Default for Input {
    fn default() -> (input: Input)
        ensures
            input == Input::idle(),
    {
        Input::new()
    }
}

} // verus!
