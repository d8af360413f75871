//! What the engine accepts from whatever presents the game, and what it
//! tells it in return.

use crate::candidates::is_digit;
use vstd::prelude::*;

verus! {

/// A step of the selection across the grid.
#[derive(Clone, Copy, Debug, PartialEq, Eq, Hash, Structural)]
pub enum MoveSelectCell {
    Up,
    Down,
    Left,
    Right,
}

/// An input to the engine. Every event but the puzzle-wide ones targets the
/// selected cell.
#[derive(Clone, Copy, Debug, PartialEq, Eq, Hash, Structural)]
pub enum GameEvent {
    NewDigit(u8),
    NewCandidate(u8),
    CleanCell,
    RevealCell,
    RevealPuzzle,
    CheckCell,
    CheckPuzzle,
    ResetPuzzle,
    FindHint,
    MoveSelection(MoveSelectCell),
    ToggleCandidateModeFlag,
}

impl GameEvent {
    /// An event is well formed when the digit it carries is from 1 to 9.
    pub open spec fn wf(self) -> bool {
        match self {
            GameEvent::NewDigit(d) => is_digit(d as int),
            GameEvent::NewCandidate(d) => is_digit(d as int),
            _ => true,
        }
    }
}

/// What one input made the engine announce.
#[derive(Clone, Copy, Debug, PartialEq, Eq, Hash, Structural)]
pub struct Signals {
    /// The committed digit that left the targeted cell.
    pub remove_digit: Option<u8>,
    /// The grid became solved with this input. Whoever keeps the clock
    /// pauses it.
    pub sudoku_solved: bool,
    /// The puzzle was reset. Whoever keeps the clock starts it anew.
    pub reset_timer: bool,
}

impl Signals {
    /// Nothing to announce.
    pub open spec fn spec_none() -> Signals {
        Signals { remove_digit: None, sudoku_solved: false, reset_timer: false }
    }

    /// Nothing to announce.
    #[verifier::when_used_as_spec(spec_none)]
    pub fn none() -> (signals: Signals)
        ensures
            signals == Signals::spec_none(),
    {
        Signals { remove_digit: None, sudoku_solved: false, reset_timer: false }
    }
}

} // verus!
