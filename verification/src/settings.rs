//! The player's settings.

use vstd::prelude::*;

verus! {

/// Five switches that the player sets. The engine reads the first two; the
/// other three belong to whatever presents the game.
#[derive(Clone, Copy, Debug, PartialEq, Eq, Hash, Structural)]
pub struct Settings {
    pub check_guesses_when_entered: bool,
    pub start_in_automatic_mode: bool,
    pub highlight_conflicts: bool,
    pub play_sound_on_solve: bool,
    pub show_clock: bool,
}

impl Default for Settings {
    fn default() -> (settings: Self)
        ensures
            settings == (Settings {
                check_guesses_when_entered: false,
                start_in_automatic_mode: false,
                highlight_conflicts: true,
                play_sound_on_solve: true,
                show_clock: true,
            }),
    {
        Self {
            check_guesses_when_entered: false,
            start_in_automatic_mode: false,
            highlight_conflicts: true,
            play_sound_on_solve: true,
            show_clock: true,
        }
    }
}

} // verus!
