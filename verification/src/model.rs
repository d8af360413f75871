//! The mathematical model of a game: its state and its transitions.

use crate::candidates::is_digit;
use crate::cell_state::{candidate_mode, CellMode, CellStateView, CellView};
use crate::events::{GameEvent, MoveSelectCell};
use crate::position::peers;
use crate::settings::Settings;
use vstd::prelude::*;

verus! {

/// A solution is 81 digits.
pub open spec fn valid_solution(solution: Seq<u8>) -> bool {
    &&& solution.len() == 81
    &&& forall|p: int| 0 <= p < 81 ==> is_digit(#[trigger] solution[p] as int)
}

/// A grid state is 81 cell states, each a digit or a set of digits.
pub open spec fn valid_grid_state(grid_state: Seq<CellStateView>) -> bool {
    &&& grid_state.len() == 81
    &&& forall|p: int| 0 <= p < 81 ==> (#[trigger] grid_state[p]).wf()
}

/// Two peers are in conflict when they hold the same committed digit. Two
/// clues are never counted: no commit ever made them meet.
pub open spec fn in_conflict(cells: Seq<CellView>, p: int, q: int) -> bool {
    &&& peers(p, q)
    &&& cells[p].digit.is_some()
    &&& cells[p].digit == cells[q].digit
    &&& !(cells[p].fixed && cells[q].fixed)
}

/// The state of a game.
pub struct GameView {
    /// The 81 cells, row by row.
    pub cells: Seq<CellView>,
    /// For each cell, the cells it is in conflict with.
    pub conflicts: Seq<Set<int>>,
    /// The answer.
    pub solution: Seq<u8>,
    /// What the puzzle started from.
    pub grid_state: Seq<CellStateView>,
    pub settings: Settings,
    /// The candidate-mode flag: whether candidates go to the automatic slot.
    pub auto_mode: bool,
    /// The one selected cell.
    pub selected: int,
    /// The solved signal was given.
    pub solved: bool,
}

impl GameView {
    /// Everything of the invariant but the conflict sets.
    pub open spec fn shaped(self) -> bool {
        &&& self.cells.len() == 81
        &&& self.conflicts.len() == 81
        &&& valid_solution(self.solution)
        &&& valid_grid_state(self.grid_state)
        &&& 0 <= self.selected < 81
        &&& forall|p: int| 0 <= p < 81 ==> (#[trigger] self.cells[p]).wf()
        &&& forall|p: int|
            0 <= p < 81 ==> ((#[trigger] self.cells[p]).fixed <==> self.grid_state[p] is Digit)
        &&& forall|p: int|
            0 <= p < 81 && (#[trigger] self.cells[p]).fixed ==> self.grid_state[p]
                == CellStateView::Digit(self.cells[p].digit.unwrap())
        &&& forall|p: int|
            0 <= p < 81 && (#[trigger] self.cells[p]).mode != CellMode::Digit ==> self.cells[p].mode
                == candidate_mode(self.auto_mode)
        &&& forall|p: int|
            0 <= p < 81 && (#[trigger] self.cells[p]).revealed ==> self.cells[p].digit == Some(
                self.solution[p],
            )
    }

    /// The conflict sets hold exactly the pairs in conflict.
    pub open spec fn conflicts_exact(self) -> bool {
        forall|p: int, q: int|
            0 <= p < 81 ==> (#[trigger] self.conflicts[p].contains(q) <==> 0 <= q < 81
                && in_conflict(self.cells, p, q))
    }

    /// The invariant of a game.
    pub open spec fn wf(self) -> bool {
        self.shaped() && self.conflicts_exact()
    }

    /// The conflict predicate that a presentation reads.
    pub open spec fn has_conflict(self, p: int) -> bool {
        self.conflicts[p] != Set::<int>::empty()
    }

    /// The game at its start.
    pub open spec fn init(
        grid_state: Seq<CellStateView>,
        solution: Seq<u8>,
        settings: Settings,
    ) -> GameView {
        GameView {
            cells: Seq::new(
                81,
                |p: int| CellView::from_cell_state(grid_state[p], settings.start_in_automatic_mode),
            ),
            conflicts: Seq::new(81, |p: int| Set::<int>::empty()),
            solution,
            grid_state,
            settings,
            auto_mode: settings.start_in_automatic_mode,
            selected: 0,
            solved: false,
        }
    }

    /// Cell `p` replaced by `cell`.
    pub open spec fn set_cell(self, p: int, cell: CellView) -> GameView {
        GameView { cells: self.cells.update(p, cell), ..self }
    }

    /// The digit `d` left cell `p`: `p` leaves the conflict set of every peer
    /// that holds `d`, and the conflict set of `p` is emptied.
    pub open spec fn remove_conflict(self, p: int, d: u8) -> GameView {
        GameView {
            conflicts: Seq::new(
                81,
                |q: int|
                    if q == p {
                        Set::<int>::empty()
                    } else if peers(p, q) && self.cells[q].digit == Some(d) {
                        self.conflicts[q].remove(p)
                    } else {
                        self.conflicts[q]
                    },
            ),
            ..self
        }
    }

    /// The conflict cleanup that an edit of cell `p` owes, if it announced
    /// the removal of a digit.
    pub open spec fn removal(self, p: int, removed: Option<u8>) -> GameView {
        match removed {
            Some(d) => self.remove_conflict(p, d),
            None => self,
        }
    }

    /// The digit `d` was placed in `p`: it leaves the candidates of every
    /// peer in a candidate mode, in the slot that the flag selects.
    pub open spec fn kick_candidates(self, p: int, d: u8) -> GameView {
        GameView {
            cells: Seq::new(
                81,
                |q: int|
                    if peers(p, q) {
                        self.cells[q].kick_candidate(d, self.auto_mode)
                    } else {
                        self.cells[q]
                    },
            ),
            ..self
        }
    }

    /// The peers of `p` that hold the digit `d`.
    pub open spec fn peers_holding(self, p: int, d: u8) -> Set<int> {
        Set::new(|q: int| 0 <= q < 81 && peers(p, q) && self.cells[q].digit == Some(d))
    }

    /// The digit of `p` is held against its peers: `p` and every peer with
    /// the same digit enter each other's conflict set.
    pub open spec fn check_conflict(self, p: int) -> GameView {
        match self.cells[p].digit {
            Some(d) => GameView {
                conflicts: Seq::new(
                    81,
                    |q: int|
                        if q == p {
                            self.conflicts[p].union(self.peers_holding(p, d))
                        } else if peers(p, q) && self.cells[q].digit == Some(d) {
                            self.conflicts[q].insert(p)
                        } else {
                            self.conflicts[q]
                        },
                ),
                ..self
            },
            None => self,
        }
    }

    /// The digit of cell `p` is compared with the answer.
    pub open spec fn check_cell(self, p: int) -> GameView {
        self.set_cell(
            p,
            self.cells[p].check(self.solution[p], self.settings.check_guesses_when_entered),
        )
    }

    /// The digit of every cell is compared with the answer; no cell is
    /// confirmed by it.
    pub open spec fn check_puzzle(self) -> GameView {
        GameView {
            cells: Seq::new(81, |p: int| self.cells[p].check(self.solution[p], false)),
            ..self
        }
    }

    /// Every cell holds the digit of the answer.
    pub open spec fn all_correct(self) -> bool {
        forall|p: int| 0 <= p < 81 ==> (#[trigger] self.cells[p]).digit == Some(self.solution[p])
    }

    /// The solved signal is due: the grid is solved and the signal was not
    /// given yet.
    pub open spec fn solved_fires(self) -> bool {
        !self.solved && self.all_correct()
    }

    /// The game after the grid was held against the answer.
    pub open spec fn check_solved(self) -> GameView {
        GameView { solved: self.solved || self.all_correct(), ..self }
    }

    /// The digit `d` enters cell `p`, which is not locked: conflicts of the
    /// digit it overwrites are cleaned up, the candidates in range lose `d`,
    /// the conflicts of `d` are entered, and the digit is checked where the
    /// settings ask for it.
    pub open spec fn place_digit(self, p: int, d: u8) -> GameView {
        let placed = self.removal(p, self.cells[p].commit_removes(d)).set_cell(
            p,
            self.cells[p].commit_digit(d),
        ).kick_candidates(p, d).check_conflict(p);
        if self.settings.check_guesses_when_entered {
            placed.check_cell(p)
        } else {
            placed
        }
    }

    /// The game after the digit `d` is committed to cell `p`. A locked cell
    /// takes no digit.
    pub open spec fn commit_digit(self, p: int, d: u8) -> GameView {
        if self.cells[p].locked() {
            self
        } else {
            self.place_digit(p, d).check_solved()
        }
    }

    /// The game after the candidate `d` is toggled in cell `p`.
    pub open spec fn toggle_candidate(self, p: int, d: u8) -> GameView {
        self.removal(p, self.cells[p].edit_removes()).set_cell(
            p,
            self.cells[p].toggle_candidate(d, self.auto_mode),
        )
    }

    /// The game after cell `p` is cleared.
    pub open spec fn clear(self, p: int) -> GameView {
        self.removal(p, self.cells[p].edit_removes()).set_cell(
            p,
            self.cells[p].clear(self.auto_mode),
        )
    }

    /// The answer enters cell `p`, which is not locked: its digit is placed
    /// as a commit would place it, and the cell counts as revealed.
    pub open spec fn show_answer(self, p: int) -> GameView {
        let placed = self.place_digit(p, self.solution[p]);
        placed.set_cell(p, placed.cells[p].reveal_digit(self.solution[p]))
    }

    /// The game after cell `p` is revealed. A locked cell stays as it is.
    pub open spec fn reveal_cell(self, p: int) -> GameView {
        if self.cells[p].locked() {
            self
        } else {
            self.show_answer(p).check_solved()
        }
    }

    /// The game after the first `n` cells are revealed, one after the other.
    pub open spec fn reveal_cells(self, n: int) -> GameView
        decreases n,
    {
        if n <= 0 {
            self
        } else {
            self.reveal_cells(n - 1).reveal_cell(n - 1)
        }
    }

    /// The game after every cell is revealed.
    pub open spec fn reveal_puzzle(self) -> GameView {
        self.reveal_cells(81)
    }

    /// The game after a reset: as it started, with the settings of now.
    pub open spec fn reset_puzzle(self) -> GameView {
        GameView::init(self.grid_state, self.solution, self.settings)
    }

    /// The number of automatic candidates of cell `p`.
    pub open spec fn auto_count(self, p: int) -> nat {
        self.cells[p].auto_candidates.len()
    }

    /// Cell `p` is the hint among the first `n` cells: of those that are not
    /// fixed it has the fewest automatic candidates, and of those with as
    /// few it comes first.
    pub open spec fn is_hint_below(self, p: int, n: int) -> bool {
        &&& 0 <= p < n
        &&& !self.cells[p].fixed
        &&& forall|q: int|
            0 <= q < n && !(#[trigger] self.cells[q]).fixed ==> self.auto_count(p)
                <= self.auto_count(q)
        &&& forall|q: int|
            0 <= q < p && !(#[trigger] self.cells[q]).fixed ==> self.auto_count(p)
                < self.auto_count(q)
    }

    /// Cell `p` is the hint: the cell with the fewest automatic candidates
    /// among those that are not fixed, the first of them where several have
    /// as few.
    pub open spec fn is_hint(self, p: int) -> bool {
        self.is_hint_below(p, 81)
    }

    /// Some cell among the first `n` is not fixed.
    pub open spec fn has_free_cell_below(self, n: int) -> bool {
        exists|p: int| 0 <= p < n && !(#[trigger] self.cells[p]).fixed
    }

    /// Some cell is not fixed.
    pub open spec fn has_free_cell(self) -> bool {
        self.has_free_cell_below(81)
    }

    /// The hint.
    pub open spec fn hint(self) -> int {
        choose|p: int| self.is_hint(p)
    }

    /// The game after a hint was asked for: the hint is selected. Where every
    /// cell is fixed there is no hint, and the selection stays.
    pub open spec fn find_hint(self) -> GameView {
        if self.has_free_cell() {
            self.select_cell(self.hint())
        } else {
            self
        }
    }

    /// The game with another cell selected.
    pub open spec fn select_cell(self, p: int) -> GameView {
        GameView { selected: p, ..self }
    }

    /// The cell one step from `p`, or `p` at the edge of the grid.
    pub open spec fn step(p: int, direction: MoveSelectCell) -> int {
        match direction {
            MoveSelectCell::Up => if p / 9 > 0 {
                p - 9
            } else {
                p
            },
            MoveSelectCell::Down => if p / 9 < 8 {
                p + 9
            } else {
                p
            },
            MoveSelectCell::Left => if p % 9 > 0 {
                p - 1
            } else {
                p
            },
            MoveSelectCell::Right => if p % 9 < 8 {
                p + 1
            } else {
                p
            },
        }
    }

    /// The game after the selection moved one step.
    pub open spec fn move_select_cell(self, direction: MoveSelectCell) -> GameView {
        self.select_cell(GameView::step(self.selected, direction))
    }

    /// The game after the candidate-mode flag was set: every cell in a
    /// candidate mode shows the slot that the flag selects.
    pub open spec fn set_auto_candidate_mode(self, auto_mode: bool) -> GameView {
        GameView {
            cells: Seq::new(81, |p: int| self.cells[p].switch_candidate_mode(auto_mode)),
            auto_mode,
            ..self
        }
    }

    /// The game with other settings.
    pub open spec fn set_settings(self, settings: Settings) -> GameView {
        GameView { settings, ..self }
    }

    /// The game after an event.
    pub open spec fn handle(self, event: GameEvent) -> GameView {
        match event {
            GameEvent::NewDigit(d) => self.commit_digit(self.selected, d),
            GameEvent::NewCandidate(d) => self.toggle_candidate(self.selected, d),
            GameEvent::CleanCell => self.clear(self.selected),
            GameEvent::RevealCell => self.reveal_cell(self.selected),
            GameEvent::RevealPuzzle => self.reveal_puzzle(),
            GameEvent::CheckCell => self.check_cell(self.selected),
            GameEvent::CheckPuzzle => self.check_puzzle(),
            GameEvent::ResetPuzzle => self.reset_puzzle(),
            GameEvent::FindHint => self.find_hint(),
            GameEvent::MoveSelection(direction) => self.move_select_cell(direction),
            GameEvent::ToggleCandidateModeFlag => self.set_auto_candidate_mode(!self.auto_mode),
        }
    }

    /// Whether an event makes the solved signal go out: the grid is solved
    /// after it, and the signal was not given before.
    pub open spec fn announces_solved(self, event: GameEvent) -> bool {
        !self.solved && self.handle(event).solved
    }

    /// The game after a row of events, taken one after the other.
    pub open spec fn play(self, events: Seq<GameEvent>) -> GameView
        decreases events.len(),
    {
        if events.len() == 0 {
            self
        } else {
            self.play(events.drop_last()).handle(events.last())
        }
    }

    /// The digit whose removal the reveal of cell `p` announces: the one
    /// that the answer overwrites, where that is another digit.
    pub open spec fn removed_by_reveal(self, p: int) -> Option<u8> {
        self.cells[p].commit_removes(self.solution[p])
    }

    /// The digit whose removal an event announces. The puzzle-wide events
    /// announce none.
    pub open spec fn removed_by(self, event: GameEvent) -> Option<u8> {
        match event {
            GameEvent::NewDigit(d) => self.cells[self.selected].commit_removes(d),
            GameEvent::NewCandidate(_) => self.cells[self.selected].edit_removes(),
            GameEvent::CleanCell => self.cells[self.selected].edit_removes(),
            GameEvent::RevealCell => self.removed_by_reveal(self.selected),
            _ => None,
        }
    }
}

} // verus!
