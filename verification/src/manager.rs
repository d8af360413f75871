//! The game as it runs: the cells, their conflicts, and the life cycle of a
//! puzzle.

use crate::candidates::{is_digit, lemma_up_to_finite, lemma_up_to_step, up_to};
use crate::cell_state::{CellState, CellStateView, CellValueBundle, CellView};
use crate::events::{GameEvent, MoveSelectCell, Signals};
use crate::model::{in_conflict, valid_solution, GameView};
use crate::position::{peers, CellPosition};
use crate::preservation::{
    lemma_check_cell_wf, lemma_check_puzzle_wf, lemma_check_solved_wf, lemma_clear_wf,
    lemma_find_hint_wf, lemma_hint_unique, lemma_init_wf, lemma_place_digit,
    lemma_set_auto_candidate_mode_wf, lemma_show_answer_wf, lemma_toggle_candidate_wf,
};
use crate::settings::Settings;
use vstd::prelude::*;

verus! {

/// The views of a row of cell states.
pub open spec fn grid_state_view(grid_state: Seq<CellState>) -> Seq<CellStateView> {
    Seq::new(grid_state.len(), |p: int| grid_state[p]@)
}

/// The views of the cells.
spec fn cells_view(cells: Seq<CellValueBundle>) -> Seq<CellView> {
    Seq::new(cells.len(), |p: int| cells[p]@)
}

/// The entry of the conflict table for the pair `(p, q)`.
spec fn at(table: Seq<bool>, p: int, q: int) -> bool {
    table[p * 81 + q]
}

/// The conflict sets that a table of 81 rows of 81 entries stands for.
spec fn conflicts_view(table: Seq<bool>) -> Seq<Set<int>> {
    Seq::new(81, |p: int| Set::new(|q: int| 0 <= q < 81 && at(table, p, q)))
}

/// The game: 81 cells, the conflicts between them, the answer, and what the
/// puzzle started from.
#[derive(Clone, Debug, PartialEq, Eq)]
pub struct SudokuManager {
    cells: Vec<CellValueBundle>,
    /// Row `p` of this table of 81 rows holds, at place `q`, whether cell
    /// `q` is in the conflict set of cell `p`.
    conflicts: Vec<bool>,
    solution: Vec<u8>,
    grid_state: Vec<CellState>,
    settings: Settings,
    auto_mode: bool,
    selected: u8,
    solved: bool,
}

impl View for SudokuManager {
    type V = GameView;

    closed spec fn view(&self) -> GameView {
        GameView {
            cells: cells_view(self.cells@),
            conflicts: conflicts_view(self.conflicts@),
            solution: self.solution@,
            grid_state: grid_state_view(self.grid_state@),
            settings: self.settings,
            auto_mode: self.auto_mode,
            selected: self.selected as int,
            solved: self.solved,
        }
    }
}

/// The first cells of a game, from what the puzzle started from.
fn initial_cells(grid_state: &Vec<CellState>, auto_mode: bool) -> (cells: Vec<CellValueBundle>)
    requires
        grid_state.len() == 81,
        forall|p: int| 0 <= p < 81 ==> (#[trigger] grid_state[p]).wf(),
    ensures
        cells.len() == 81,
        forall|p: int| 0 <= p < 81 ==> (#[trigger] cells[p]).wf(),
        forall|p: int|
            0 <= p < 81 ==> (#[trigger] cells[p])@ == CellView::from_cell_state(
                grid_state[p]@,
                auto_mode,
            ),
{
    let mut cells: Vec<CellValueBundle> = Vec::new();
    let mut i: usize = 0;
    while i < 81
        invariant
            i <= 81,
            cells.len() == i,
            grid_state.len() == 81,
            forall|p: int| 0 <= p < 81 ==> (#[trigger] grid_state[p]).wf(),
            forall|p: int| 0 <= p < i ==> (#[trigger] cells[p]).wf(),
            forall|p: int|
                0 <= p < i ==> (#[trigger] cells[p])@ == CellView::from_cell_state(
                    grid_state[p]@,
                    auto_mode,
                ),
        decreases 81 - i,
    {
        cells.push(CellValueBundle::from_cell_state(grid_state[i], auto_mode));
        i = i + 1;
    }
    cells
}

/// A conflict table without any conflict.
fn no_conflicts() -> (table: Vec<bool>)
    ensures
        table.len() == 81 * 81,
        forall|i: int| 0 <= i < 81 * 81 ==> !(#[trigger] table[i]),
{
    let mut table: Vec<bool> = Vec::new();
    let mut i: usize = 0;
    while i < 81 * 81
        invariant
            i <= 81 * 81,
            table.len() == i,
            forall|k: int| 0 <= k < i ==> !(#[trigger] table[k]),
        decreases 81 * 81 - i,
    {
        table.push(false);
        i = i + 1;
    }
    table
}

impl SudokuManager {
    /// What holds of the stored data whatever the conflicts are.
    spec fn repr(&self) -> bool {
        &&& self.cells.len() == 81
        &&& self.conflicts.len() == 81 * 81
        &&& self.solution.len() == 81
        &&& self.grid_state.len() == 81
        &&& self.selected < 81
        &&& forall|p: int| 0 <= p < 81 ==> (#[trigger] self.cells[p]).wf()
        &&& forall|p: int| 0 <= p < 81 ==> (#[trigger] self.grid_state[p]).wf()
    }

    /// The invariant of the game.
    pub closed spec fn wf(&self) -> bool {
        self.repr() && self@.wf()
    }

    /// A well-formed game has a well-formed view.
    pub proof fn lemma_wf(&self)
        requires
            self.wf(),
        ensures
            self@.wf(),
    {
    }

    /// A game at its start: the cells as the grid state gives them, no
    /// conflict, the first cell selected.
    pub fn from_grid_state(grid_state: Vec<CellState>, solution: Vec<u8>, settings: Settings) -> (game:
        SudokuManager)
        requires
            grid_state.len() == 81,
            forall|p: int| 0 <= p < 81 ==> (#[trigger] grid_state[p]).wf(),
            valid_solution(solution@),
        ensures
            game.wf(),
            game@ == GameView::init(grid_state_view(grid_state@), solution@, settings),
    {
        let auto_mode = settings.start_in_automatic_mode;
        let cells = initial_cells(&grid_state, auto_mode);
        let conflicts = no_conflicts();
        let game = SudokuManager {
            cells,
            conflicts,
            solution,
            grid_state,
            settings,
            auto_mode,
            selected: 0,
            solved: false,
        };
        proof {
            let init = GameView::init(grid_state_view(grid_state@), solution@, settings);
            assert forall|p: int| 0 <= p < 81 implies (#[trigger] grid_state_view(grid_state@)[p]).wf() by {
                grid_state[p].lemma_wf();
            }
            lemma_init_wf(grid_state_view(grid_state@), solution@, settings);
            assert(game@.cells =~= init.cells);
            assert(game@.conflicts =~= init.conflicts) by {
                assert forall|p: int| 0 <= p < 81 implies #[trigger] game@.conflicts[p]
                    =~= Set::<int>::empty() by {
                    assert forall|q: int| !(0 <= q < 81 && at(game.conflicts@, p, q)) by {
                        if 0 <= q < 81 {
                            assert(!game.conflicts@[p * 81 + q]);
                        }
                    }
                }
            }
        }
        game
    }

    /// The selected cell.
    pub fn selected(&self) -> (position: CellPosition)
        requires
            self.wf(),
        ensures
            position.index() == self@.selected,
            position.valid(),
    {
        CellPosition(self.selected)
    }

    /// The cell at `position`.
    pub fn cell(&self, position: CellPosition) -> (cell: CellValueBundle)
        requires
            self.wf(),
            position.valid(),
        ensures
            cell@ == self@.cells[position.index()],
            cell.wf(),
    {
        self.cells[position.0 as usize]
    }

    /// The digit of the answer at `position`.
    pub fn answer(&self, position: CellPosition) -> (digit: u8)
        requires
            self.wf(),
            position.valid(),
        ensures
            digit == self@.solution[position.index()],
            is_digit(digit as int),
    {
        self.solution[position.0 as usize]
    }

    /// The settings in force.
    pub fn settings(&self) -> (settings: Settings)
        ensures
            settings == self@.settings,
    {
        self.settings
    }

    /// The candidate-mode flag.
    pub fn auto_candidate_mode(&self) -> (auto_mode: bool)
        ensures
            auto_mode == self@.auto_mode,
    {
        self.auto_mode
    }

    /// Whether the solved signal was given.
    pub fn is_solved(&self) -> (solved: bool)
        ensures
            solved == self@.solved,
    {
        self.solved
    }

    /// Whether cell `other` is in the conflict set of the cell at
    /// `position`.
    pub fn in_conflict_with(&self, position: CellPosition, other: CellPosition) -> (r: bool)
        requires
            self.wf(),
            position.valid(),
            other.valid(),
        ensures
            r == self@.conflicts[position.index()].contains(other.index()),
    {
        self.conflicts[position.0 as usize * 81 + other.0 as usize]
    }

    /// Whether the cell at `position` is in conflict with any cell.
    pub fn has_conflict(&self, position: CellPosition) -> (r: bool)
        requires
            self.wf(),
            position.valid(),
        ensures
            r == self@.has_conflict(position.index()),
    {
        let p: usize = position.0 as usize;
        let mut found = false;
        let mut q: usize = 0;
        while q < 81
            invariant
                q <= 81,
                p < 81,
                self.conflicts.len() == 81 * 81,
                found <==> exists|b: int| 0 <= b < q && at(self.conflicts@, p as int, b),
            decreases 81 - q,
        {
            if self.conflicts[p * 81 + q] {
                assert(at(self.conflicts@, p as int, q as int));
                found = true;
            }
            q = q + 1;
        }
        proof {
            let set = self@.conflicts[p as int];
            if found {
                let b = choose|b: int| 0 <= b < 81 && at(self.conflicts@, p as int, b);
                assert(set.contains(b));
            } else {
                assert(set =~= Set::<int>::empty());
            }
        }
        found
    }

    /// The number of cells that the cell at `position` is in conflict with.
    pub fn conflict_count(&self, position: CellPosition) -> (count: u8)
        requires
            self.wf(),
            position.valid(),
        ensures
            count == self@.conflicts[position.index()].len(),
            self@.conflicts[position.index()].finite(),
    {
        let p: usize = position.0 as usize;
        let ghost set = self@.conflicts[p as int];
        let mut count: u8 = 0;
        let mut q: usize = 0;
        proof {
            lemma_up_to_finite(set, 0, -1);
        }
        while q < 81
            invariant
                q <= 81,
                p < 81,
                self.conflicts.len() == 81 * 81,
                set == self@.conflicts[p as int],
                count <= q,
                up_to(set, q - 1).finite(),
                count == up_to(set, q - 1).len(),
            decreases 81 - q,
        {
            proof {
                lemma_up_to_step(set, q as int);
                assert(set.contains(q as int) == at(self.conflicts@, p as int, q as int));
            }
            if self.conflicts[p * 81 + q] {
                count = count + 1;
            }
            q = q + 1;
        }
        proof {
            assert(up_to(set, 80) =~= set);
        }
        count
    }

    /// Everything but the cells is as in `before`.
    spec fn same_but_cells(&self, before: &SudokuManager) -> bool {
        &&& self.conflicts == before.conflicts
        &&& self.solution == before.solution
        &&& self.grid_state == before.grid_state
        &&& self.settings == before.settings
        &&& self.auto_mode == before.auto_mode
        &&& self.selected == before.selected
        &&& self.solved == before.solved
    }

    /// Everything but the conflict table is as in `before`.
    spec fn same_but_conflicts(&self, before: &SudokuManager) -> bool {
        &&& self.cells == before.cells
        &&& self.solution == before.solution
        &&& self.grid_state == before.grid_state
        &&& self.settings == before.settings
        &&& self.auto_mode == before.auto_mode
        &&& self.selected == before.selected
        &&& self.solved == before.solved
    }

    /// Replaces the cell at `p`.
    fn set_cell(&mut self, p: u8, cell: CellValueBundle)
        requires
            old(self).repr(),
            p < 81,
            cell.wf(),
        ensures
            final(self).repr(),
            final(self)@ == old(self)@.set_cell(p as int, cell@),
    {
        self.cells.set(p as usize, cell);
        proof {
            assert(self@.cells =~= old(self)@.cells.update(p as int, cell@));
        }
    }

    /// Cleans up after the digit `digit` left the cell at `p`.
    fn remove_conflict(&mut self, p: u8, digit: u8)
        requires
            old(self).repr(),
            p < 81,
        ensures
            final(self).repr(),
            final(self)@ == old(self)@.remove_conflict(p as int, digit),
    {
        let ghost before = *self;
        let mut q: u8 = 0;
        while q < 81
            invariant
                q <= 81,
                p < 81,
                before.repr(),
                self.conflicts.len() == 81 * 81,
                self.same_but_conflicts(&before),
                forall|a: int, b: int|
                    0 <= a < 81 && 0 <= b < 81 ==> #[trigger] at(self.conflicts@, a, b) == (if a == p {
                        b >= q && at(before.conflicts@, a, b)
                    } else if b == p && a < q && peers(p as int, a) && before.cells[a]@.digit == Some(
                        digit,
                    ) {
                        false
                    } else {
                        at(before.conflicts@, a, b)
                    }),
            decreases 81 - q,
        {
            let ghost table = self.conflicts@;
            self.conflicts.set(p as usize * 81 + q as usize, false);
            if CellPosition(p).is_peer(&CellPosition(q)) && self.cells[q as usize].holds_digit(digit) {
                self.conflicts.set(q as usize * 81 + p as usize, false);
            }
            proof {
                assert forall|a: int, b: int| 0 <= a < 81 && 0 <= b < 81 implies #[trigger] at(
                    self.conflicts@,
                    a,
                    b,
                ) == (if a == p {
                    b >= q + 1 && at(before.conflicts@, a, b)
                } else if b == p && a < q + 1 && peers(p as int, a) && before.cells[a]@.digit == Some(
                    digit,
                ) {
                    false
                } else {
                    at(before.conflicts@, a, b)
                }) by {
                    assert(at(table, a, b) == table[a * 81 + b]);
                    assert((a * 81 + b == p * 81 + q) <==> (a == p && b == q));
                    assert((a * 81 + b == q * 81 + p) <==> (a == q && b == p));
                }
            }
            q = q + 1;
        }
        proof {
            let expected = before@.remove_conflict(p as int, digit);
            assert forall|a: int| 0 <= a < 81 implies #[trigger] self@.conflicts[a]
                =~= expected.conflicts[a] by {
                assert forall|b: int| self@.conflicts[a].contains(b) == expected.conflicts[a].contains(
                    b,
                ) by {
                    if 0 <= b < 81 {
                    }
                }
            }
            assert(self@.conflicts =~= expected.conflicts);
        }
    }

    /// Takes `digit` out of the candidates of every cell in range of `p`.
    fn kick_candidates(&mut self, p: u8, digit: u8)
        requires
            old(self).repr(),
            p < 81,
            is_digit(digit as int),
        ensures
            final(self).repr(),
            final(self)@ == old(self)@.kick_candidates(p as int, digit),
    {
        let ghost before = *self;
        let mut q: u8 = 0;
        while q < 81
            invariant
                q <= 81,
                p < 81,
                is_digit(digit as int),
                before.repr(),
                self.cells.len() == 81,
                self.same_but_cells(&before),
                forall|a: int| 0 <= a < 81 ==> (#[trigger] self.cells[a]).wf(),
                forall|a: int|
                    0 <= a < 81 ==> (#[trigger] self.cells[a])@ == (if a < q && peers(p as int, a) {
                        before.cells[a]@.kick_candidate(digit, before.auto_mode)
                    } else {
                        before.cells[a]@
                    }),
            decreases 81 - q,
        {
            if CellPosition(p).is_peer(&CellPosition(q)) {
                let mut cell = self.cells[q as usize];
                cell.kick_candidate(digit, self.auto_mode);
                self.cells.set(q as usize, cell);
            }
            q = q + 1;
        }
        proof {
            assert(self@.cells =~= before@.kick_candidates(p as int, digit).cells);
        }
    }

    /// Enters the conflicts of the digit that the cell at `p` holds.
    fn check_conflict(&mut self, p: u8)
        requires
            old(self).repr(),
            p < 81,
        ensures
            final(self).repr(),
            final(self)@ == old(self)@.check_conflict(p as int),
    {
        let ghost before = *self;
        let check_digit = match self.cells[p as usize].digit() {
            Some(digit) => digit,
            None => {
                return ;
            },
        };
        let mut q: u8 = 0;
        while q < 81
            invariant
                q <= 81,
                p < 81,
                before.repr(),
                before.cells[p as int]@.digit == Some(check_digit),
                self.conflicts.len() == 81 * 81,
                self.same_but_conflicts(&before),
                forall|a: int, b: int|
                    0 <= a < 81 && 0 <= b < 81 ==> #[trigger] at(self.conflicts@, a, b) == (at(
                        before.conflicts@,
                        a,
                        b,
                    ) || (a == p && b < q && peers(p as int, b) && before.cells[b]@.digit == Some(
                        check_digit,
                    )) || (b == p && a < q && peers(p as int, a) && before.cells[a]@.digit == Some(
                        check_digit,
                    ))),
            decreases 81 - q,
        {
            let ghost table = self.conflicts@;
            if CellPosition(p).is_peer(&CellPosition(q)) && self.cells[q as usize].holds_digit(
                check_digit,
            ) {
                self.conflicts.set(q as usize * 81 + p as usize, true);
                self.conflicts.set(p as usize * 81 + q as usize, true);
            }
            proof {
                assert forall|a: int, b: int| 0 <= a < 81 && 0 <= b < 81 implies #[trigger] at(
                    self.conflicts@,
                    a,
                    b,
                ) == (at(before.conflicts@, a, b) || (a == p && b < q + 1 && peers(p as int, b)
                    && before.cells[b]@.digit == Some(check_digit)) || (b == p && a < q + 1 && peers(
                    p as int,
                    a,
                ) && before.cells[a]@.digit == Some(check_digit))) by {
                    assert(at(table, a, b) == table[a * 81 + b]);
                    assert((a * 81 + b == p * 81 + q) <==> (a == p && b == q));
                    assert((a * 81 + b == q * 81 + p) <==> (a == q && b == p));
                }
            }
            q = q + 1;
        }
        proof {
            let expected = before@.check_conflict(p as int);
            assert forall|a: int| 0 <= a < 81 implies #[trigger] self@.conflicts[a]
                =~= expected.conflicts[a] by {
                assert forall|b: int| self@.conflicts[a].contains(b) == expected.conflicts[a].contains(
                    b,
                ) by {
                    if 0 <= b < 81 {
                        assert(before@.cells[b] == before.cells[b]@);
                        assert(before@.cells[a] == before.cells[a]@);
                    }
                }
            }
            assert(self@.conflicts =~= expected.conflicts);
        }
    }

    /// Compares the digit of the cell at `p` with the answer.
    fn check_at(&mut self, p: u8)
        requires
            old(self).repr(),
            p < 81,
        ensures
            final(self).repr(),
            final(self)@ == old(self)@.check_cell(p as int),
    {
        let mut cell = self.cells[p as usize];
        cell.check(self.solution[p as usize], self.settings.check_guesses_when_entered);
        self.set_cell(p, cell);
    }

    /// Places `digit` in the cell at `p`, which is not locked, and runs what
    /// follows a placement but the solved check. Returns the digit that was
    /// overwritten, where it was another one.
    fn place_digit(&mut self, p: u8, digit: u8) -> (removed: Option<u8>)
        requires
            old(self).wf(),
            p < 81,
            is_digit(digit as int),
            !old(self)@.cells[p as int].locked(),
        ensures
            final(self).wf(),
            final(self)@ == old(self)@.place_digit(p as int, digit),
            removed == old(self)@.cells[p as int].commit_removes(digit),
    {
        let mut cell = self.cells[p as usize];
        let removed = cell.commit_digit(digit);
        match removed {
            Some(old_digit) => {
                self.remove_conflict(p, old_digit);
            },
            None => {},
        }
        self.set_cell(p, cell);
        self.kick_candidates(p, digit);
        self.check_conflict(p);
        if self.settings.check_guesses_when_entered {
            self.check_at(p);
        }
        proof {
            lemma_place_digit(old(self)@, p as int, digit);
        }
        removed
    }

    /// Holds the grid against the answer: counts the cells whose committed
    /// digit is that of the answer, and gives the solved signal when all 81
    /// are, once. Returns whether the signal is given now.
    pub fn check_solved(&mut self) -> (fired: bool)
        requires
            old(self).wf(),
        ensures
            final(self).wf(),
            final(self)@ == old(self)@.check_solved(),
            fired == old(self)@.solved_fires(),
    {
        let mut solved_count: u8 = 0;
        let mut p: u8 = 0;
        while p < 81
            invariant
                p <= 81,
                self.cells.len() == 81,
                self.solution.len() == 81,
                solved_count <= p,
                solved_count == p <==> forall|a: int|
                    0 <= a < p ==> (#[trigger] self.cells[a])@.digit == Some(self.solution[a]),
            decreases 81 - p,
        {
            if self.cells[p as usize].holds_digit(self.solution[p as usize]) {
                solved_count = solved_count + 1;
            }
            p = p + 1;
        }
        proof {
            assert(self@.all_correct() <==> solved_count == 81) by {
                if solved_count == 81 {
                    assert forall|a: int| 0 <= a < 81 implies (#[trigger] self@.cells[a]).digit == Some(
                        self@.solution[a],
                    ) by {
                        assert(self.cells[a]@.digit == Some(self.solution[a]));
                    }
                }
                if self@.all_correct() {
                    assert forall|a: int| 0 <= a < 81 implies (#[trigger] self.cells[a])@.digit == Some(
                        self.solution[a],
                    ) by {
                        assert(self@.cells[a].digit == Some(self@.solution[a]));
                    }
                }
            }
            lemma_check_solved_wf(self@);
        }
        let fired = solved_count == 81 && !self.solved;
        if solved_count == 81 {
            self.solved = true;
        }
        fired
    }

    /// Commits `digit` to the cell at `position`, then runs the pipeline of
    /// a placement: conflicts of the overwritten digit are cleaned up, the
    /// candidates in range lose the digit, its conflicts are entered, the
    /// digit is checked where the settings ask for it, and the grid is held
    /// against the answer. A locked cell takes no digit.
    pub fn commit_digit(&mut self, position: CellPosition, digit: u8) -> (signals: Signals)
        requires
            old(self).wf(),
            position.valid(),
            is_digit(digit as int),
        ensures
            final(self).wf(),
            final(self)@ == old(self)@.commit_digit(position.index(), digit),
            signals == (Signals {
                remove_digit: old(self)@.cells[position.index()].commit_removes(digit),
                sudoku_solved: !old(self)@.solved && final(self)@.solved,
                reset_timer: false,
            }),
    {
        if self.cells[position.0 as usize].is_locked() {
            return Signals::none();
        }
        let removed = self.place_digit(position.0, digit);
        let fired = self.check_solved();
        Signals { remove_digit: removed, sudoku_solved: fired, reset_timer: false }
    }

    /// Toggles the candidate `digit` in the cell at `position`. A committed
    /// digit leaves the cell first, and its conflicts are cleaned up. A
    /// locked cell stays as it is.
    pub fn toggle_candidate(&mut self, position: CellPosition, digit: u8) -> (signals: Signals)
        requires
            old(self).wf(),
            position.valid(),
            is_digit(digit as int),
        ensures
            final(self).wf(),
            final(self)@ == old(self)@.toggle_candidate(position.index(), digit),
            signals == (Signals {
                remove_digit: old(self)@.cells[position.index()].edit_removes(),
                sudoku_solved: false,
                reset_timer: false,
            }),
    {
        let p = position.0;
        let mut cell = self.cells[p as usize];
        let removed = cell.toggle_candidate(digit, self.auto_mode);
        match removed {
            Some(old_digit) => {
                self.remove_conflict(p, old_digit);
            },
            None => {},
        }
        self.set_cell(p, cell);
        proof {
            lemma_toggle_candidate_wf(old(self)@, p as int, digit);
        }
        Signals { remove_digit: removed, sudoku_solved: false, reset_timer: false }
    }

    /// Clears the cell at `position`. A committed digit leaves the cell, its
    /// conflicts are cleaned up, and the candidates behind it show again. A
    /// locked cell stays as it is.
    pub fn clear(&mut self, position: CellPosition) -> (signals: Signals)
        requires
            old(self).wf(),
            position.valid(),
        ensures
            final(self).wf(),
            final(self)@ == old(self)@.clear(position.index()),
            signals == (Signals {
                remove_digit: old(self)@.cells[position.index()].edit_removes(),
                sudoku_solved: false,
                reset_timer: false,
            }),
    {
        let p = position.0;
        let mut cell = self.cells[p as usize];
        let removed = cell.clear(self.auto_mode);
        match removed {
            Some(old_digit) => {
                self.remove_conflict(p, old_digit);
            },
            None => {},
        }
        self.set_cell(p, cell);
        proof {
            lemma_clear_wf(old(self)@, p as int);
        }
        Signals { remove_digit: removed, sudoku_solved: false, reset_timer: false }
    }

    /// Reveals the cell at `position`: the digit of the answer is placed as
    /// a commit would place it, and the cell counts as revealed. A locked
    /// cell stays as it is.
    pub fn reveal_cell(&mut self, position: CellPosition) -> (signals: Signals)
        requires
            old(self).wf(),
            position.valid(),
        ensures
            final(self).wf(),
            final(self)@ == old(self)@.reveal_cell(position.index()),
            signals == (Signals {
                remove_digit: old(self)@.removed_by_reveal(position.index()),
                sudoku_solved: !old(self)@.solved && final(self)@.solved,
                reset_timer: false,
            }),
    {
        let p = position.0;
        if self.cells[p as usize].is_locked() {
            return Signals::none();
        }
        let answer = self.solution[p as usize];
        let removed = self.place_digit(p, answer);
        let mut cell = self.cells[p as usize];
        cell.reveal_digit(answer);
        self.set_cell(p, cell);
        proof {
            lemma_show_answer_wf(old(self)@, p as int);
        }
        let fired = self.check_solved();
        Signals { remove_digit: removed, sudoku_solved: fired, reset_timer: false }
    }

    /// Reveals every cell that is not locked, one after the other.
    pub fn reveal_puzzle(&mut self) -> (signals: Signals)
        requires
            old(self).wf(),
        ensures
            final(self).wf(),
            final(self)@ == old(self)@.reveal_puzzle(),
            signals == (Signals {
                remove_digit: None,
                sudoku_solved: !old(self)@.solved && final(self)@.solved,
                reset_timer: false,
            }),
    {
        let was_solved = self.solved;
        let mut p: u8 = 0;
        while p < 81
            invariant
                p <= 81,
                self.wf(),
                self@ == old(self)@.reveal_cells(p as int),
            decreases 81 - p,
        {
            self.reveal_cell(CellPosition(p));
            p = p + 1;
        }
        Signals { remove_digit: None, sudoku_solved: !was_solved && self.solved, reset_timer: false }
    }

    /// Compares the digit of the cell at `position` with the answer: a wrong
    /// digit gets the correction mark, a right one loses it and, where the
    /// settings check guesses when entered, counts as revealed. A fixed cell
    /// and a cell without a digit stay as they are.
    pub fn check_cell(&mut self, position: CellPosition)
        requires
            old(self).wf(),
            position.valid(),
        ensures
            final(self).wf(),
            final(self)@ == old(self)@.check_cell(position.index()),
    {
        self.check_at(position.0);
        proof {
            lemma_check_cell_wf(old(self)@, position.index());
        }
    }

    /// Compares the digit of every cell with the answer and sets or takes
    /// away the correction marks. No cell is confirmed by it.
    pub fn check_puzzle(&mut self)
        requires
            old(self).wf(),
        ensures
            final(self).wf(),
            final(self)@ == old(self)@.check_puzzle(),
    {
        let ghost before = *self;
        let mut p: u8 = 0;
        while p < 81
            invariant
                p <= 81,
                before.repr(),
                self.cells.len() == 81,
                self.same_but_cells(&before),
                forall|a: int| 0 <= a < 81 ==> (#[trigger] self.cells[a]).wf(),
                forall|a: int|
                    0 <= a < 81 ==> (#[trigger] self.cells[a])@ == (if a < p {
                        before.cells[a]@.check(before.solution[a], false)
                    } else {
                        before.cells[a]@
                    }),
            decreases 81 - p,
        {
            let mut cell = self.cells[p as usize];
            cell.check(self.solution[p as usize], false);
            self.cells.set(p as usize, cell);
            p = p + 1;
        }
        proof {
            assert(self@.cells =~= before@.check_puzzle().cells);
            lemma_check_puzzle_wf(before@);
        }
    }

    /// Resets the puzzle: the game is as it started, with the settings of
    /// now, and the clock is to start anew.
    pub fn reset_puzzle(&mut self) -> (signals: Signals)
        requires
            old(self).wf(),
        ensures
            final(self).wf(),
            final(self)@ == old(self)@.reset_puzzle(),
            signals == (Signals { remove_digit: None, sudoku_solved: false, reset_timer: true }),
    {
        let auto_mode = self.settings.start_in_automatic_mode;
        self.cells = initial_cells(&self.grid_state, auto_mode);
        self.conflicts = no_conflicts();
        self.auto_mode = auto_mode;
        self.selected = 0;
        self.solved = false;
        proof {
            let init = old(self)@.reset_puzzle();
            lemma_init_wf(old(self)@.grid_state, old(self)@.solution, old(self)@.settings);
            assert(self@.cells =~= init.cells);
            assert(self@.conflicts =~= init.conflicts) by {
                assert forall|p: int| 0 <= p < 81 implies #[trigger] self@.conflicts[p]
                    =~= Set::<int>::empty() by {
                    assert forall|q: int| !(0 <= q < 81 && at(self.conflicts@, p, q)) by {
                        if 0 <= q < 81 {
                            assert(!self.conflicts@[p * 81 + q]);
                        }
                    }
                }
            }
        }
        Signals { remove_digit: None, sudoku_solved: false, reset_timer: true }
    }

    /// Selects the hint: the cell with the fewest automatic candidates among
    /// those that are not fixed, the first of them where several have as
    /// few. The cell selected before is no longer selected. Returns the
    /// hint, or nothing where every cell is fixed.
    pub fn find_hint(&mut self) -> (hint: Option<CellPosition>)
        requires
            old(self).wf(),
        ensures
            final(self).wf(),
            final(self)@ == old(self)@.find_hint(),
            hint.is_some() == old(self)@.has_free_cell(),
            hint matches Some(position) ==> old(self)@.is_hint(position.index())
                && final(self)@.selected == position.index(),
    {
        let mut best: Option<u8> = None;
        let mut fewest: u8 = 0;
        let mut p: u8 = 0;
        while p < 81
            invariant
                p <= 81,
                self.wf(),
                best.is_some() == self@.has_free_cell_below(p as int),
                best matches Some(b) ==> self@.is_hint_below(b as int, p as int) && fewest
                    == self@.auto_count(b as int),
            decreases 81 - p,
        {
            let cell = self.cells[p as usize];
            let count = cell.auto_candidates().len();
            let ghost n = p as int;
            assert(self@.cells[n] == self.cells[n]@);
            if !cell.is_fixed() {
                match best {
                    Some(b) => {
                        if count < fewest {
                            best = Some(p);
                            fewest = count;
                            assert(self@.is_hint_below(n, n + 1));
                        } else {
                            assert(self@.is_hint_below(b as int, n + 1));
                        }
                    },
                    None => {
                        best = Some(p);
                        fewest = count;
                        assert(self@.is_hint_below(n, n + 1));
                    },
                }
                assert(self@.has_free_cell_below(n + 1));
            } else {
                if best.is_some() {
                    assert(self@.is_hint_below(best.unwrap() as int, n + 1));
                    let ghost w = choose|w: int| 0 <= w < n && !(#[trigger] self@.cells[w]).fixed;
                    assert(0 <= w < n + 1 && !self@.cells[w].fixed);
                } else {
                    assert(!self@.has_free_cell_below(n + 1)) by {
                        if self@.has_free_cell_below(n + 1) {
                            let w = choose|w: int| 0 <= w < n + 1 && !(#[trigger] self@.cells[w]).fixed;
                            assert(0 <= w < n && !self@.cells[w].fixed);
                        }
                    }
                }
            }
            p = p + 1;
        }
        proof {
            lemma_find_hint_wf(self@);
        }
        match best {
            Some(b) => {
                proof {
                    lemma_hint_unique(self@, b as int, self@.hint());
                }
                self.selected = b;
                Some(CellPosition(b))
            },
            None => None,
        }
    }

    /// Selects the cell at `position`; the cell selected before is no
    /// longer selected.
    pub fn select_cell(&mut self, position: CellPosition)
        requires
            old(self).wf(),
            position.valid(),
        ensures
            final(self).wf(),
            final(self)@ == old(self)@.select_cell(position.index()),
    {
        self.selected = position.0;
    }

    /// Moves the selection one step; at the edge of the grid it stays.
    pub fn move_select_cell(&mut self, direction: MoveSelectCell)
        requires
            old(self).wf(),
        ensures
            final(self).wf(),
            final(self)@ == old(self)@.move_select_cell(direction),
    {
        let position = CellPosition(self.selected);
        let row = position.row();
        let col = position.col();
        let target = match direction {
            MoveSelectCell::Up => if row > 0 {
                CellPosition::from_row_col(row - 1, col)
            } else {
                position
            },
            MoveSelectCell::Down => if row < 8 {
                CellPosition::from_row_col(row + 1, col)
            } else {
                position
            },
            MoveSelectCell::Left => if col > 0 {
                CellPosition::from_row_col(row, col - 1)
            } else {
                position
            },
            MoveSelectCell::Right => if col < 8 {
                CellPosition::from_row_col(row, col + 1)
            } else {
                position
            },
        };
        self.selected = target.0;
    }

    /// Sets the candidate-mode flag; every cell in a candidate mode then
    /// shows the slot that the flag selects.
    pub fn set_auto_candidate_mode(&mut self, auto_mode: bool)
        requires
            old(self).wf(),
        ensures
            final(self).wf(),
            final(self)@ == old(self)@.set_auto_candidate_mode(auto_mode),
    {
        let ghost before = *self;
        self.auto_mode = auto_mode;
        let mut p: u8 = 0;
        while p < 81
            invariant
                p <= 81,
                before.repr(),
                self.cells.len() == 81,
                self.auto_mode == auto_mode,
                self.conflicts == before.conflicts,
                self.solution == before.solution,
                self.grid_state == before.grid_state,
                self.settings == before.settings,
                self.selected == before.selected,
                self.solved == before.solved,
                forall|a: int| 0 <= a < 81 ==> (#[trigger] self.cells[a]).wf(),
                forall|a: int|
                    0 <= a < 81 ==> (#[trigger] self.cells[a])@ == (if a < p {
                        before.cells[a]@.switch_candidate_mode(auto_mode)
                    } else {
                        before.cells[a]@
                    }),
            decreases 81 - p,
        {
            let mut cell = self.cells[p as usize];
            cell.switch_candidate_mode(auto_mode);
            self.cells.set(p as usize, cell);
            p = p + 1;
        }
        proof {
            assert(self@.cells =~= before@.set_auto_candidate_mode(auto_mode).cells);
            lemma_set_auto_candidate_mode_wf(before@, auto_mode);
        }
    }

    /// Replaces the settings. They are read from the next input on.
    pub fn set_settings(&mut self, settings: Settings)
        requires
            old(self).wf(),
        ensures
            final(self).wf(),
            final(self)@ == old(self)@.set_settings(settings),
    {
        self.settings = settings;
        proof {
            let s = old(self)@;
            let t = self@;
            assert forall|a: int, b: int| 0 <= a < 81 implies (#[trigger] t.conflicts[a].contains(b)
                <==> 0 <= b < 81 && in_conflict(t.cells, a, b)) by {
                assert(s.conflicts[a].contains(b) <==> 0 <= b < 81 && in_conflict(
                    s.cells,
                    a,
                    b,
                ));
            }
        }
    }

    /// Takes one event through the engine. Every event but the puzzle-wide
    /// ones targets the selected cell.
    pub fn handle(&mut self, event: GameEvent) -> (signals: Signals)
        requires
            old(self).wf(),
            event.wf(),
        ensures
            final(self).wf(),
            final(self)@ == old(self)@.handle(event),
            signals == (Signals {
                remove_digit: old(self)@.removed_by(event),
                sudoku_solved: !old(self)@.solved && final(self)@.solved,
                reset_timer: event == GameEvent::ResetPuzzle,
            }),
    {
        let position = CellPosition(self.selected);
        match event {
            GameEvent::NewDigit(digit) => self.commit_digit(position, digit),
            GameEvent::NewCandidate(digit) => self.toggle_candidate(position, digit),
            GameEvent::CleanCell => self.clear(position),
            GameEvent::RevealCell => self.reveal_cell(position),
            GameEvent::RevealPuzzle => self.reveal_puzzle(),
            GameEvent::CheckCell => {
                self.check_cell(position);
                Signals::none()
            },
            GameEvent::CheckPuzzle => {
                self.check_puzzle();
                Signals::none()
            },
            GameEvent::ResetPuzzle => self.reset_puzzle(),
            GameEvent::FindHint => {
                self.find_hint();
                Signals::none()
            },
            GameEvent::MoveSelection(direction) => {
                self.move_select_cell(direction);
                Signals::none()
            },
            GameEvent::ToggleCandidateModeFlag => {
                let auto_mode = !self.auto_mode;
                self.set_auto_candidate_mode(auto_mode);
                Signals::none()
            },
        }
    }
}

} // verus!
