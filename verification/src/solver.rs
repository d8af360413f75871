//! What the engine takes from the `sudoku` crate: a random puzzle, the
//! solution of a puzzle, the state of its grid, and whether a grid is
//! solved.
//!
//! The four calls stand behind contracts that are believed, not proved. The
//! first three say little: everything that the engine relies on is tested on
//! what came back, by verified code.

use crate::candidates::{is_digit, mask_has, CandidateSet, ALL_DIGITS};
use crate::cell_state::{CellState, CellStateView};
use crate::manager::{grid_state_view, SudokuManager};
use crate::model::{valid_solution, GameView};
use crate::position::{block_of, col_of, row_of, CellPosition};
use crate::settings::Settings;
use vstd::prelude::*;

verus! {

/// What the solver reports of one cell: its digit, or the mask of the digits
/// still possible there, in which digit `d` has the bit `d - 1`.
#[derive(Clone, Copy, Debug, PartialEq, Eq, Hash)]
pub enum SolverCell {
    Digit(u8),
    Candidates(u16),
}

/// The solution that `sudoku::Sudoku::solution` returns for the puzzle with
/// these 81 cells, where it returns one.
pub uninterp spec fn unique_solution_of(puzzle: Seq<u8>) -> Option<Seq<u8>>;

/// The grid state that `sudoku::strategy::StrategySolver::grid_state` returns
/// for a solver made from the puzzle with these 81 cells.
pub uninterp spec fn solver_grid_state_of(puzzle: Seq<u8>) -> Seq<SolverCell>;

/// A puzzle is 81 cells, each empty (0) or a clue from 1 to 9.
pub open spec fn valid_puzzle(puzzle: Seq<u8>) -> bool {
    &&& puzzle.len() == 81
    &&& forall|p: int| 0 <= p < 81 ==> #[trigger] puzzle[p] <= 9
}

/// The solution holds every clue of the puzzle.
pub open spec fn extends(solution: Seq<u8>, puzzle: Seq<u8>) -> bool {
    forall|p: int| 0 <= p < 81 && #[trigger] puzzle[p] != 0 ==> solution[p] == puzzle[p]
}

/// Row, column and block number `house` each hold the digit `d` somewhere.
pub open spec fn houses_hold(grid: Seq<u8>, house: int, d: int) -> bool {
    &&& exists|p: int| 0 <= p < 81 && row_of(p) == house && #[trigger] grid[p] == d
    &&& exists|p: int| 0 <= p < 81 && col_of(p) == house && #[trigger] grid[p] == d
    &&& exists|p: int| 0 <= p < 81 && block_of(p) == house && #[trigger] grid[p] == d
}

/// A grid is solved when each of its 81 cells holds a digit, and every row,
/// every column and every block holds each of the nine digits.
pub open spec fn solved_grid(grid: Seq<u8>) -> bool {
    &&& grid.len() == 81
    &&& forall|p: int| 0 <= p < 81 ==> is_digit(#[trigger] grid[p] as int)
    &&& forall|house: int, d: int|
        0 <= house < 9 && is_digit(d) ==> #[trigger] houses_hold(grid, house, d)
}

/// The committed digits of a game, cell by cell, with 0 where a cell holds
/// none.
pub open spec fn committed_digits(game: GameView) -> Seq<u8> {
    Seq::new(
        81,
        |p: int|
            match game.cells[p].digit {
                Some(d) => d,
                None => 0u8,
            },
    )
}

/// The state of a cell that a report of the solver stands for, if the report
/// is in range.
pub open spec fn cell_state_of(cell: SolverCell) -> Option<CellStateView> {
    match cell {
        SolverCell::Digit(d) => if is_digit(d as int) {
            Some(CellStateView::Digit(d))
        } else {
            None
        },
        SolverCell::Candidates(mask) => if mask <= ALL_DIGITS {
            Some(CellStateView::Candidates(Set::new(|d: int| mask_has(mask, d))))
        } else {
            None
        },
    }
}

/// A report of the solver is usable when it has 81 cells, each in range.
pub open spec fn usable_grid(grid: Seq<SolverCell>) -> bool {
    &&& grid.len() == 81
    &&& forall|p: int| 0 <= p < 81 ==> cell_state_of(#[trigger] grid[p]).is_some()
}

/// The grid state that a usable report stands for.
pub open spec fn grid_state_of(grid: Seq<SolverCell>) -> Seq<CellStateView> {
    Seq::new(81, |p: int| cell_state_of(grid[p]).unwrap())
}

/// The game is at its start on `puzzle`: the puzzle is valid, the answer of
/// the game is the one solution that the solver finds for it and holds every
/// clue, and the cells are seeded from the grid state that the solver
/// derives from it.
pub open spec fn started_on(game: GameView, puzzle: Seq<u8>, settings: Settings) -> bool {
    &&& valid_puzzle(puzzle)
    &&& unique_solution_of(puzzle) == Some(game.solution)
    &&& extends(game.solution, puzzle)
    &&& usable_grid(solver_grid_state_of(puzzle))
    &&& game == GameView::init(
        grid_state_of(solver_grid_state_of(puzzle)),
        game.solution,
        settings,
    )
}

/// Calls `sudoku::Sudoku::generate` and hands out the 81 cells of the puzzle
/// it made. The puzzle is random: the contract states its length and nothing
/// else.
#[verifier::external_body]
fn generate_sudoku() -> (puzzle: Vec<u8>)
    ensures
        puzzle.len() == 81,
{
    sudoku::Sudoku::generate().to_bytes().to_vec()
}

/// Calls `sudoku::Sudoku::solution` on the puzzle with these cells. The
/// contract gives the result its name and states that a solution has 81
/// cells.
#[verifier::external_body]
fn unique_solution(puzzle: &Vec<u8>) -> (solution: Option<Vec<u8>>)
    requires
        valid_puzzle(puzzle@),
    ensures
        solution.is_some() == unique_solution_of(puzzle@).is_some(),
        solution matches Some(cells) ==> cells@ == unique_solution_of(puzzle@).unwrap()
            && cells.len() == 81,
{
    let sudoku = sudoku::Sudoku::from_bytes_slice(puzzle).unwrap();
    sudoku.solution().map(|solved| solved.to_bytes().to_vec())
}

/// Calls `sudoku::strategy::StrategySolver::grid_state` on a solver made
/// from the puzzle with these cells. The contract gives the result its name
/// and states that it has 81 cells.
#[verifier::external_body]
fn solver_grid_state(puzzle: &Vec<u8>) -> (grid: Vec<SolverCell>)
    requires
        valid_puzzle(puzzle@),
    ensures
        grid@ == solver_grid_state_of(puzzle@),
        grid.len() == 81,
{
    let sudoku = sudoku::Sudoku::from_bytes_slice(puzzle).unwrap();
    let solver = sudoku::strategy::StrategySolver::from_sudoku(sudoku);
    solver.grid_state().iter().map(|cell| match cell {
        sudoku::board::CellState::Digit(digit) => SolverCell::Digit(digit.get()),
        sudoku::board::CellState::Candidates(set) => SolverCell::Candidates(set.bits()),
    }).collect()
}

/// Calls `sudoku::Sudoku::is_solved` on the grid with these cells. That
/// function answers no for a grid with an empty cell, and else gathers the
/// digits of every row, column and block and answers whether each of them
/// has all nine: the contract states this.
#[verifier::external_body]
fn sudoku_is_solved(grid: &Vec<u8>) -> (solved: bool)
    requires
        valid_puzzle(grid@),
    ensures
        solved == solved_grid(grid@),
{
    sudoku::Sudoku::from_bytes_slice(grid).unwrap().is_solved()
}

/// Whether `puzzle` is 81 cells, each empty or a clue.
pub fn is_valid_puzzle(puzzle: &Vec<u8>) -> (r: bool)
    ensures
        r == valid_puzzle(puzzle@),
{
    if puzzle.len() != 81 {
        return false;
    }
    let mut p: usize = 0;
    while p < 81
        invariant
            p <= 81,
            puzzle.len() == 81,
            forall|a: int| 0 <= a < p ==> #[trigger] puzzle[a] <= 9,
        decreases 81 - p,
    {
        if puzzle[p] > 9 {
            return false;
        }
        p = p + 1;
    }
    true
}

/// Whether `solution` is 81 digits.
pub fn is_valid_solution(solution: &Vec<u8>) -> (r: bool)
    ensures
        r == valid_solution(solution@),
{
    if solution.len() != 81 {
        return false;
    }
    let mut p: usize = 0;
    while p < 81
        invariant
            p <= 81,
            solution.len() == 81,
            forall|a: int| 0 <= a < p ==> is_digit(#[trigger] solution[a] as int),
        decreases 81 - p,
    {
        if solution[p] < 1 || solution[p] > 9 {
            assert(!is_digit(solution[p as int] as int));
            return false;
        }
        p = p + 1;
    }
    true
}

/// Whether `solution` holds every clue of `puzzle`.
pub fn solution_extends(solution: &Vec<u8>, puzzle: &Vec<u8>) -> (r: bool)
    requires
        solution.len() == 81,
        puzzle.len() == 81,
    ensures
        r == extends(solution@, puzzle@),
{
    let mut p: usize = 0;
    while p < 81
        invariant
            p <= 81,
            solution.len() == 81,
            puzzle.len() == 81,
            forall|a: int| 0 <= a < p && #[trigger] puzzle[a] != 0 ==> solution[a] == puzzle[a],
        decreases 81 - p,
    {
        if puzzle[p] != 0 && solution[p] != puzzle[p] {
            return false;
        }
        p = p + 1;
    }
    true
}

/// Whether `grid` is a solved grid, as the solver judges it.
pub fn is_solved_grid(grid: &Vec<u8>) -> (r: bool)
    ensures
        r == solved_grid(grid@),
{
    if !is_valid_puzzle(grid) {
        proof {
            if grid.len() == 81 {
                let p = choose|p: int| 0 <= p < 81 && !(#[trigger] grid[p] <= 9);
                assert(!is_digit(grid[p] as int));
            }
        }
        return false;
    }
    sudoku_is_solved(grid)
}

/// Takes what the solver gave as the solution of `puzzle`: it is accepted
/// when the puzzle is valid and the solution is a solved grid that holds
/// every clue.
pub fn accept_solution(puzzle: &Vec<u8>, solution: Option<Vec<u8>>) -> (accepted: Option<Vec<u8>>)
    ensures
        accepted.is_some() <==> valid_puzzle(puzzle@) && solution.is_some() && solved_grid(
            solution.unwrap()@,
        ) && extends(solution.unwrap()@, puzzle@),
        accepted.is_some() ==> accepted == solution,
{
    match solution {
        Some(cells) => {
            if is_valid_puzzle(puzzle) && is_solved_grid(&cells) && solution_extends(&cells, puzzle) {
                Some(cells)
            } else {
                None
            }
        },
        None => None,
    }
}

/// The state of a cell that a report of the solver stands for, if the report
/// is in range.
pub fn cell_state_from(cell: SolverCell) -> (state: Option<CellState>)
    ensures
        state.is_some() == cell_state_of(cell).is_some(),
        state matches Some(s) ==> s.wf() && s@ == cell_state_of(cell).unwrap(),
{
    match cell {
        SolverCell::Digit(digit) => {
            if 1 <= digit && digit <= 9 {
                Some(CellState::Digit(digit))
            } else {
                None
            }
        },
        SolverCell::Candidates(mask) => {
            match CandidateSet::from_bits(mask) {
                Some(set) => {
                    proof {
                        set.lemma_view();
                        assert(set@ =~= Set::new(|d: int| mask_has(mask, d)));
                    }
                    Some(CellState::Candidates(set))
                },
                None => None,
            }
        },
    }
}

/// The grid state that a report of the solver stands for, if the report is
/// usable.
pub fn grid_state_from(grid: &Vec<SolverCell>) -> (grid_state: Option<Vec<CellState>>)
    ensures
        grid_state.is_some() == usable_grid(grid@),
        grid_state matches Some(states) ==> {
            &&& states.len() == 81
            &&& forall|p: int| 0 <= p < 81 ==> (#[trigger] states[p]).wf()
            &&& grid_state_view(states@) == grid_state_of(grid@)
        },
{
    if grid.len() != 81 {
        return None;
    }
    let mut states: Vec<CellState> = Vec::new();
    let mut p: usize = 0;
    while p < 81
        invariant
            p <= 81,
            grid.len() == 81,
            states.len() == p,
            forall|a: int| 0 <= a < p ==> cell_state_of(#[trigger] grid[a]).is_some(),
            forall|a: int| 0 <= a < p ==> (#[trigger] states[a]).wf(),
            forall|a: int| 0 <= a < p ==> (#[trigger] states[a])@ == cell_state_of(grid[a]).unwrap(),
        decreases 81 - p,
    {
        match cell_state_from(grid[p]) {
            Some(state) => {
                states.push(state);
            },
            None => {
                return None;
            },
        }
        p = p + 1;
    }
    proof {
        assert(grid_state_view(states@) =~= grid_state_of(grid@));
    }
    Some(states)
}

/// The solution of `puzzle`, if the solver finds exactly one: a solved grid
/// that holds every clue.
pub fn solve_puzzle(puzzle: &Vec<u8>) -> (solution: Option<Vec<u8>>)
    ensures
        solution.is_some() <==> valid_puzzle(puzzle@) && unique_solution_of(puzzle@).is_some()
            && solved_grid(unique_solution_of(puzzle@).unwrap()) && extends(
            unique_solution_of(puzzle@).unwrap(),
            puzzle@,
        ),
        solution matches Some(cells) ==> cells@ == unique_solution_of(puzzle@).unwrap(),
{
    if !is_valid_puzzle(puzzle) {
        return None;
    }
    accept_solution(puzzle, unique_solution(puzzle))
}

/// Asks the solver for a random puzzle, up to `attempts` times, until one
/// comes with a solution that is accepted. Returns the puzzle and its
/// solution, or nothing when every attempt failed.
pub fn generate_puzzle(attempts: u32) -> (generated: Option<(Vec<u8>, Vec<u8>)>)
    ensures
        attempts == 0 ==> generated.is_none(),
        generated matches Some(pair) ==> {
            &&& valid_puzzle(pair.0@)
            &&& solved_grid(pair.1@)
            &&& extends(pair.1@, pair.0@)
            &&& unique_solution_of(pair.0@) == Some(pair.1@)
        },
{
    let mut left: u32 = attempts;
    while left > 0
        invariant
            left <= attempts,
        decreases left,
    {
        let puzzle = generate_sudoku();
        match solve_puzzle(&puzzle) {
            Some(solution) => {
                return Some((puzzle, solution));
            },
            None => {},
        }
        left = left - 1;
    }
    None
}

impl SudokuManager {
    /// The committed digits of the game, cell by cell, with 0 where a cell
    /// holds none.
    pub fn committed_digits(&self) -> (digits: Vec<u8>)
        requires
            self.wf(),
        ensures
            digits@ == committed_digits(self@),
            valid_puzzle(digits@),
    {
        let mut digits: Vec<u8> = Vec::new();
        let mut p: u8 = 0;
        proof {
            self.lemma_wf();
        }
        while p < 81
            invariant
                p <= 81,
                self.wf(),
                self@.wf(),
                digits.len() == p,
                forall|a: int| 0 <= a < p ==> #[trigger] digits[a] == committed_digits(self@)[a],
                forall|a: int| 0 <= a < p ==> #[trigger] digits[a] <= 9,
            decreases 81 - p,
        {
            let cell = self.cell(CellPosition(p));
            proof {
                assert(self@.cells[p as int].wf());
            }
            match cell.digit() {
                Some(digit) => {
                    digits.push(digit);
                },
                None => {
                    digits.push(0);
                },
            }
            p = p + 1;
        }
        proof {
            assert(digits@ =~= committed_digits(self@));
        }
        digits
    }

    /// Whether the committed digits of the game make a solved grid, as the
    /// solver judges it.
    pub fn is_grid_solved(&self) -> (r: bool)
        requires
            self.wf(),
        ensures
            r == solved_grid(committed_digits(self@)),
    {
        let digits = self.committed_digits();
        sudoku_is_solved(&digits)
    }

    /// A game on `puzzle`: every cell is seeded from the grid state that the
    /// solver derives from the puzzle. There is no game where the puzzle or
    /// the solution is not valid, or the solver's report is not usable.
    pub fn init(puzzle: &Vec<u8>, solution: Vec<u8>, settings: Settings) -> (game: Option<
        SudokuManager,
    >)
        ensures
            game.is_some() <==> valid_puzzle(puzzle@) && valid_solution(solution@) && usable_grid(
                solver_grid_state_of(puzzle@),
            ),
            game matches Some(g) ==> g.wf() && g@ == GameView::init(
                grid_state_of(solver_grid_state_of(puzzle@)),
                solution@,
                settings,
            ),
    {
        if !is_valid_puzzle(puzzle) || !is_valid_solution(&solution) {
            return None;
        }
        let grid = solver_grid_state(puzzle);
        match grid_state_from(&grid) {
            Some(grid_state) => Some(SudokuManager::from_grid_state(grid_state, solution, settings)),
            None => None,
        }
    }

    /// A game on a random puzzle, asked of the solver up to `attempts`
    /// times. The game is at its start on a puzzle of which its answer is
    /// the one solution, a solved grid.
    pub fn new_game(settings: Settings, attempts: u32) -> (game: Option<SudokuManager>)
        ensures
            attempts == 0 ==> game.is_none(),
            game matches Some(g) ==> {
                &&& g.wf()
                &&& g@ == GameView::init(g@.grid_state, g@.solution, settings)
                &&& solved_grid(g@.solution)
                &&& exists|puzzle: Seq<u8>| started_on(g@, puzzle, settings)
            },
    {
        match generate_puzzle(attempts) {
            Some(pair) => {
                let ghost puzzle = pair.0@;
                let game = SudokuManager::init(&pair.0, pair.1, settings);
                proof {
                    if game.is_some() {
                        game.unwrap().lemma_wf();
                        assert(started_on(game.unwrap()@, puzzle, settings));
                    }
                }
                game
            },
            None => None,
        }
    }
}

} // verus!
