//! Every transition keeps the invariant of the game.

use crate::candidates::is_digit;
use crate::cell_state::{CellMode, CellStateView};
use crate::events::{GameEvent, MoveSelectCell};
use crate::model::{in_conflict, valid_grid_state, valid_solution, GameView};
use crate::settings::Settings;
use vstd::prelude::*;

verus! {

/// A game starts well formed.
pub proof fn lemma_init_wf(grid_state: Seq<CellStateView>, solution: Seq<u8>, settings: Settings)
    requires
        valid_grid_state(grid_state),
        valid_solution(solution),
    ensures
        GameView::init(grid_state, solution, settings).wf(),
{
    let s = GameView::init(grid_state, solution, settings);
    assert forall|p: int| 0 <= p < 81 implies (#[trigger] s.cells[p]).wf() by {
        assert(grid_state[p].wf());
    }
    assert forall|p: int| 0 <= p < 81 && (#[trigger] s.cells[p]).mode != CellMode::Digit implies !(
    grid_state[p] is Digit) by {}
}

/// The cleanup after a digit left a cell that is not fixed takes the cell
/// out of every conflict set and empties its own.
pub proof fn lemma_remove_conflict(s: GameView, p: int, d: u8)
    requires
        s.wf(),
        0 <= p < 81,
        s.cells[p].digit == Some(d),
    ensures
        s.remove_conflict(p, d).conflicts[p] == Set::<int>::empty(),
        forall|q: int| 0 <= q < 81 ==> !(#[trigger] s.remove_conflict(p, d).conflicts[q]).contains(p),
        forall|q: int, r: int|
            0 <= q < 81 && q != p && r != p ==> ((#[trigger] s.remove_conflict(
                p,
                d,
            ).conflicts[q].contains(r)) <==> s.conflicts[q].contains(r)),
{
    let t = s.remove_conflict(p, d);
    assert forall|q: int| 0 <= q < 81 implies !(#[trigger] t.conflicts[q]).contains(p) by {
        if q != p && s.conflicts[q].contains(p) {
            assert(s.cells[q].digit == Some(d));
        }
    }
}

/// Placing a digit in a cell that is not locked keeps the invariant; the
/// cell then holds the digit.
pub proof fn lemma_place_digit(s: GameView, p: int, d: u8)
    requires
        s.wf(),
        0 <= p < 81,
        is_digit(d as int),
        !s.cells[p].locked(),
    ensures
        s.place_digit(p, d).wf(),
        s.place_digit(p, d).cells[p].mode == CellMode::Digit,
        s.place_digit(p, d).cells[p].digit == Some(d),
        !s.place_digit(p, d).cells[p].fixed,
        s.place_digit(p, d).solved == s.solved,
        s.place_digit(p, d).selected == s.selected,
        s.place_digit(p, d).auto_mode == s.auto_mode,
        s.place_digit(p, d).settings == s.settings,
        s.place_digit(p, d).solution == s.solution,
        s.place_digit(p, d).grid_state == s.grid_state,
{
    let removed = s.cells[p].commit_removes(d);
    let s1 = s.removal(p, removed);
    let s2 = s1.set_cell(p, s.cells[p].commit_digit(d));
    let s3 = s2.kick_candidates(p, d);
    let s4 = s3.check_conflict(p);
    if removed.is_some() {
        lemma_remove_conflict(s, p, removed.unwrap());
    }
    assert(s3.shaped()) by {
        assert forall|q: int| 0 <= q < 81 implies (#[trigger] s3.cells[q]).wf() by {
            assert(s.cells[q].wf());
        }
    }
    assert(s4.cells == s3.cells);
    assert(s4.conflicts_exact()) by {
        assert forall|a: int, b: int| 0 <= a < 81 implies (#[trigger] s4.conflicts[a].contains(b) <==> 0
            <= b < 81 && in_conflict(s4.cells, a, b)) by {
            assert(s.conflicts[a].contains(b) <==> 0 <= b < 81 && in_conflict(
                s.cells,
                a,
                b,
            ));
            if 0 <= b < 81 {
                assert(s.conflicts[b].contains(a) <==> in_conflict(s.cells, b, a));
            }
        }
    }
    let s5 = s.place_digit(p, d);
    assert(s5.wf()) by {
        if s.settings.check_guesses_when_entered {
            assert(s5 == s4.check_cell(p));
            assert forall|q: int| 0 <= q < 81 implies (#[trigger] s5.cells[q]).wf() by {
                assert(s4.cells[q].wf());
            }
            assert forall|a: int, b: int| 0 <= a < 81 implies (#[trigger] s5.conflicts[a].contains(b)
                <==> 0 <= b < 81 && in_conflict(s5.cells, a, b)) by {
                assert(s4.conflicts[a].contains(b) <==> 0 <= b < 81 && in_conflict(
                    s4.cells,
                    a,
                    b,
                ));
            }
        }
    }
}

/// Committing a digit keeps the invariant.
pub proof fn lemma_commit_digit_wf(s: GameView, p: int, d: u8)
    requires
        s.wf(),
        0 <= p < 81,
        is_digit(d as int),
    ensures
        s.commit_digit(p, d).wf(),
{
    if !s.cells[p].locked() {
        lemma_place_digit(s, p, d);
    }
}

/// An edit that can only take the digit out of a cell keeps the invariant,
/// whatever it does to the candidates of the cell.
proof fn lemma_edit_wf(s: GameView, p: int, t: GameView)
    requires
        s.wf(),
        0 <= p < 81,
        t.cells.len() == 81,
        t.cells[p].wf(),
        t.cells[p].fixed == s.cells[p].fixed,
        t.cells[p].revealed == s.cells[p].revealed,
        t.cells[p].digit == (if s.cells[p].edit_removes().is_some() {
            None
        } else {
            s.cells[p].digit
        }),
        t.cells[p].mode != CellMode::Digit ==> t.cells[p].mode == crate::cell_state::candidate_mode(
            s.auto_mode,
        ),
        t == s.removal(p, s.cells[p].edit_removes()).set_cell(p, t.cells[p]),
    ensures
        t.wf(),
{
    let removed = s.cells[p].edit_removes();
    if removed.is_some() {
        lemma_remove_conflict(s, p, removed.unwrap());
    }
    assert forall|q: int| 0 <= q < 81 implies (#[trigger] t.cells[q]).wf() by {
        assert(s.cells[q].wf());
    }
    assert forall|a: int, b: int| 0 <= a < 81 implies (#[trigger] t.conflicts[a].contains(b) <==> 0
        <= b < 81 && in_conflict(t.cells, a, b)) by {
        assert(s.conflicts[a].contains(b) <==> 0 <= b < 81 && in_conflict(s.cells, a, b));
        if 0 <= b < 81 {
            assert(s.conflicts[b].contains(a) <==> in_conflict(s.cells, b, a));
        }
    }
}

/// Toggling a candidate keeps the invariant.
pub proof fn lemma_toggle_candidate_wf(s: GameView, p: int, d: u8)
    requires
        s.wf(),
        0 <= p < 81,
        is_digit(d as int),
    ensures
        s.toggle_candidate(p, d).wf(),
{
    assert(s.cells[p].wf());
    lemma_edit_wf(s, p, s.toggle_candidate(p, d));
}

/// Clearing a cell keeps the invariant.
pub proof fn lemma_clear_wf(s: GameView, p: int)
    requires
        s.wf(),
        0 <= p < 81,
    ensures
        s.clear(p).wf(),
{
    assert(s.cells[p].wf());
    lemma_edit_wf(s, p, s.clear(p));
}

/// A change of marks that leaves digits, modes and candidates alone keeps
/// the invariant.
proof fn lemma_marks_wf(s: GameView, t: GameView)
    requires
        s.wf(),
        t.cells.len() == 81,
        t == (GameView { cells: t.cells, solved: t.solved, ..s }),
        forall|p: int|
            0 <= p < 81 ==> {
                &&& (#[trigger] t.cells[p]).wf()
                &&& t.cells[p].digit == s.cells[p].digit
                &&& t.cells[p].mode == s.cells[p].mode
                &&& t.cells[p].fixed == s.cells[p].fixed
                &&& t.cells[p].revealed ==> t.cells[p].digit == Some(s.solution[p])
            },
    ensures
        t.wf(),
{
    assert forall|a: int, b: int| 0 <= a < 81 implies (#[trigger] t.conflicts[a].contains(b) <==> 0
        <= b < 81 && in_conflict(t.cells, a, b)) by {
        assert(s.conflicts[a].contains(b) <==> 0 <= b < 81 && in_conflict(s.cells, a, b));
    }
}

/// Checking a cell keeps the invariant.
pub proof fn lemma_check_cell_wf(s: GameView, p: int)
    requires
        s.wf(),
        0 <= p < 81,
    ensures
        s.check_cell(p).wf(),
{
    let t = s.check_cell(p);
    assert forall|q: int| 0 <= q < 81 implies (#[trigger] t.cells[q]).wf() by {
        assert(s.cells[q].wf());
    }
    lemma_marks_wf(s, t);
}

/// Checking the puzzle keeps the invariant.
pub proof fn lemma_check_puzzle_wf(s: GameView)
    requires
        s.wf(),
    ensures
        s.check_puzzle().wf(),
{
    let t = s.check_puzzle();
    assert forall|q: int| 0 <= q < 81 implies (#[trigger] t.cells[q]).wf() by {
        assert(s.cells[q].wf());
    }
    lemma_marks_wf(s, t);
}

/// Holding the grid against the answer keeps the invariant.
pub proof fn lemma_check_solved_wf(s: GameView)
    requires
        s.wf(),
    ensures
        s.check_solved().wf(),
{
    lemma_marks_wf(s, s.check_solved());
}

/// Showing the answer of a cell that is not locked keeps the invariant.
pub proof fn lemma_show_answer_wf(s: GameView, p: int)
    requires
        s.wf(),
        0 <= p < 81,
        !s.cells[p].locked(),
    ensures
        s.show_answer(p).wf(),
        s.show_answer(p).solved == s.solved,
        s.show_answer(p).solution == s.solution,
        s.show_answer(p).grid_state == s.grid_state,
        s.show_answer(p).settings == s.settings,
        s.show_answer(p).selected == s.selected,
        s.show_answer(p).auto_mode == s.auto_mode,
{
    lemma_place_digit(s, p, s.solution[p]);
    let placed = s.place_digit(p, s.solution[p]);
    let t = s.show_answer(p);
    assert forall|q: int| 0 <= q < 81 implies (#[trigger] t.cells[q]).wf() by {
        assert(placed.cells[q].wf());
    }
    lemma_marks_wf(placed, t);
}

/// Revealing a cell keeps the invariant.
pub proof fn lemma_reveal_cell_wf(s: GameView, p: int)
    requires
        s.wf(),
        0 <= p < 81,
    ensures
        s.reveal_cell(p).wf(),
        s.reveal_cell(p).solution == s.solution,
        s.reveal_cell(p).grid_state == s.grid_state,
        s.reveal_cell(p).settings == s.settings,
        s.reveal_cell(p).selected == s.selected,
        s.reveal_cell(p).auto_mode == s.auto_mode,
{
    if !s.cells[p].locked() {
        lemma_show_answer_wf(s, p);
        lemma_check_solved_wf(s.show_answer(p));
    }
}

/// Revealing the first `n` cells keeps the invariant.
pub proof fn lemma_reveal_cells_wf(s: GameView, n: int)
    requires
        s.wf(),
        0 <= n <= 81,
    ensures
        s.reveal_cells(n).wf(),
        s.reveal_cells(n).solution == s.solution,
        s.reveal_cells(n).grid_state == s.grid_state,
        s.reveal_cells(n).settings == s.settings,
        s.reveal_cells(n).selected == s.selected,
        s.reveal_cells(n).auto_mode == s.auto_mode,
    decreases n,
{
    if n > 0 {
        lemma_reveal_cells_wf(s, n - 1);
        lemma_reveal_cell_wf(s.reveal_cells(n - 1), n - 1);
    }
}

/// A reset keeps the invariant.
pub proof fn lemma_reset_puzzle_wf(s: GameView)
    requires
        s.wf(),
    ensures
        s.reset_puzzle().wf(),
{
    lemma_init_wf(s.grid_state, s.solution, s.settings);
}

/// Among the first `n` cells there is a hint, if one of them is not fixed.
pub proof fn lemma_hint_exists(s: GameView, n: int)
    requires
        0 <= n <= 81,
        s.has_free_cell_below(n),
    ensures
        exists|p: int| s.is_hint_below(p, n),
    decreases n,
{
    let m = n - 1;
    if s.has_free_cell_below(m) {
        lemma_hint_exists(s, m);
        let p = choose|p: int| s.is_hint_below(p, m);
        if !s.cells[m].fixed && s.auto_count(m) < s.auto_count(p) {
            assert(s.is_hint_below(m, n));
        } else {
            assert(s.is_hint_below(p, n));
        }
    } else {
        let q = choose|q: int| 0 <= q < n && !(#[trigger] s.cells[q]).fixed;
        assert(q == m);
        assert(s.is_hint_below(m, n));
    }
}

/// There is one hint at most.
pub proof fn lemma_hint_unique(s: GameView, p: int, q: int)
    requires
        s.is_hint(p),
        s.is_hint(q),
    ensures
        p == q,
{
    if p < q {
        assert(!s.cells[p].fixed);
    } else if q < p {
        assert(!s.cells[q].fixed);
    }
}

/// Asking for a hint keeps the invariant.
pub proof fn lemma_find_hint_wf(s: GameView)
    requires
        s.wf(),
    ensures
        s.find_hint().wf(),
        s.has_free_cell() ==> s.is_hint(s.hint()),
{
    if s.has_free_cell() {
        lemma_hint_exists(s, 81);
        let p = choose|p: int| s.is_hint_below(p, 81);
        assert(s.is_hint(p));
    }
}

/// A step of the selection stays on the grid.
pub proof fn lemma_step(p: int, direction: MoveSelectCell)
    requires
        0 <= p < 81,
    ensures
        0 <= GameView::step(p, direction) < 81,
{
}

/// Setting the candidate-mode flag keeps the invariant.
pub proof fn lemma_set_auto_candidate_mode_wf(s: GameView, auto_mode: bool)
    requires
        s.wf(),
    ensures
        s.set_auto_candidate_mode(auto_mode).wf(),
{
    let t = s.set_auto_candidate_mode(auto_mode);
    assert forall|q: int| 0 <= q < 81 implies (#[trigger] t.cells[q]).wf() by {
        assert(s.cells[q].wf());
    }
    assert forall|a: int, b: int| 0 <= a < 81 implies (#[trigger] t.conflicts[a].contains(b) <==> 0
        <= b < 81 && in_conflict(t.cells, a, b)) by {
        assert(s.conflicts[a].contains(b) <==> 0 <= b < 81 && in_conflict(s.cells, a, b));
    }
}

/// Every event keeps the invariant.
pub proof fn lemma_handle_wf(s: GameView, event: GameEvent)
    requires
        s.wf(),
        event.wf(),
    ensures
        s.handle(event).wf(),
{
    match event {
        GameEvent::NewDigit(d) => lemma_commit_digit_wf(s, s.selected, d),
        GameEvent::NewCandidate(d) => lemma_toggle_candidate_wf(s, s.selected, d),
        GameEvent::CleanCell => lemma_clear_wf(s, s.selected),
        GameEvent::RevealCell => lemma_reveal_cell_wf(s, s.selected),
        GameEvent::RevealPuzzle => lemma_reveal_cells_wf(s, 81),
        GameEvent::CheckCell => lemma_check_cell_wf(s, s.selected),
        GameEvent::CheckPuzzle => lemma_check_puzzle_wf(s),
        GameEvent::ResetPuzzle => lemma_reset_puzzle_wf(s),
        GameEvent::FindHint => lemma_find_hint_wf(s),
        GameEvent::MoveSelection(direction) => lemma_step(s.selected, direction),
        GameEvent::ToggleCandidateModeFlag => lemma_set_auto_candidate_mode_wf(s, !s.auto_mode),
    }
}

} // verus!
