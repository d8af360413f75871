//! What holds of every game.

use crate::candidates::is_digit;
use crate::cell_state::{candidate_mode, CellMode, CellStateView, CellView};
use crate::events::GameEvent;
use crate::model::{valid_grid_state, valid_solution, GameView};
use crate::position::peers;
use crate::preservation::{
    lemma_commit_digit_wf, lemma_find_hint_wf, lemma_handle_wf, lemma_init_wf, lemma_place_digit,
    lemma_remove_conflict, lemma_reveal_cell_wf, lemma_reveal_cells_wf, lemma_show_answer_wf,
};
use crate::settings::Settings;
use crate::solver::{committed_digits, solved_grid};
use vstd::prelude::*;

verus! {

/// After a digit is committed to a cell that is not locked, the cell is in
/// digit mode and shows that digit.
pub proof fn law_commit_digit_shows_digit(s: GameView, p: int, d: u8)
    requires
        s.wf(),
        0 <= p < 81,
        is_digit(d as int),
        !s.cells[p].locked(),
    ensures
        s.commit_digit(p, d).cells[p].mode == CellMode::Digit,
        s.commit_digit(p, d).cells[p].current_value() == CellStateView::Digit(d),
{
    lemma_place_digit(s, p, d);
}

/// A cell alone: after a digit is committed to a cell that is not locked,
/// the cell is in digit mode and shows that digit, and the candidates behind
/// it are as they were.
pub proof fn law_cell_commit_digit(cell: CellView, d: u8)
    requires
        !cell.locked(),
    ensures
        cell.commit_digit(d).mode == CellMode::Digit,
        cell.commit_digit(d).current_value() == CellStateView::Digit(d),
        cell.commit_digit(d).auto_candidates == cell.auto_candidates,
        cell.commit_digit(d).manual_candidates == cell.manual_candidates,
{
}

/// After a digit is committed to a cell that is not locked, no peer in a
/// candidate mode shows that digit among its candidates.
pub proof fn law_commit_digit_kicks_candidate(s: GameView, p: int, q: int, d: u8)
    requires
        s.wf(),
        0 <= p < 81,
        0 <= q < 81,
        peers(p, q),
        is_digit(d as int),
        !s.cells[p].locked(),
        s.cells[q].mode != CellMode::Digit,
    ensures
        s.commit_digit(p, d).cells[q].mode == s.cells[q].mode,
        !s.commit_digit(p, d).cells[q].active_candidates().contains(d as int),
{
}

/// Committing the same digit to the same cell a second time changes
/// nothing.
pub proof fn law_commit_digit_twice(s: GameView, p: int, d: u8)
    requires
        s.wf(),
        0 <= p < 81,
        is_digit(d as int),
    ensures
        s.commit_digit(p, d).commit_digit(p, d) == s.commit_digit(p, d),
{
    let t = s.commit_digit(p, d);
    lemma_commit_digit_wf(s, p, d);
    if !s.cells[p].locked() {
        lemma_place_digit(s, p, d);
    }
    if !t.cells[p].locked() {
        lemma_place_digit(t, p, d);
        let u = t.commit_digit(p, d);
        assert(t.cells[p].digit == Some(d));
        assert(u.cells =~= t.cells) by {
            assert forall|q: int| 0 <= q < 81 implies u.cells[q] == t.cells[q] by {
                if peers(p, q) {
                    assert(t.cells[q].kick_candidate(d, t.auto_mode).auto_candidates
                        =~= t.cells[q].auto_candidates);
                    assert(t.cells[q].kick_candidate(d, t.auto_mode).manual_candidates
                        =~= t.cells[q].manual_candidates);
                }
            }
        }
        assert(u.conflicts =~= t.conflicts) by {
            assert forall|a: int| 0 <= a < 81 implies #[trigger] u.conflicts[a] =~= t.conflicts[a] by {
                assert forall|b: int| u.conflicts[a].contains(b) == t.conflicts[a].contains(b) by {
                    assert(t.conflicts[a].contains(b) <==> 0 <= b < 81 && crate::model::in_conflict(
                        t.cells,
                        a,
                        b,
                    ));
                    assert(u.conflicts[a].contains(b) <==> 0 <= b < 81 && crate::model::in_conflict(
                        u.cells,
                        a,
                        b,
                    ));
                }
            }
        }
        assert(u.solved == t.solved) by {
            assert(u.all_correct() == t.all_correct());
        }
    }
}

/// Conflicts go both ways: a cell is in the conflict set of another exactly
/// when the other is in its own.
pub proof fn law_conflicts_symmetric(s: GameView, p: int, q: int)
    requires
        s.wf(),
        0 <= p < 81,
        0 <= q < 81,
    ensures
        s.conflicts[p].contains(q) <==> s.conflicts[q].contains(p),
{
}

/// Conflicts are read off the committed digits: the conflict set of a cell
/// that is not fixed holds exactly its peers with the same committed digit.
pub proof fn law_conflicts_follow_digits(s: GameView, p: int, q: int)
    requires
        s.wf(),
        0 <= p < 81,
        !s.cells[p].fixed,
    ensures
        s.conflicts[p].contains(q) <==> 0 <= q < 81 && peers(p, q) && s.cells[p].digit.is_some()
            && s.cells[q].digit == s.cells[p].digit,
{
}

/// A cell in a candidate mode is in conflict with no cell.
pub proof fn law_candidate_cell_has_no_conflict(s: GameView, p: int)
    requires
        s.wf(),
        0 <= p < 81,
        s.cells[p].mode != CellMode::Digit,
    ensures
        !s.has_conflict(p),
{
    assert(s.cells[p].wf());
    assert(s.conflicts[p] =~= Set::<int>::empty());
}

/// After any event the conflicts still go both ways.
pub proof fn law_conflicts_symmetric_after(s: GameView, event: GameEvent, p: int, q: int)
    requires
        s.wf(),
        event.wf(),
        0 <= p < 81,
        0 <= q < 81,
    ensures
        s.handle(event).conflicts[p].contains(q) <==> s.handle(event).conflicts[q].contains(p),
{
    lemma_handle_wf(s, event);
}

/// After the committed digit of a cell was cleared, the cell is in no
/// conflict set and its own is empty.
pub proof fn law_clear_leaves_conflicts(s: GameView, p: int, q: int)
    requires
        s.wf(),
        0 <= p < 81,
        0 <= q < 81,
        !s.cells[p].locked(),
        s.cells[p].mode == CellMode::Digit,
    ensures
        s.clear(p).conflicts[p] == Set::<int>::empty(),
        !s.clear(p).conflicts[q].contains(p),
{
    assert(s.cells[p].wf());
    lemma_remove_conflict(s, p, s.cells[p].digit.unwrap());
}

/// After the committed digit of a cell gave way to a candidate, the cell is
/// in no conflict set and its own is empty.
pub proof fn law_toggle_candidate_leaves_conflicts(s: GameView, p: int, q: int, d: u8)
    requires
        s.wf(),
        0 <= p < 81,
        0 <= q < 81,
        !s.cells[p].locked(),
        s.cells[p].mode == CellMode::Digit,
    ensures
        s.toggle_candidate(p, d).conflicts[p] == Set::<int>::empty(),
        !s.toggle_candidate(p, d).conflicts[q].contains(p),
{
    assert(s.cells[p].wf());
    lemma_remove_conflict(s, p, s.cells[p].digit.unwrap());
}

/// After a committed digit was overwritten by another, the cell is in the
/// conflict set of no cell that holds the old digit.
pub proof fn law_commit_digit_leaves_old_conflicts(s: GameView, p: int, q: int, d: u8)
    requires
        s.wf(),
        0 <= p < 81,
        0 <= q < 81,
        is_digit(d as int),
        !s.cells[p].locked(),
        s.cells[p].digit.is_some(),
        s.cells[p].digit != Some(d),
        s.cells[q].digit == s.cells[p].digit,
    ensures
        !s.commit_digit(p, d).conflicts[q].contains(p),
        !s.commit_digit(p, d).conflicts[p].contains(q),
{
    lemma_place_digit(s, p, d);
    let t = s.commit_digit(p, d);
    assert(t.wf()) by {
        lemma_commit_digit_wf(s, p, d);
    }
    if q != p {
        assert(t.cells[q].digit == s.cells[q].digit);
    }
}

/// Clearing a locked cell changes nothing and announces nothing.
pub proof fn law_clear_locked_cell(s: GameView, p: int)
    requires
        s.wf(),
        0 <= p < 81,
        s.cells[p].locked(),
    ensures
        s.clear(p) == s,
        s.cells[p].edit_removes().is_none(),
{
    assert(s.clear(p).cells =~= s.cells);
}

/// Clearing a cell that is not locked and holds a digit moves it to the
/// candidate mode that the flag selects, with the candidates that were
/// behind the digit, and announces the removal of that digit.
pub proof fn law_clear_digit_cell(s: GameView, p: int)
    requires
        s.wf(),
        0 <= p < 81,
        !s.cells[p].locked(),
        s.cells[p].mode == CellMode::Digit,
    ensures
        s.clear(p).cells[p].mode == candidate_mode(s.auto_mode),
        s.clear(p).cells[p].digit.is_none(),
        s.clear(p).cells[p].auto_candidates == s.cells[p].auto_candidates,
        s.clear(p).cells[p].manual_candidates == s.cells[p].manual_candidates,
        s.cells[p].edit_removes() == s.cells[p].digit,
        s.cells[p].edit_removes().is_some(),
{
    assert(s.cells[p].wf());
}

/// The hint is a cell that is not fixed and has no more automatic
/// candidates than any other cell that is not fixed; only the selection
/// changes when it is selected.
pub proof fn law_find_hint(s: GameView, q: int)
    requires
        s.wf(),
        s.has_free_cell(),
        0 <= q < 81,
        !s.cells[q].fixed,
    ensures
        0 <= s.find_hint().selected < 81,
        !s.cells[s.find_hint().selected].fixed,
        s.auto_count(s.find_hint().selected) <= s.auto_count(q),
        s.find_hint() == s.select_cell(s.find_hint().selected),
{
    lemma_find_hint_wf(s);
}

/// When every cell holds the digit of the answer, the solved signal is due
/// once: holding the grid against the answer a second time gives none.
pub proof fn law_solved_fires_once(s: GameView)
    requires
        s.wf(),
        !s.solved,
        s.all_correct(),
    ensures
        s.solved_fires(),
        !s.check_solved().solved_fires(),
        !s.check_solved().check_solved().solved_fires(),
{
    assert(s.check_solved().solved);
}

/// Where the answer is a solved grid, a game in which every cell holds the
/// digit of the answer shows a solved grid.
pub proof fn law_all_correct_is_solved(s: GameView)
    requires
        s.wf(),
        s.all_correct(),
        solved_grid(s.solution),
    ensures
        solved_grid(committed_digits(s)),
{
    assert(committed_digits(s) =~= s.solution);
}

/// Once the solved signal was given, no event makes it go out again.
pub proof fn law_solved_stays_quiet(s: GameView, event: GameEvent)
    requires
        s.wf(),
        s.solved,
        event.wf(),
    ensures
        !s.announces_solved(event),
{
}

/// No event but a reset takes the solved signal back.
pub proof fn law_solved_latched(s: GameView, event: GameEvent)
    requires
        s.wf(),
        s.solved,
        event.wf(),
        event != GameEvent::ResetPuzzle,
    ensures
        s.handle(event).solved,
{
    match event {
        GameEvent::NewDigit(d) => {
            if !s.cells[s.selected].locked() {
                lemma_place_digit(s, s.selected, d);
            }
        },
        GameEvent::RevealCell => {
            lemma_reveal_cell_solved(s, s.selected);
        },
        GameEvent::RevealPuzzle => {
            lemma_reveal_cells_solved(s, 81);
        },
        _ => {},
    }
}

/// Revealing a cell does not take the solved signal back.
proof fn lemma_reveal_cell_solved(s: GameView, p: int)
    requires
        s.wf(),
        0 <= p < 81,
        s.solved,
    ensures
        s.reveal_cell(p).solved,
{
    if !s.cells[p].locked() {
        lemma_show_answer_wf(s, p);
    }
}

/// Revealing the first `n` cells does not take the solved signal back.
proof fn lemma_reveal_cells_solved(s: GameView, n: int)
    requires
        s.wf(),
        0 <= n <= 81,
        s.solved,
    ensures
        s.reveal_cells(n).solved,
    decreases n,
{
    if n > 0 {
        lemma_reveal_cells_solved(s, n - 1);
        lemma_reveal_cells_wf(s, n - 1);
        lemma_reveal_cell_solved(s.reveal_cells(n - 1), n - 1);
    }
}

/// An event leaves alone what the puzzle started from, the answer and the
/// settings.
pub proof fn law_handle_keeps_origin(s: GameView, event: GameEvent)
    requires
        s.wf(),
        event.wf(),
    ensures
        s.handle(event).grid_state == s.grid_state,
        s.handle(event).solution == s.solution,
        s.handle(event).settings == s.settings,
{
    match event {
        GameEvent::NewDigit(d) => {
            if !s.cells[s.selected].locked() {
                lemma_place_digit(s, s.selected, d);
            }
        },
        GameEvent::RevealCell => {
            lemma_reveal_cell_wf(s, s.selected);
        },
        GameEvent::RevealPuzzle => {
            lemma_reveal_cells_wf(s, 81);
        },
        _ => {},
    }
}

/// A row of events keeps the invariant, and leaves alone what the puzzle
/// started from, the answer and the settings.
pub proof fn law_play_keeps_origin(s: GameView, events: Seq<GameEvent>)
    requires
        s.wf(),
        forall|i: int| 0 <= i < events.len() ==> (#[trigger] events[i]).wf(),
    ensures
        s.play(events).wf(),
        s.play(events).grid_state == s.grid_state,
        s.play(events).solution == s.solution,
        s.play(events).settings == s.settings,
    decreases events.len(),
{
    if events.len() > 0 {
        let before = s.play(events.drop_last());
        law_play_keeps_origin(s, events.drop_last());
        lemma_handle_wf(before, events.last());
        law_handle_keeps_origin(before, events.last());
    }
}

/// Whatever was played since the start, a reset brings the game back to
/// its start.
pub proof fn law_reset_round_trip(
    grid_state: Seq<CellStateView>,
    solution: Seq<u8>,
    settings: Settings,
    events: Seq<GameEvent>,
)
    requires
        valid_grid_state(grid_state),
        valid_solution(solution),
        forall|i: int| 0 <= i < events.len() ==> (#[trigger] events[i]).wf(),
    ensures
        GameView::init(grid_state, solution, settings).play(events).reset_puzzle() == GameView::init(
            grid_state,
            solution,
            settings,
        ),
{
    lemma_init_wf(grid_state, solution, settings);
    law_play_keeps_origin(GameView::init(grid_state, solution, settings), events);
}

/// A game at its start, and so after a reset: the clues are fixed digits,
/// every other cell is in the candidate mode of the settings with the
/// automatic candidates that the grid state gave and no manual ones, no
/// cell is revealed or corrected, and there is no conflict.
pub proof fn law_reset_state(s: GameView, p: int)
    requires
        s.wf(),
        0 <= p < 81,
    ensures
        s.reset_puzzle().cells[p].fixed == s.cells[p].fixed,
        s.cells[p].fixed ==> s.reset_puzzle().cells[p] == s.cells[p],
        !s.cells[p].fixed ==> {
            &&& s.reset_puzzle().cells[p].mode == candidate_mode(
                s.settings.start_in_automatic_mode,
            )
            &&& s.reset_puzzle().cells[p].digit.is_none()
            &&& s.grid_state[p] == CellStateView::Candidates(
                s.reset_puzzle().cells[p].auto_candidates,
            )
            &&& s.reset_puzzle().cells[p].manual_candidates == Set::<int>::empty()
        },
        !s.reset_puzzle().cells[p].revealed,
        !s.reset_puzzle().cells[p].correction,
        s.reset_puzzle().conflicts[p] == Set::<int>::empty(),
        s.reset_puzzle().selected == 0,
        !s.reset_puzzle().solved,
{
    assert(s.cells[p].wf());
}

} // verus!
