use bevy_sudoku::candidates::CandidateSet;
use bevy_sudoku::cell_state::{CellMode, CellState, CellValueBundle};

fn set_of(digits: &[u8]) -> CandidateSet {
    let mut set = CandidateSet::none();
    for digit in digits {
        set.insert(*digit);
    }
    set
}

fn free_cell(auto_mode: bool) -> CellValueBundle {
    CellValueBundle::from_cell_state(CellState::Candidates(set_of(&[1, 2, 5])), auto_mode)
}

#[test]
fn a_digit_seeds_a_fixed_cell() {
    let cell = CellValueBundle::from_cell_state(CellState::Digit(7), false);
    assert_eq!(cell.mode(), CellMode::Digit);
    assert_eq!(cell.digit(), Some(7));
    assert!(cell.is_fixed());
    assert!(cell.is_locked());
    assert!(!cell.is_revealed());
    assert!(!cell.has_correction());
    assert!(cell.auto_candidates().is_empty());
    assert!(cell.manual_candidates().is_empty());
    assert_eq!(cell.current_value(), CellState::Digit(7));
    assert_eq!(cell, CellValueBundle::from_cell_state(CellState::Digit(7), true));
}

#[test]
fn candidates_seed_the_automatic_slot() {
    let manual = free_cell(false);
    assert_eq!(manual.mode(), CellMode::ManualCandidates);
    assert_eq!(manual.digit(), None);
    assert!(!manual.is_fixed());
    assert!(!manual.is_locked());
    assert_eq!(manual.auto_candidates(), set_of(&[1, 2, 5]));
    assert!(manual.manual_candidates().is_empty());
    assert_eq!(manual.current_value(), CellState::Candidates(CandidateSet::none()));

    let auto = free_cell(true);
    assert_eq!(auto.mode(), CellMode::AutoCandidates);
    assert_eq!(auto.current_value(), CellState::Candidates(set_of(&[1, 2, 5])));
}

#[test]
fn cell_state_tells_digit_from_candidates() {
    assert!(CellState::Digit(3).is_digit());
    assert!(!CellState::Digit(3).is_candidates());
    assert!(CellState::Candidates(CandidateSet::all()).is_candidates());
    assert!(!CellState::Candidates(CandidateSet::all()).is_digit());
}

#[test]
fn commit_shows_the_digit_and_shadows_the_candidates() {
    let mut cell = free_cell(true);
    assert_eq!(cell.commit_digit(4), None);
    assert_eq!(cell.mode(), CellMode::Digit);
    assert_eq!(cell.digit(), Some(4));
    assert!(cell.holds_digit(4));
    assert!(!cell.holds_digit(5));
    assert_eq!(cell.current_value(), CellState::Digit(4));
    assert_eq!(cell.auto_candidates(), set_of(&[1, 2, 5]));
}

#[test]
fn commit_announces_the_digit_it_overwrites() {
    let mut cell = free_cell(false);
    assert_eq!(cell.commit_digit(4), None);
    assert_eq!(cell.commit_digit(4), None);
    assert_eq!(cell.commit_digit(6), Some(4));
    assert_eq!(cell.digit(), Some(6));
}

#[test]
fn a_fixed_cell_takes_no_edit() {
    let fixed = CellValueBundle::from_cell_state(CellState::Digit(7), false);
    let mut cell = fixed;
    assert_eq!(cell.commit_digit(3), None);
    assert_eq!(cell, fixed);
    assert_eq!(cell.toggle_candidate(3, true), None);
    assert_eq!(cell, fixed);
    assert_eq!(cell.clear(false), None);
    assert_eq!(cell, fixed);
    cell.reveal_digit(3);
    assert_eq!(cell, fixed);
    cell.check(3, true);
    assert_eq!(cell, fixed);
    cell.kick_candidate(7, true);
    assert_eq!(cell, fixed);
    cell.switch_candidate_mode(true);
    assert_eq!(cell, fixed);
}

#[test]
fn toggle_in_a_candidate_mode_changes_the_slot_of_that_mode() {
    let mut cell = free_cell(false);
    assert_eq!(cell.toggle_candidate(3, true), None);
    assert_eq!(cell.mode(), CellMode::ManualCandidates);
    assert_eq!(cell.manual_candidates(), set_of(&[3]));
    assert_eq!(cell.auto_candidates(), set_of(&[1, 2, 5]));
    assert_eq!(cell.toggle_candidate(3, false), None);
    assert!(cell.manual_candidates().is_empty());

    let mut auto = free_cell(true);
    assert_eq!(auto.toggle_candidate(2, false), None);
    assert_eq!(auto.mode(), CellMode::AutoCandidates);
    assert_eq!(auto.auto_candidates(), set_of(&[1, 5]));
    assert!(auto.manual_candidates().is_empty());
    assert_eq!(auto.toggle_candidate(2, false), None);
    assert_eq!(auto.auto_candidates(), set_of(&[1, 2, 5]));
}

#[test]
fn toggle_on_a_digit_moves_to_the_mode_of_the_flag() {
    let mut cell = free_cell(false);
    cell.commit_digit(8);
    assert_eq!(cell.toggle_candidate(3, false), Some(8));
    assert_eq!(cell.mode(), CellMode::ManualCandidates);
    assert_eq!(cell.digit(), None);
    assert_eq!(cell.manual_candidates(), set_of(&[3]));
    assert_eq!(cell.auto_candidates(), set_of(&[1, 2, 5]));

    let mut other = free_cell(false);
    other.commit_digit(8);
    assert_eq!(other.toggle_candidate(5, true), Some(8));
    assert_eq!(other.mode(), CellMode::AutoCandidates);
    assert_eq!(other.auto_candidates(), set_of(&[1, 2]));
    assert!(other.manual_candidates().is_empty());
}

#[test]
fn clear_on_a_digit_shows_the_candidates_behind_it() {
    let mut cell = free_cell(false);
    cell.toggle_candidate(3, false);
    cell.toggle_candidate(4, false);
    cell.commit_digit(9);
    assert_eq!(cell.clear(false), Some(9));
    assert_eq!(cell.mode(), CellMode::ManualCandidates);
    assert_eq!(cell.digit(), None);
    assert_eq!(cell.manual_candidates(), set_of(&[3, 4]));
    assert_eq!(cell.auto_candidates(), set_of(&[1, 2, 5]));

    let mut auto = cell;
    auto.commit_digit(9);
    assert_eq!(auto.clear(true), Some(9));
    assert_eq!(auto.mode(), CellMode::AutoCandidates);
    assert_eq!(auto.current_value(), CellState::Candidates(set_of(&[1, 2, 5])));
}

#[test]
fn clear_empties_the_manual_slot_and_spares_the_automatic_one() {
    let mut cell = free_cell(false);
    cell.toggle_candidate(3, false);
    assert_eq!(cell.clear(false), None);
    assert_eq!(cell.mode(), CellMode::ManualCandidates);
    assert!(cell.manual_candidates().is_empty());
    assert_eq!(cell.auto_candidates(), set_of(&[1, 2, 5]));

    let mut auto = free_cell(true);
    let before = auto;
    assert_eq!(auto.clear(false), None);
    assert_eq!(auto, before);
}

#[test]
fn clear_takes_the_correction_mark_away() {
    let mut cell = free_cell(false);
    cell.commit_digit(9);
    cell.check(1, false);
    assert!(cell.has_correction());
    assert_eq!(cell.clear(false), Some(9));
    assert!(!cell.has_correction());
}

#[test]
fn reveal_forces_the_digit_and_locks_the_cell() {
    let mut cell = free_cell(false);
    cell.commit_digit(2);
    cell.reveal_digit(6);
    assert_eq!(cell.mode(), CellMode::Digit);
    assert_eq!(cell.digit(), Some(6));
    assert!(cell.is_revealed());
    assert!(cell.is_locked());
    assert!(!cell.is_fixed());
    let revealed = cell;
    assert_eq!(cell.commit_digit(1), None);
    assert_eq!(cell.toggle_candidate(1, false), None);
    assert_eq!(cell.clear(false), None);
    assert_eq!(cell, revealed);
}

#[test]
fn kick_takes_the_digit_out_of_the_slot_of_the_flag() {
    let mut cell = free_cell(false);
    cell.toggle_candidate(5, false);
    cell.toggle_candidate(6, false);
    cell.kick_candidate(5, false);
    assert_eq!(cell.manual_candidates(), set_of(&[6]));
    assert_eq!(cell.auto_candidates(), set_of(&[1, 2, 5]));
    cell.kick_candidate(5, true);
    assert_eq!(cell.manual_candidates(), set_of(&[6]));
    assert_eq!(cell.auto_candidates(), set_of(&[1, 2]));
    let once = cell;
    cell.kick_candidate(5, true);
    assert_eq!(cell, once);
}

#[test]
fn kick_spares_a_cell_in_digit_mode() {
    let mut cell = free_cell(true);
    cell.commit_digit(9);
    let before = cell;
    cell.kick_candidate(5, true);
    assert_eq!(cell, before);
    assert_eq!(cell.auto_candidates(), set_of(&[1, 2, 5]));
}

#[test]
fn switch_follows_the_flag_in_a_candidate_mode_only() {
    let mut cell = free_cell(false);
    cell.switch_candidate_mode(true);
    assert_eq!(cell.mode(), CellMode::AutoCandidates);
    cell.switch_candidate_mode(false);
    assert_eq!(cell.mode(), CellMode::ManualCandidates);
    cell.commit_digit(3);
    cell.switch_candidate_mode(true);
    assert_eq!(cell.mode(), CellMode::Digit);
}

#[test]
fn check_marks_a_wrong_digit_and_clears_the_mark_of_a_right_one() {
    let mut cell = free_cell(false);
    cell.check(4, true);
    assert!(!cell.has_correction());
    assert!(!cell.is_revealed());
    cell.commit_digit(3);
    cell.check(4, true);
    assert!(cell.has_correction());
    assert!(!cell.is_revealed());
    cell.commit_digit(4);
    assert!(cell.has_correction());
    cell.check(4, false);
    assert!(!cell.has_correction());
    assert!(!cell.is_revealed());
    cell.check(4, true);
    assert!(cell.is_revealed());
    assert!(cell.is_locked());
}
