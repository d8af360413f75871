use bevy_sudoku::candidates::CandidateSet;
use bevy_sudoku::cell_state::{CellMode, CellState};
use bevy_sudoku::events::{GameEvent, MoveSelectCell, Signals};
use bevy_sudoku::manager::SudokuManager;
use bevy_sudoku::position::CellPosition;
use bevy_sudoku::settings::Settings;

const SOLUTION: &str =
    "483921657967345821251876493548132976729564138136798245372689514814253769695417382";

const CLUES: [u8; 30] = [
    2, 7, 12, 17, 22, 24, 25, 29, 31, 33, 36, 38, 40, 42, 44, 47, 49, 51, 53, 56, 58, 60, 63, 65,
    68, 69, 71, 74, 78, 80,
];

const PEERS_OF_FIRST: [u8; 20] =
    [1, 2, 3, 4, 5, 6, 7, 8, 9, 10, 11, 18, 19, 20, 27, 36, 45, 54, 63, 72];

fn solution() -> Vec<u8> {
    SOLUTION.bytes().map(|b| b - b'0').collect()
}

fn puzzle() -> Vec<u8> {
    let solution = solution();
    (0..81u8).map(|p| if CLUES.contains(&p) { solution[p as usize] } else { 0 }).collect()
}

fn set_of(digits: &[u8]) -> CandidateSet {
    let mut set = CandidateSet::none();
    for digit in digits {
        set.insert(*digit);
    }
    set
}

fn grid_state(puzzle: &[u8]) -> Vec<CellState> {
    (0..81u8)
        .map(|p| {
            if puzzle[p as usize] != 0 {
                CellState::Digit(puzzle[p as usize])
            } else {
                let mut set = CandidateSet::all();
                for q in 0..81u8 {
                    if CellPosition::new(p).is_peer(&CellPosition::new(q))
                        && puzzle[q as usize] != 0
                    {
                        set.remove(puzzle[q as usize]);
                    }
                }
                CellState::Candidates(set)
            }
        })
        .collect()
}

fn settings(check_guesses_when_entered: bool, start_in_automatic_mode: bool) -> Settings {
    Settings { check_guesses_when_entered, start_in_automatic_mode, ..Settings::default() }
}

fn game(settings: Settings) -> SudokuManager {
    SudokuManager::from_grid_state(grid_state(&puzzle()), solution(), settings)
}

fn at(p: u8) -> CellPosition {
    CellPosition::new(p)
}

fn active(game: &SudokuManager, p: u8) -> CandidateSet {
    match game.cell(at(p)).current_value() {
        CellState::Candidates(set) => set,
        CellState::Digit(_) => panic!("cell {} shows a digit", p),
    }
}

fn conflicts(game: &SudokuManager, p: u8) -> Vec<u8> {
    (0..81u8).filter(|q| game.in_conflict_with(at(p), at(*q))).collect()
}

fn no_signal() -> Signals {
    Signals { remove_digit: None, sudoku_solved: false, reset_timer: false }
}

fn removed(digit: u8) -> Signals {
    Signals { remove_digit: Some(digit), sudoku_solved: false, reset_timer: false }
}

#[test]
fn default_settings() {
    let settings = Settings::default();
    assert!(!settings.check_guesses_when_entered);
    assert!(!settings.start_in_automatic_mode);
    assert!(settings.highlight_conflicts);
    assert!(settings.play_sound_on_solve);
    assert!(settings.show_clock);
}

#[test]
fn a_game_starts_with_its_clues_fixed_and_the_first_cell_selected() {
    let game = game(Settings::default());
    let puzzle = puzzle();
    assert_eq!(game.selected(), at(0));
    assert!(!game.is_solved());
    assert!(!game.auto_candidate_mode());
    assert_eq!(game.settings(), Settings::default());
    for p in 0..81u8 {
        let cell = game.cell(at(p));
        assert_eq!(game.answer(at(p)), solution()[p as usize]);
        assert!(!game.has_conflict(at(p)));
        assert!(!cell.is_revealed());
        assert!(!cell.has_correction());
        assert!(cell.manual_candidates().is_empty());
        if CLUES.contains(&p) {
            assert!(cell.is_fixed());
            assert_eq!(cell.mode(), CellMode::Digit);
            assert_eq!(cell.digit(), Some(puzzle[p as usize]));
        } else {
            assert!(!cell.is_fixed());
            assert_eq!(cell.mode(), CellMode::ManualCandidates);
            assert_eq!(cell.digit(), None);
            assert!(!cell.auto_candidates().is_empty());
        }
    }
    assert_eq!(game.cell(at(0)).auto_candidates(), set_of(&[1, 2, 4, 6, 9]));
    assert_eq!(game.cell(at(9)).auto_candidates(), set_of(&[2, 4, 5, 6, 9]));
}

#[test]
fn a_game_starts_in_automatic_mode_where_the_settings_say_so() {
    let game = game(settings(false, true));
    assert!(game.auto_candidate_mode());
    assert_eq!(game.cell(at(0)).mode(), CellMode::AutoCandidates);
    assert_eq!(active(&game, 0), set_of(&[1, 2, 4, 6, 9]));
    assert_eq!(game.cell(at(2)).mode(), CellMode::Digit);
}

#[test]
fn commit_five_at_the_first_cell_of_a_puzzle_with_thirty_clues() {
    let mut game = game(settings(false, true));
    assert_eq!(puzzle().iter().filter(|d| **d != 0).count(), 30);
    let with_five: Vec<u8> = PEERS_OF_FIRST
        .iter()
        .copied()
        .filter(|q| !CLUES.contains(q) && active(&game, *q).contains(5))
        .collect();
    assert_eq!(with_five, vec![9, 10, 18, 19, 27]);
    let before = game.clone();

    let signals = game.commit_digit(at(0), 5);

    assert_eq!(signals, no_signal());
    assert_eq!(game.cell(at(0)).mode(), CellMode::Digit);
    assert_eq!(game.cell(at(0)).current_value(), CellState::Digit(5));
    let mut peers = 0;
    for q in 0..81u8 {
        if at(0).is_peer(&at(q)) {
            peers += 1;
            assert!(PEERS_OF_FIRST.contains(&q));
            if game.cell(at(q)).mode() != CellMode::Digit {
                assert!(!active(&game, q).contains(5));
                let mut expected = active(&before, q);
                expected.remove(5);
                assert_eq!(active(&game, q), expected);
            } else {
                assert_eq!(game.cell(at(q)), before.cell(at(q)));
            }
        } else if q != 0 {
            assert_eq!(game.cell(at(q)), before.cell(at(q)));
        }
    }
    assert_eq!(peers, 20);
    assert_eq!(game.cell(at(9)).auto_candidates(), set_of(&[2, 4, 6, 9]));
    assert_eq!(conflicts(&game, 0), vec![7]);
    assert_eq!(conflicts(&game, 7), vec![0]);
    assert!(game.has_conflict(at(0)));
    assert!(game.has_conflict(at(7)));
    for q in 0..81u8 {
        if q != 0 && q != 7 {
            assert!(!game.has_conflict(at(q)));
        }
    }
}

#[test]
fn commit_twice_is_commit_once() {
    let mut game = game(settings(false, true));
    game.commit_digit(at(0), 5);
    let once = game.clone();
    let signals = game.commit_digit(at(0), 5);
    assert_eq!(signals, no_signal());
    assert_eq!(game, once);
}

#[test]
fn commit_kicks_the_slot_of_the_flag() {
    let mut game = game(Settings::default());
    game.toggle_candidate(at(9), 5);
    game.toggle_candidate(at(9), 6);
    game.toggle_candidate(at(40 + 1), 5);
    assert_eq!(active(&game, 9), set_of(&[5, 6]));

    game.commit_digit(at(0), 5);

    assert_eq!(active(&game, 9), set_of(&[6]));
    assert_eq!(game.cell(at(9)).auto_candidates(), set_of(&[2, 4, 5, 6, 9]));
    assert_eq!(active(&game, 41), set_of(&[5]));
}

#[test]
fn commit_on_a_clue_changes_nothing() {
    let mut game = game(Settings::default());
    let before = game.clone();
    assert_eq!(game.commit_digit(at(2), 9), no_signal());
    assert_eq!(game, before);
}

#[test]
fn conflicts_go_both_ways_at_every_step() {
    let mut game = game(Settings::default());
    let steps: [(u8, u8); 8] =
        [(0, 5), (1, 5), (9, 5), (10, 3), (0, 3), (1, 3), (9, 4), (19, 3)];
    for (p, d) in steps {
        game.commit_digit(at(p), d);
        for a in 0..81u8 {
            for b in 0..81u8 {
                assert_eq!(
                    game.in_conflict_with(at(a), at(b)),
                    game.in_conflict_with(at(b), at(a))
                );
                if game.in_conflict_with(at(a), at(b)) {
                    assert!(at(a).is_peer(&at(b)));
                    assert_eq!(game.cell(at(a)).digit(), game.cell(at(b)).digit());
                }
            }
        }
    }
    assert_eq!(conflicts(&game, 0), vec![1, 2, 10, 19]);
    assert_eq!(conflicts(&game, 2), vec![0, 1, 10, 19]);
    assert_eq!(conflicts(&game, 9), Vec::<u8>::new());
}

#[test]
fn overwriting_a_digit_moves_its_conflicts() {
    let mut game = game(Settings::default());
    game.commit_digit(at(0), 5);
    assert_eq!(conflicts(&game, 7), vec![0]);
    let signals = game.commit_digit(at(0), 3);
    assert_eq!(signals, removed(5));
    assert_eq!(conflicts(&game, 7), Vec::<u8>::new());
    assert_eq!(conflicts(&game, 0), vec![2]);
    assert_eq!(conflicts(&game, 2), vec![0]);
}

#[test]
fn clearing_a_digit_clears_its_conflicts() {
    let mut game = game(Settings::default());
    game.commit_digit(at(0), 5);
    game.commit_digit(at(1), 5);
    assert_eq!(conflicts(&game, 0), vec![1, 7]);
    assert_eq!(conflicts(&game, 1), vec![0, 7]);
    assert_eq!(conflicts(&game, 7), vec![0, 1]);

    let signals = game.clear(at(0));

    assert_eq!(signals, removed(5));
    assert_eq!(conflicts(&game, 0), Vec::<u8>::new());
    assert!(!game.has_conflict(at(0)));
    for q in 0..81u8 {
        assert!(!game.in_conflict_with(at(q), at(0)));
    }
    assert_eq!(conflicts(&game, 1), vec![7]);
    assert_eq!(conflicts(&game, 7), vec![1]);
}

#[test]
fn a_candidate_in_place_of_a_digit_clears_its_conflicts() {
    let mut game = game(Settings::default());
    game.commit_digit(at(0), 5);
    let signals = game.toggle_candidate(at(0), 1);
    assert_eq!(signals, removed(5));
    assert_eq!(game.cell(at(0)).mode(), CellMode::ManualCandidates);
    assert_eq!(active(&game, 0), set_of(&[1]));
    assert!(!game.has_conflict(at(0)));
    assert!(!game.has_conflict(at(7)));
}

#[test]
fn clear_on_a_clue_changes_nothing() {
    let mut game = game(Settings::default());
    let before = game.clone();
    assert_eq!(game.clear(at(2)), no_signal());
    assert_eq!(game, before);
    assert_eq!(game.toggle_candidate(at(2), 4), no_signal());
    assert_eq!(game, before);
}

#[test]
fn clear_on_a_digit_goes_to_the_mode_of_the_flag() {
    let mut game = game(Settings::default());
    game.toggle_candidate(at(0), 1);
    game.toggle_candidate(at(0), 2);
    game.commit_digit(at(0), 4);
    assert_eq!(game.clear(at(0)), removed(4));
    assert_eq!(game.cell(at(0)).mode(), CellMode::ManualCandidates);
    assert_eq!(active(&game, 0), set_of(&[1, 2]));
    assert_eq!(game.clear(at(0)), no_signal());
    assert_eq!(active(&game, 0), CandidateSet::none());
    assert_eq!(game.cell(at(0)).auto_candidates(), set_of(&[1, 2, 4, 6, 9]));

    game.commit_digit(at(0), 4);
    game.set_auto_candidate_mode(true);
    assert_eq!(game.clear(at(0)), removed(4));
    assert_eq!(game.cell(at(0)).mode(), CellMode::AutoCandidates);
    assert_eq!(active(&game, 0), set_of(&[1, 2, 4, 6, 9]));
    assert_eq!(game.clear(at(0)), no_signal());
    assert_eq!(active(&game, 0), set_of(&[1, 2, 4, 6, 9]));
}

#[test]
fn the_flag_moves_every_candidate_cell_to_its_slot() {
    let mut game = game(Settings::default());
    game.commit_digit(at(0), 4);
    game.set_auto_candidate_mode(true);
    assert!(game.auto_candidate_mode());
    for p in 0..81u8 {
        let expected = if CLUES.contains(&p) || p == 0 {
            CellMode::Digit
        } else {
            CellMode::AutoCandidates
        };
        assert_eq!(game.cell(at(p)).mode(), expected);
    }
    assert_eq!(game.handle(GameEvent::ToggleCandidateModeFlag), no_signal());
    assert!(!game.auto_candidate_mode());
    assert_eq!(game.cell(at(1)).mode(), CellMode::ManualCandidates);
    assert_eq!(game.cell(at(0)).mode(), CellMode::Digit);
}

#[test]
fn the_hint_is_the_first_cell_with_the_fewest_automatic_candidates() {
    let mut game = game(Settings::default());
    game.select_cell(at(40));
    let hint = game.find_hint();
    assert_eq!(hint, Some(at(11)));
    assert_eq!(game.selected(), at(11));
    assert_eq!(game.cell(at(11)).auto_candidates().len(), 1);
    assert_eq!(game.cell(at(20)).auto_candidates().len(), 1);
    for p in 0..81u8 {
        let cell = game.cell(at(p));
        if !cell.is_fixed() {
            assert!(cell.auto_candidates().len() >= 1);
        }
    }
}

#[test]
fn the_hint_looks_at_the_automatic_slot_of_a_cell_with_a_digit_too() {
    let mut game = game(settings(false, true));
    game.toggle_candidate(at(0), 1);
    game.toggle_candidate(at(0), 2);
    game.toggle_candidate(at(0), 4);
    game.toggle_candidate(at(0), 6);
    game.toggle_candidate(at(0), 9);
    assert!(game.cell(at(0)).auto_candidates().is_empty());
    game.commit_digit(at(0), 4);
    assert_eq!(game.find_hint(), Some(at(0)));
    assert_eq!(game.selected(), at(0));
}

#[test]
fn no_hint_where_every_cell_is_a_clue() {
    let full: Vec<CellState> = solution().iter().map(|d| CellState::Digit(*d)).collect();
    let mut game = SudokuManager::from_grid_state(full, solution(), Settings::default());
    game.select_cell(at(5));
    let before = game.clone();
    assert_eq!(game.find_hint(), None);
    assert_eq!(game, before);
    assert_eq!(game.handle(GameEvent::FindHint), no_signal());
    assert_eq!(game, before);
}

#[test]
fn the_selection_moves_and_stops_at_the_edge() {
    let mut game = game(Settings::default());
    game.move_select_cell(MoveSelectCell::Up);
    assert_eq!(game.selected(), at(0));
    game.move_select_cell(MoveSelectCell::Left);
    assert_eq!(game.selected(), at(0));
    game.move_select_cell(MoveSelectCell::Right);
    assert_eq!(game.selected(), at(1));
    game.move_select_cell(MoveSelectCell::Down);
    assert_eq!(game.selected(), at(10));
    game.move_select_cell(MoveSelectCell::Left);
    assert_eq!(game.selected(), at(9));
    game.move_select_cell(MoveSelectCell::Up);
    assert_eq!(game.selected(), at(0));
    game.select_cell(at(80));
    game.move_select_cell(MoveSelectCell::Down);
    assert_eq!(game.selected(), at(80));
    game.move_select_cell(MoveSelectCell::Right);
    assert_eq!(game.selected(), at(80));
    game.select_cell(at(8));
    game.move_select_cell(MoveSelectCell::Right);
    assert_eq!(game.selected(), at(8));
    assert_eq!(game.handle(GameEvent::MoveSelection(MoveSelectCell::Down)), no_signal());
    assert_eq!(game.selected(), at(17));
}

#[test]
fn check_cell_marks_a_wrong_digit() {
    let mut game = game(Settings::default());
    game.check_cell(at(0));
    assert!(!game.cell(at(0)).has_correction());
    game.commit_digit(at(0), 5);
    assert!(!game.cell(at(0)).has_correction());
    game.check_cell(at(0));
    assert!(game.cell(at(0)).has_correction());
    assert!(!game.cell(at(0)).is_revealed());
    game.commit_digit(at(0), 4);
    game.check_cell(at(0));
    assert!(!game.cell(at(0)).has_correction());
    assert!(!game.cell(at(0)).is_revealed());
    let before = game.clone();
    game.check_cell(at(2));
    assert_eq!(game, before);
}

#[test]
fn a_guess_checked_when_entered_is_marked_or_confirmed() {
    let mut game = game(settings(true, false));
    game.commit_digit(at(0), 5);
    assert!(game.cell(at(0)).has_correction());
    assert!(!game.cell(at(0)).is_revealed());
    assert_eq!(game.commit_digit(at(0), 4), removed(5));
    assert!(!game.cell(at(0)).has_correction());
    assert!(game.cell(at(0)).is_revealed());
    let confirmed = game.clone();
    assert_eq!(game.commit_digit(at(0), 5), no_signal());
    assert_eq!(game.clear(at(0)), no_signal());
    assert_eq!(game.toggle_candidate(at(0), 1), no_signal());
    assert_eq!(game, confirmed);
}

#[test]
fn check_puzzle_marks_every_wrong_digit_and_confirms_none() {
    let mut game = game(settings(false, false));
    game.commit_digit(at(0), 5);
    game.commit_digit(at(1), 8);
    game.commit_digit(at(3), 1);
    game.check_cell(at(1));
    game.commit_digit(at(4), 3);
    game.check_cell(at(4));
    game.commit_digit(at(4), 2);
    game.set_settings(settings(true, false));
    assert!(game.cell(at(4)).has_correction());

    game.check_puzzle();

    assert!(game.cell(at(0)).has_correction());
    assert!(!game.cell(at(1)).has_correction());
    assert!(game.cell(at(3)).has_correction());
    assert!(!game.cell(at(4)).has_correction());
    for p in 0..81u8 {
        assert!(!game.cell(at(p)).is_revealed());
        if ![0u8, 3].contains(&p) {
            assert!(!game.cell(at(p)).has_correction());
        }
    }
}

#[test]
fn reveal_cell_shows_the_answer_and_locks_the_cell() {
    let mut game = game(settings(false, true));
    game.commit_digit(at(0), 5);
    let signals = game.reveal_cell(at(0));
    assert_eq!(signals, removed(5));
    let cell = game.cell(at(0));
    assert_eq!(cell.digit(), Some(4));
    assert!(cell.is_revealed());
    assert!(!cell.is_fixed());
    assert!(!game.has_conflict(at(0)));
    assert!(!game.has_conflict(at(7)));
    assert!(!active(&game, 9).contains(4));
    assert!(!active(&game, 1).contains(4));
    let revealed = game.clone();
    assert_eq!(game.reveal_cell(at(0)), no_signal());
    assert_eq!(game.commit_digit(at(0), 5), no_signal());
    assert_eq!(game, revealed);
    assert_eq!(game.reveal_cell(at(2)), no_signal());
    assert_eq!(game, revealed);
}

#[test]
fn reveal_puzzle_solves_the_grid_and_signals_once() {
    let mut game = game(Settings::default());
    let signals = game.reveal_puzzle();
    assert_eq!(signals, Signals { remove_digit: None, sudoku_solved: true, reset_timer: false });
    assert!(game.is_solved());
    for p in 0..81u8 {
        let cell = game.cell(at(p));
        assert_eq!(cell.digit(), Some(solution()[p as usize]));
        assert_eq!(cell.is_revealed(), !cell.is_fixed());
        assert!(!game.has_conflict(at(p)));
    }
    assert_eq!(game.reveal_puzzle(), no_signal());
    assert!(!game.check_solved());
    assert_eq!(game.commit_digit(at(0), 4), no_signal());
    assert!(game.is_solved());
}

#[test]
fn the_last_right_digit_gives_the_solved_signal_once() {
    let mut game = game(Settings::default());
    let solution = solution();
    let free: Vec<u8> = (0..81u8).filter(|p| !CLUES.contains(p)).collect();
    let (last, others) = free.split_last().unwrap();
    for p in others {
        let signals = game.commit_digit(at(*p), solution[*p as usize]);
        assert!(!signals.sudoku_solved);
        assert!(!game.is_solved());
        assert!(!game.check_solved());
    }
    let signals = game.commit_digit(at(*last), solution[*last as usize]);
    assert_eq!(signals, Signals { remove_digit: None, sudoku_solved: true, reset_timer: false });
    assert!(game.is_solved());
    assert_eq!(game.commit_digit(at(*last), solution[*last as usize]), no_signal());
    assert!(!game.check_solved());
    assert_eq!(game.commit_digit(at(0), 5), removed(4));
    assert_eq!(game.commit_digit(at(0), 4), removed(5));
    assert!(game.is_solved());
    assert!(!game.check_solved());
}

#[test]
fn check_solved_fires_on_a_grid_that_is_all_clues() {
    let full: Vec<CellState> = solution().iter().map(|d| CellState::Digit(*d)).collect();
    let mut game = SudokuManager::from_grid_state(full, solution(), Settings::default());
    assert!(!game.is_solved());
    assert!(game.check_solved());
    assert!(game.is_solved());
    assert!(!game.check_solved());
    assert!(game.is_solved());
}

#[test]
fn reset_brings_the_game_back_to_its_start() {
    let fresh = game(settings(false, true));
    let mut game = fresh.clone();
    game.commit_digit(at(0), 5);
    game.toggle_candidate(at(1), 3);
    game.commit_digit(at(1), 5);
    game.set_auto_candidate_mode(false);
    game.toggle_candidate(at(3), 3);
    game.reveal_cell(at(4));
    game.check_puzzle();
    game.find_hint();
    game.move_select_cell(MoveSelectCell::Down);
    game.clear(at(0));
    assert!(game != fresh);

    let signals = game.reset_puzzle();

    assert_eq!(signals, Signals { remove_digit: None, sudoku_solved: false, reset_timer: true });
    assert_eq!(game, fresh);
    assert_eq!(game.selected(), at(0));
    for p in 0..81u8 {
        assert!(!game.has_conflict(at(p)));
        assert!(!game.cell(at(p)).is_revealed());
        assert!(!game.cell(at(p)).has_correction());
        assert!(game.cell(at(p)).manual_candidates().is_empty());
    }
}

#[test]
fn reset_after_the_grid_was_solved_allows_the_signal_again() {
    let mut game = game(Settings::default());
    assert!(game.reveal_puzzle().sudoku_solved);
    assert!(game.handle(GameEvent::ResetPuzzle).reset_timer);
    assert!(!game.is_solved());
    assert_eq!(game.cell(at(0)).digit(), None);
    assert!(game.reveal_puzzle().sudoku_solved);
}

#[test]
fn events_target_the_selected_cell() {
    let mut game = game(Settings::default());
    game.select_cell(at(9));
    assert_eq!(game.handle(GameEvent::NewDigit(5)), no_signal());
    assert_eq!(game.cell(at(9)).digit(), Some(5));
    assert_eq!(game.cell(at(0)).digit(), None);
    assert_eq!(game.handle(GameEvent::NewCandidate(2)), removed(5));
    assert_eq!(active(&game, 9), set_of(&[2]));
    assert_eq!(game.handle(GameEvent::NewDigit(5)), no_signal());
    assert_eq!(game.handle(GameEvent::CheckCell), no_signal());
    assert!(game.cell(at(9)).has_correction());
    assert_eq!(game.handle(GameEvent::CleanCell), removed(5));
    assert_eq!(game.cell(at(9)).mode(), CellMode::ManualCandidates);
    assert!(!game.cell(at(9)).has_correction());
    assert_eq!(active(&game, 9), set_of(&[2]));
    assert_eq!(game.handle(GameEvent::RevealCell), no_signal());
    assert_eq!(game.cell(at(9)).digit(), Some(9));
    assert!(game.cell(at(9)).is_revealed());
    game.select_cell(at(0));
    game.handle(GameEvent::NewDigit(5));
    assert_eq!(game.handle(GameEvent::CheckPuzzle), no_signal());
    assert!(game.cell(at(0)).has_correction());
    assert_eq!(game.handle(GameEvent::FindHint), no_signal());
    assert_eq!(game.selected(), at(11));
    let signals = game.handle(GameEvent::RevealPuzzle);
    assert!(signals.sudoku_solved);
    assert_eq!(signals.remove_digit, None);
}

#[test]
fn signals_none_announces_nothing() {
    assert_eq!(Signals::none(), no_signal());
}
