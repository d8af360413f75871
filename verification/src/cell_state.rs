//! The state of one cell: a mode and three value slots behind it.
//!
//! A cell shows either a committed digit or one of two sets of candidates:
//! the automatic set, which shrinks when digits are placed in range of the
//! cell, and the manual set, which only the player changes. Committing a
//! digit shadows both sets without erasing them.

use crate::candidates::{is_digit, toggled, CandidateSet};
use vstd::prelude::*;

verus! {

/// Which of its three slots a cell shows.
#[derive(Clone, Copy, Debug, PartialEq, Eq, Hash, Structural)]
pub enum CellMode {
    Digit,
    AutoCandidates,
    ManualCandidates,
}

/// The candidate mode that the candidate-mode flag selects.
pub open spec fn candidate_mode(auto_mode: bool) -> CellMode {
    if auto_mode {
        CellMode::AutoCandidates
    } else {
        CellMode::ManualCandidates
    }
}

/// What a cell holds at one moment: a digit, or the digits still possible.
#[derive(Clone, Copy, Debug, PartialEq, Eq, Hash)]
pub enum CellState {
    Digit(u8),
    Candidates(CandidateSet),
}

/// The mathematical value of a [`CellState`].
pub enum CellStateView {
    Digit(u8),
    Candidates(Set<int>),
}

impl CellStateView {
    /// A digit is from 1 to 9, and candidates are digits.
    pub open spec fn wf(self) -> bool {
        match self {
            CellStateView::Digit(d) => is_digit(d as int),
            CellStateView::Candidates(c) => forall|d: int| #[trigger] c.contains(d) ==> is_digit(d),
        }
    }
}

impl View for CellState {
    type V = CellStateView;

    open spec fn view(&self) -> CellStateView {
        match *self {
            CellState::Digit(d) => CellStateView::Digit(d),
            CellState::Candidates(c) => CellStateView::Candidates(c@),
        }
    }
}

impl CellState {
    /// A digit is from 1 to 9, and a candidate set is well formed.
    pub open spec fn wf(&self) -> bool {
        match *self {
            CellState::Digit(d) => is_digit(d as int),
            CellState::Candidates(c) => c.wf(),
        }
    }

    /// A well-formed value has a well-formed view.
    pub proof fn lemma_wf(&self)
        requires
            self.wf(),
        ensures
            self@.wf(),
    {
        match *self {
            CellState::Digit(_) => {},
            CellState::Candidates(c) => {
                c.lemma_view();
            },
        }
    }

    pub fn is_digit(&self) -> (r: bool)
        ensures
            r == (self@ is Digit),
    {
        match self {
            CellState::Digit(_) => true,
            CellState::Candidates(_) => false,
        }
    }

    pub fn is_candidates(&self) -> (r: bool)
        ensures
            r == (self@ is Candidates),
    {
        match self {
            CellState::Digit(_) => false,
            CellState::Candidates(_) => true,
        }
    }
}

/// The mathematical value of a cell.
pub struct CellView {
    pub mode: CellMode,
    pub digit: Option<u8>,
    pub auto_candidates: Set<int>,
    pub manual_candidates: Set<int>,
    pub fixed: bool,
    pub revealed: bool,
    pub correction: bool,
}

impl CellView {
    /// The invariant of a cell: it holds a digit exactly in digit mode, the
    /// digit is from 1 to 9, candidates are digits, and a fixed cell is a
    /// digit without candidates that was never revealed nor corrected.
    pub open spec fn wf(self) -> bool {
        &&& self.mode == CellMode::Digit <==> self.digit.is_some()
        &&& self.digit matches Some(d) ==> is_digit(d as int)
        &&& forall|d: int| #[trigger] self.auto_candidates.contains(d) ==> is_digit(d)
        &&& forall|d: int| #[trigger] self.manual_candidates.contains(d) ==> is_digit(d)
        &&& self.fixed ==> {
            &&& self.mode == CellMode::Digit
            &&& !self.revealed
            &&& !self.correction
            &&& self.auto_candidates == Set::<int>::empty()
            &&& self.manual_candidates == Set::<int>::empty()
        }
    }

    /// A locked cell takes no edit: it is a clue, or its digit was revealed.
    pub open spec fn locked(self) -> bool {
        self.fixed || self.revealed
    }

    /// The candidates that the cell shows; none in digit mode.
    pub open spec fn active_candidates(self) -> Set<int> {
        match self.mode {
            CellMode::Digit => Set::empty(),
            CellMode::AutoCandidates => self.auto_candidates,
            CellMode::ManualCandidates => self.manual_candidates,
        }
    }

    /// The value that the cell shows: the digit in digit mode, else the
    /// candidate set of its mode.
    pub open spec fn current_value(self) -> CellStateView
        recommends
            self.wf(),
    {
        match self.mode {
            CellMode::Digit => CellStateView::Digit(self.digit.unwrap()),
            CellMode::AutoCandidates => CellStateView::Candidates(self.auto_candidates),
            CellMode::ManualCandidates => CellStateView::Candidates(self.manual_candidates),
        }
    }

    /// The cell that a puzzle starts with: a digit makes a fixed cell, a
    /// candidate set fills the automatic slot of a cell in the candidate mode
    /// that the flag selects.
    pub open spec fn from_cell_state(cell_state: CellStateView, auto_candidates: bool) -> CellView {
        match cell_state {
            CellStateView::Digit(d) => CellView {
                mode: CellMode::Digit,
                digit: Some(d),
                auto_candidates: Set::empty(),
                manual_candidates: Set::empty(),
                fixed: true,
                revealed: false,
                correction: false,
            },
            CellStateView::Candidates(c) => CellView {
                mode: candidate_mode(auto_candidates),
                digit: None,
                auto_candidates: c,
                manual_candidates: Set::empty(),
                fixed: false,
                revealed: false,
                correction: false,
            },
        }
    }

    /// The cell after the digit `d` is committed. A locked cell stays as it
    /// is; the candidate sets are shadowed, not erased.
    pub open spec fn commit_digit(self, d: u8) -> CellView {
        if self.locked() {
            self
        } else {
            CellView { mode: CellMode::Digit, digit: Some(d), ..self }
        }
    }

    /// The digit whose removal a commit of `d` announces: the one it
    /// overwrites, where that is another digit.
    pub open spec fn commit_removes(self, d: u8) -> Option<u8> {
        if !self.locked() && self.digit.is_some() && self.digit != Some(d) {
            self.digit
        } else {
            None
        }
    }

    /// The digit whose removal a toggle or a clear announces: the committed
    /// digit of a cell that is not locked.
    pub open spec fn edit_removes(self) -> Option<u8> {
        if !self.locked() && self.mode == CellMode::Digit {
            self.digit
        } else {
            None
        }
    }

    /// The cell after the candidate `d` is toggled. In digit mode the digit
    /// leaves and the cell enters the mode that the flag selects, then that
    /// slot is toggled; in a candidate mode the slot of that mode is toggled,
    /// whatever the flag says.
    pub open spec fn toggle_candidate(self, d: u8, auto_mode: bool) -> CellView {
        if self.locked() {
            self
        } else {
            let mode = if self.mode == CellMode::Digit {
                candidate_mode(auto_mode)
            } else {
                self.mode
            };
            if mode == CellMode::AutoCandidates {
                CellView {
                    mode,
                    digit: None,
                    auto_candidates: toggled(self.auto_candidates, d as int),
                    ..self
                }
            } else {
                CellView {
                    mode,
                    digit: None,
                    manual_candidates: toggled(self.manual_candidates, d as int),
                    ..self
                }
            }
        }
    }

    /// The cell after it is cleared. In digit mode the digit leaves and the
    /// candidate sets show again, untouched; in manual mode the manual set is
    /// emptied; in automatic mode nothing is erased. A correction mark goes.
    pub open spec fn clear(self, auto_mode: bool) -> CellView {
        if self.locked() {
            self
        } else {
            match self.mode {
                CellMode::Digit => CellView {
                    mode: candidate_mode(auto_mode),
                    digit: None,
                    correction: false,
                    ..self
                },
                CellMode::AutoCandidates => CellView { correction: false, ..self },
                CellMode::ManualCandidates => CellView {
                    manual_candidates: Set::empty(),
                    correction: false,
                    ..self
                },
            }
        }
    }

    /// The cell after its digit is revealed as `d`. A fixed cell stays as it
    /// is.
    pub open spec fn reveal_digit(self, d: u8) -> CellView {
        if self.fixed {
            self
        } else {
            CellView { mode: CellMode::Digit, digit: Some(d), revealed: true, ..self }
        }
    }

    /// The cell after the digit `d` was placed in range of it: in a candidate
    /// mode, `d` leaves the slot that the flag selects.
    pub open spec fn kick_candidate(self, d: u8, auto_mode: bool) -> CellView {
        if self.mode == CellMode::Digit {
            self
        } else if auto_mode {
            CellView { auto_candidates: self.auto_candidates.remove(d as int), ..self }
        } else {
            CellView { manual_candidates: self.manual_candidates.remove(d as int), ..self }
        }
    }

    /// The cell after the candidate-mode flag changed: a cell in a candidate
    /// mode shows the slot that the flag selects.
    pub open spec fn switch_candidate_mode(self, auto_mode: bool) -> CellView {
        if self.mode == CellMode::Digit {
            self
        } else {
            CellView { mode: candidate_mode(auto_mode), ..self }
        }
    }

    /// The cell after its digit is compared with `answer`. A fixed cell and a
    /// cell without a digit stay as they are. A wrong digit gets the
    /// correction mark; a right one loses it and, where `confirm` is set,
    /// counts as revealed.
    pub open spec fn check(self, answer: u8, confirm: bool) -> CellView {
        if self.fixed || self.digit.is_none() {
            self
        } else if self.digit == Some(answer) {
            CellView { correction: false, revealed: self.revealed || confirm, ..self }
        } else {
            CellView { correction: true, ..self }
        }
    }
}

/// One cell of the grid.
#[derive(Clone, Copy, Debug, PartialEq, Eq)]
pub struct CellValueBundle {
    digit_value: Option<u8>,
    auto_candidates: CandidateSet,
    manual_candidates: CandidateSet,
    cell_mode: CellMode,
    fixed: bool,
    revealed: bool,
    correction: bool,
}

impl View for CellValueBundle {
    type V = CellView;

    closed spec fn view(&self) -> CellView {
        CellView {
            mode: self.cell_mode,
            digit: self.digit_value,
            auto_candidates: self.auto_candidates@,
            manual_candidates: self.manual_candidates@,
            fixed: self.fixed,
            revealed: self.revealed,
            correction: self.correction,
        }
    }
}

impl CellValueBundle {
    /// The invariant of the cell, and of the two sets it holds.
    pub closed spec fn wf(&self) -> bool {
        &&& self@.wf()
        &&& self.auto_candidates.wf()
        &&& self.manual_candidates.wf()
    }

    /// A well-formed cell has a well-formed view.
    pub proof fn lemma_wf(&self)
        requires
            self.wf(),
        ensures
            self@.wf(),
    {
    }

    /// The cell that a puzzle starts with, from what the solver reports of
    /// it.
    pub fn from_cell_state(cell_state: CellState, auto_candidates: bool) -> (cell: CellValueBundle)
        requires
            cell_state.wf(),
        ensures
            cell@ == CellView::from_cell_state(cell_state@, auto_candidates),
            cell.wf(),
    {
        let cell_mode = if auto_candidates {
            CellMode::AutoCandidates
        } else {
            CellMode::ManualCandidates
        };
        match cell_state {
            CellState::Digit(digit) => CellValueBundle {
                digit_value: Some(digit),
                auto_candidates: CandidateSet::none(),
                manual_candidates: CandidateSet::none(),
                cell_mode: CellMode::Digit,
                fixed: true,
                revealed: false,
                correction: false,
            },
            CellState::Candidates(digit_set) => {
                proof {
                    digit_set.lemma_view();
                }
                CellValueBundle {
                    digit_value: None,
                    auto_candidates: digit_set,
                    manual_candidates: CandidateSet::none(),
                    cell_mode,
                    fixed: false,
                    revealed: false,
                    correction: false,
                }
            },
        }
    }

    pub fn mode(&self) -> (mode: CellMode)
        ensures
            mode == self@.mode,
    {
        self.cell_mode
    }

    /// The committed digit, if the cell is in digit mode.
    pub fn digit(&self) -> (digit: Option<u8>)
        ensures
            digit == self@.digit,
    {
        self.digit_value
    }

    /// Whether the cell holds the committed digit `digit`.
    pub fn holds_digit(&self, digit: u8) -> (r: bool)
        ensures
            r == (self@.digit == Some(digit)),
    {
        match self.digit_value {
            Some(held) => held == digit,
            None => false,
        }
    }

    pub fn auto_candidates(&self) -> (set: CandidateSet)
        ensures
            set@ == self@.auto_candidates,
            self.wf() ==> set.wf(),
    {
        self.auto_candidates
    }

    pub fn manual_candidates(&self) -> (set: CandidateSet)
        ensures
            set@ == self@.manual_candidates,
            self.wf() ==> set.wf(),
    {
        self.manual_candidates
    }

    pub fn is_fixed(&self) -> (r: bool)
        ensures
            r == self@.fixed,
    {
        self.fixed
    }

    pub fn is_revealed(&self) -> (r: bool)
        ensures
            r == self@.revealed,
    {
        self.revealed
    }

    pub fn has_correction(&self) -> (r: bool)
        ensures
            r == self@.correction,
    {
        self.correction
    }

    /// Whether the cell refuses edits.
    pub fn is_locked(&self) -> (r: bool)
        ensures
            r == self@.locked(),
    {
        self.fixed || self.revealed
    }

    /// The value that the cell shows.
    pub fn current_value(&self) -> (value: CellState)
        requires
            self.wf(),
        ensures
            value@ == self@.current_value(),
            value.wf(),
    {
        match self.cell_mode {
            CellMode::Digit => match self.digit_value {
                Some(digit) => CellState::Digit(digit),
                None => CellState::Candidates(CandidateSet::none()),
            },
            CellMode::AutoCandidates => CellState::Candidates(self.auto_candidates),
            CellMode::ManualCandidates => CellState::Candidates(self.manual_candidates),
        }
    }

    /// Commits `digit`. Returns the digit that was overwritten, where it was
    /// another one: the caller owes the conflict detector its removal.
    pub fn commit_digit(&mut self, digit: u8) -> (removed: Option<u8>)
        requires
            is_digit(digit as int),
        ensures
            final(self)@ == old(self)@.commit_digit(digit),
            removed == old(self)@.commit_removes(digit),
            old(self)@.locked() ==> *final(self) == *old(self),
            old(self).wf() ==> final(self).wf(),
    {
        if self.fixed || self.revealed {
            return None;
        }
        let removed = match self.digit_value {
            Some(old_digit) => if old_digit != digit {
                Some(old_digit)
            } else {
                None
            },
            None => None,
        };
        self.cell_mode = CellMode::Digit;
        self.digit_value = Some(digit);
        removed
    }

    /// Toggles the candidate `digit`. Returns the committed digit that left
    /// the cell, if there was one.
    pub fn toggle_candidate(&mut self, digit: u8, auto_mode: bool) -> (removed: Option<u8>)
        requires
            is_digit(digit as int),
        ensures
            final(self)@ == old(self)@.toggle_candidate(digit, auto_mode),
            removed == old(self)@.edit_removes(),
            old(self)@.locked() ==> *final(self) == *old(self),
            old(self).wf() ==> final(self).wf(),
    {
        if self.fixed || self.revealed {
            return None;
        }
        proof {
            self.auto_candidates.lemma_view();
            self.manual_candidates.lemma_view();
        }
        let mut removed: Option<u8> = None;
        match self.cell_mode {
            CellMode::Digit => {
                removed = self.digit_value;
                if auto_mode {
                    self.cell_mode = CellMode::AutoCandidates;
                } else {
                    self.cell_mode = CellMode::ManualCandidates;
                }
            },
            _ => {},
        }
        self.digit_value = None;
        match self.cell_mode {
            CellMode::AutoCandidates => {
                self.auto_candidates.insert(digit);
            },
            _ => {
                self.manual_candidates.insert(digit);
            },
        }
        proof {
            self.auto_candidates.lemma_view();
            self.manual_candidates.lemma_view();
        }
        removed
    }

    /// Clears the cell. Returns the committed digit that left the cell, if
    /// there was one.
    pub fn clear(&mut self, auto_mode: bool) -> (removed: Option<u8>)
        ensures
            final(self)@ == old(self)@.clear(auto_mode),
            removed == old(self)@.edit_removes(),
            old(self)@.locked() ==> *final(self) == *old(self),
            old(self).wf() ==> final(self).wf(),
    {
        if self.fixed || self.revealed {
            return None;
        }
        let mut removed: Option<u8> = None;
        match self.cell_mode {
            CellMode::Digit => {
                removed = self.digit_value;
                self.digit_value = None;
                if auto_mode {
                    self.cell_mode = CellMode::AutoCandidates;
                } else {
                    self.cell_mode = CellMode::ManualCandidates;
                }
            },
            CellMode::AutoCandidates => {},
            CellMode::ManualCandidates => {
                self.manual_candidates = CandidateSet::none();
            },
        }
        self.correction = false;
        removed
    }

    /// Shows `digit` as the revealed answer of the cell.
    pub fn reveal_digit(&mut self, digit: u8)
        requires
            is_digit(digit as int),
        ensures
            final(self)@ == old(self)@.reveal_digit(digit),
            old(self)@.fixed ==> *final(self) == *old(self),
            old(self).wf() ==> final(self).wf(),
    {
        if !self.fixed {
            self.cell_mode = CellMode::Digit;
            self.digit_value = Some(digit);
            self.revealed = true;
        }
    }

    /// Takes `digit` out of the candidates after it was placed in range of
    /// the cell.
    pub fn kick_candidate(&mut self, digit: u8, auto_mode: bool)
        requires
            is_digit(digit as int),
        ensures
            final(self)@ == old(self)@.kick_candidate(digit, auto_mode),
            old(self).wf() ==> final(self).wf(),
    {
        proof {
            self.auto_candidates.lemma_view();
            self.manual_candidates.lemma_view();
        }
        match self.cell_mode {
            CellMode::Digit => {},
            _ => {
                if auto_mode {
                    self.auto_candidates.remove(digit);
                } else {
                    self.manual_candidates.remove(digit);
                }
            },
        }
        proof {
            self.auto_candidates.lemma_view();
            self.manual_candidates.lemma_view();
        }
    }

    /// Follows a change of the candidate-mode flag.
    pub fn switch_candidate_mode(&mut self, auto_mode: bool)
        ensures
            final(self)@ == old(self)@.switch_candidate_mode(auto_mode),
            old(self).wf() ==> final(self).wf(),
    {
        match self.cell_mode {
            CellMode::Digit => {},
            _ => {
                if auto_mode {
                    self.cell_mode = CellMode::AutoCandidates;
                } else {
                    self.cell_mode = CellMode::ManualCandidates;
                }
            },
        }
    }

    /// Compares the committed digit with `answer` and marks the cell.
    pub fn check(&mut self, answer: u8, confirm: bool)
        ensures
            final(self)@ == old(self)@.check(answer, confirm),
            old(self).wf() ==> final(self).wf(),
    {
        if self.fixed {
            return ;
        }
        match self.digit_value {
            Some(digit) => {
                if digit == answer {
                    self.correction = false;
                    if confirm {
                        self.revealed = true;
                    }
                } else {
                    self.correction = true;
                }
            },
            None => {},
        }
    }
}

} // verus!
