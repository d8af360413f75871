use bevy_sudoku::candidates::{CandidateSet, ALL_DIGITS};

fn digits(set: &CandidateSet) -> Vec<u8> {
    (0..=12u8).filter(|d| set.contains(*d)).collect()
}

#[test]
fn none_is_empty() {
    let set = CandidateSet::none();
    assert_eq!(set.len(), 0);
    assert!(set.is_empty());
    assert_eq!(set.bits(), 0);
    assert_eq!(digits(&set), Vec::<u8>::new());
}

#[test]
fn all_holds_the_nine_digits() {
    let set = CandidateSet::all();
    assert_eq!(set.len(), 9);
    assert!(!set.is_empty());
    assert_eq!(set.bits(), 0x1ff);
    assert_eq!(ALL_DIGITS, 0x1ff);
    assert_eq!(digits(&set), vec![1, 2, 3, 4, 5, 6, 7, 8, 9]);
}

#[test]
fn insert_toggles() {
    let mut set = CandidateSet::none();
    set.insert(5);
    assert_eq!(digits(&set), vec![5]);
    assert_eq!(set.bits(), 0x10);
    set.insert(1);
    set.insert(9);
    assert_eq!(digits(&set), vec![1, 5, 9]);
    assert_eq!(set.bits(), 0x111);
    assert_eq!(set.len(), 3);
    set.insert(5);
    assert_eq!(digits(&set), vec![1, 9]);
    assert_eq!(set.len(), 2);
    set.insert(1);
    set.insert(9);
    assert!(set.is_empty());
    assert_eq!(set, CandidateSet::none());
}

#[test]
fn remove_takes_out_and_is_idempotent() {
    let mut set = CandidateSet::all();
    set.remove(3);
    assert_eq!(digits(&set), vec![1, 2, 4, 5, 6, 7, 8, 9]);
    assert_eq!(set.len(), 8);
    let once = set;
    set.remove(3);
    assert_eq!(set, once);
    let mut empty = CandidateSet::none();
    empty.remove(7);
    assert_eq!(empty, CandidateSet::none());
}

#[test]
fn contains_knows_digits_only() {
    let set = CandidateSet::all();
    assert!(!set.contains(0));
    assert!(set.contains(1));
    assert!(set.contains(9));
    assert!(!set.contains(10));
    assert!(!set.contains(255));
}

#[test]
fn from_bits_takes_nine_bits() {
    assert_eq!(CandidateSet::from_bits(0), Some(CandidateSet::none()));
    assert_eq!(CandidateSet::from_bits(0x1ff), Some(CandidateSet::all()));
    assert_eq!(CandidateSet::from_bits(0x200), None);
    assert_eq!(CandidateSet::from_bits(0xffff), None);
    let set = CandidateSet::from_bits(0b1_0000_0101).unwrap();
    assert_eq!(digits(&set), vec![1, 3, 9]);
    assert_eq!(set.bits(), 0b1_0000_0101);
    assert_eq!(set.len(), 3);
}

#[test]
fn len_counts_every_mask() {
    for mask in 0..=0x1ffu16 {
        let set = CandidateSet::from_bits(mask).unwrap();
        assert_eq!(set.len() as u32, mask.count_ones());
        assert_eq!(set.is_empty(), mask == 0);
    }
}

#[test]
fn the_set_agrees_with_the_digit_set_of_the_solver() {
    for mask in 0..=0x1ffu16 {
        let ours = CandidateSet::from_bits(mask).unwrap();
        let theirs = sudoku::bitset::Set::<sudoku::board::Digit>::from_bits(mask);
        assert_eq!(ours.len(), theirs.len());
        assert_eq!(ours.is_empty(), theirs.is_empty());
        for d in 1..=9u8 {
            let digit = sudoku::board::Digit::new(d);
            assert_eq!(ours.contains(d), theirs.contains(digit.as_set()));

            let mut toggled = ours;
            toggled.insert(d);
            let mut expected = theirs;
            expected ^= digit;
            assert_eq!(toggled.bits(), expected.bits());

            let mut removed = ours;
            removed.remove(d);
            let mut expected = theirs;
            expected.remove(digit.as_set());
            assert_eq!(removed.bits(), expected.bits());
        }
    }
    assert_eq!(CandidateSet::none().bits(), sudoku::bitset::Set::<sudoku::board::Digit>::NONE.bits());
    assert_eq!(CandidateSet::all().bits(), sudoku::bitset::Set::<sudoku::board::Digit>::ALL.bits());
}
