use bevy_sudoku::position::{CellPosition, CELLS};

#[test]
fn test_row() {
    assert_eq!(CellPosition::new(0).row(), 0);
    assert_eq!(CellPosition::new(4).row(), 0);
    assert_eq!(CellPosition::new(8).row(), 0);
    assert_eq!(CellPosition::new(9).row(), 1);
    assert_eq!(CellPosition::new(80).row(), 8);
}

#[test]
fn position_test_row() {
    assert_eq!(CellPosition::new(0).row(), 0);
    assert_eq!(CellPosition::new(4).row(), 0);
    assert_eq!(CellPosition::new(8).row(), 0);
    assert_eq!(CellPosition::new(9).row(), 1);
    assert_eq!(CellPosition::new(80).row(), 8);
}

#[test]
fn test_col() {
    assert_eq!(CellPosition::new(0).col(), 0);
    assert_eq!(CellPosition::new(4).col(), 4);
    assert_eq!(CellPosition::new(8).col(), 8);
    assert_eq!(CellPosition::new(9).col(), 0);
    assert_eq!(CellPosition::new(80).col(), 8);
}

#[test]
fn test_block() {
    assert_eq!(CellPosition::new(0).block(), 0);
    assert_eq!(CellPosition::new(4).block(), 1);
    assert_eq!(CellPosition::new(8).block(), 2);
    assert_eq!(CellPosition::new(20).block(), 0);
    assert_eq!(CellPosition::new(27).block(), 3);
    assert_eq!(CellPosition::new(40).block(), 4);
    assert_eq!(CellPosition::new(53).block(), 5);
    assert_eq!(CellPosition::new(60).block(), 8);
    assert_eq!(CellPosition::new(54).block(), 6);
    assert_eq!(CellPosition::new(75).block(), 7);
    assert_eq!(CellPosition::new(80).block(), 8);
}

#[test]
fn block_agrees_with_row_and_col_everywhere() {
    for cell in 0..CELLS {
        let position = CellPosition::new(cell);
        assert_eq!(position.block(), (position.row() / 3) * 3 + position.col() / 3);
        assert_eq!(position.0, cell);
    }
}

#[test]
fn from_block_row_col_walks_each_block_row_by_row() {
    assert_eq!(CellPosition::from_block_row_col(0, 0), CellPosition(0));
    assert_eq!(CellPosition::from_block_row_col(0, 4), CellPosition(10));
    assert_eq!(CellPosition::from_block_row_col(0, 8), CellPosition(20));
    assert_eq!(CellPosition::from_block_row_col(4, 4), CellPosition(40));
    assert_eq!(CellPosition::from_block_row_col(2, 3), CellPosition(15));
    assert_eq!(CellPosition::from_block_row_col(8, 8), CellPosition(80));
    for block in 0..9u8 {
        for inner in 0..9u8 {
            assert_eq!(CellPosition::from_block_row_col(block, inner).block(), block);
        }
    }
}

#[test]
fn from_row_col_is_the_linear_index() {
    assert_eq!(CellPosition::from_row_col(0, 0), CellPosition(0));
    assert_eq!(CellPosition::from_row_col(1, 0), CellPosition(9));
    assert_eq!(CellPosition::from_row_col(4, 7), CellPosition(43));
    assert_eq!(CellPosition::from_row_col(8, 8), CellPosition(80));
}

#[test]
fn every_cell_has_twenty_peers() {
    for p in 0..CELLS {
        let mut count = 0;
        for q in 0..CELLS {
            if CellPosition::new(p).is_peer(&CellPosition::new(q)) {
                count += 1;
            }
        }
        assert_eq!(count, 20);
    }
}

#[test]
fn peers_of_the_first_cell() {
    let first = CellPosition::new(0);
    let peers: Vec<u8> =
        (0..CELLS).filter(|q| first.is_peer(&CellPosition::new(*q))).collect();
    assert_eq!(
        peers,
        vec![1, 2, 3, 4, 5, 6, 7, 8, 9, 10, 11, 18, 19, 20, 27, 36, 45, 54, 63, 72]
    );
}

#[test]
fn a_cell_is_in_range_of_itself_but_no_peer_of_itself() {
    let cell = CellPosition::new(40);
    assert!(cell.in_range(&cell));
    assert!(!cell.is_peer(&cell));
    assert!(cell.in_range(&CellPosition::new(36)));
    assert!(cell.in_range(&CellPosition::new(4)));
    assert!(cell.in_range(&CellPosition::new(30)));
    assert!(!cell.in_range(&CellPosition::new(0)));
    assert!(!cell.is_peer(&CellPosition::new(80)));
}

#[test]
fn range_goes_both_ways() {
    for p in 0..CELLS {
        for q in 0..CELLS {
            let a = CellPosition::new(p);
            let b = CellPosition::new(q);
            assert_eq!(a.is_peer(&b), b.is_peer(&a));
        }
    }
}
