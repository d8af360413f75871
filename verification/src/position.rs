//! Grid topology: rows, columns and blocks of the 81 cells.

use vstd::prelude::*;

verus! {

/// Number of cells in the grid.
pub const CELLS: u8 = 81;

/// Block of each cell, row by row.
const BLOCK: [u8; 81] = [
    0, 0, 0, 1, 1, 1, 2, 2, 2,
    0, 0, 0, 1, 1, 1, 2, 2, 2,
    0, 0, 0, 1, 1, 1, 2, 2, 2,
    3, 3, 3, 4, 4, 4, 5, 5, 5,
    3, 3, 3, 4, 4, 4, 5, 5, 5,
    3, 3, 3, 4, 4, 4, 5, 5, 5,
    6, 6, 6, 7, 7, 7, 8, 8, 8,
    6, 6, 6, 7, 7, 7, 8, 8, 8,
    6, 6, 6, 7, 7, 7, 8, 8, 8,
];

/// Row of the cell with linear index `i`.
pub open spec fn row_of(i: int) -> int {
    i / 9
}

/// Column of the cell with linear index `i`.
pub open spec fn col_of(i: int) -> int {
    i % 9
}

/// Block of the cell with linear index `i`: the blocks are numbered row by
/// row, three to a band.
pub open spec fn block_of(i: int) -> int {
    (i / 27) * 3 + (i % 9) / 3
}

/// Two cells are in range of each other when they share a row, a column or a
/// block. A cell is in range of itself.
pub open spec fn in_range_of(p: int, q: int) -> bool {
    row_of(p) == row_of(q) || col_of(p) == col_of(q) || block_of(p) == block_of(q)
}

/// Peers are two different cells in range of each other.
pub open spec fn peers(p: int, q: int) -> bool {
    p != q && in_range_of(p, q)
}

/// Position of a cell: its linear index, row by row from the top left.
#[derive(Clone, Copy, Debug, PartialEq, Eq, Hash, Structural)]
pub struct CellPosition(pub u8);

impl CellPosition {
    /// A position is valid when it names one of the 81 cells.
    pub open spec fn valid(&self) -> bool {
        self.0 < 81
    }

    /// The linear index as a mathematical integer.
    pub open spec fn index(&self) -> int {
        self.0 as int
    }

    pub fn new(cell: u8) -> (p: CellPosition)
        requires
            cell < 81,
        ensures
            p.0 == cell,
            p.valid(),
    {
        CellPosition(cell)
    }

    /// The cell at place `inner_box_pos` of block `block`, both counted row
    /// by row.
    pub fn from_block_row_col(block: u8, inner_box_pos: u8) -> (p: CellPosition)
        requires
            block < 9,
            inner_box_pos < 9,
        ensures
            p.valid(),
            p.0 == ((block / 3) * 3 + inner_box_pos / 3) * 9 + (block % 3) * 3 + inner_box_pos % 3,
            row_of(p.index()) == (block / 3) * 3 + inner_box_pos / 3,
            col_of(p.index()) == (block % 3) * 3 + inner_box_pos % 3,
            block_of(p.index()) == block,
    {
        let box_row: u8 = block / 3;
        let box_col: u8 = block % 3;
        let inner_row: u8 = inner_box_pos / 3;
        let inner_col: u8 = inner_box_pos % 3;
        let row: u8 = box_row * 3 + inner_row;
        let col: u8 = box_col * 3 + inner_col;
        CellPosition::new(row * 9 + col)
    }

    /// The cell in row `row` and column `col`.
    pub fn from_row_col(row: u8, col: u8) -> (p: CellPosition)
        requires
            row < 9,
            col < 9,
        ensures
            p.valid(),
            p.0 == row * 9 + col,
            row_of(p.index()) == row,
            col_of(p.index()) == col,
    {
        CellPosition::new(row * 9 + col)
    }

    pub fn row(&self) -> (r: u8)
        ensures
            r == row_of(self.index()),
            self.valid() ==> r < 9,
    {
        self.0 / 9
    }

    pub fn col(&self) -> (c: u8)
        ensures
            c == col_of(self.index()),
            c < 9,
    {
        self.0 % 9
    }

    pub fn block(&self) -> (b: u8)
        requires
            self.valid(),
        ensures
            b == block_of(self.index()),
            b < 9,
    {
        BLOCK[self.0 as usize]
    }

    /// Whether `other` shares a row, a column or a block with this cell.
    pub fn in_range(&self, other: &CellPosition) -> (r: bool)
        requires
            self.valid(),
            other.valid(),
        ensures
            r == in_range_of(self.index(), other.index()),
    {
        self.row() == other.row() || self.col() == other.col() || self.block() == other.block()
    }

    /// Whether `other` is another cell in range of this one.
    pub fn is_peer(&self, other: &CellPosition) -> (r: bool)
        requires
            self.valid(),
            other.valid(),
        ensures
            r == peers(self.index(), other.index()),
    {
        self.0 != other.0 && self.in_range(other)
    }
}

} // verus!
