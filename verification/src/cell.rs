use vstd::prelude::*;
use crate::position::Position;

verus! {

/// One location of the grid. Coordinates wrap around at the two ends of
/// `isize`, so every cell has eight neighbours.
#[derive(Clone, Copy, Debug, PartialEq, Eq, Structural, PartialOrd, Ord, Hash)]
pub struct Cell {
    pub row: isize,
    pub column: isize,
}

/// The coordinate that stands for the number `v`: `v` itself where it fits
/// in `isize`, and else `v` carried once around the ends of `isize`.
pub open spec fn carried(v: int) -> isize {
    if v > isize::MAX {
        (v - (isize::MAX - isize::MIN + 1)) as isize
    } else if v < isize::MIN {
        (v + (isize::MAX - isize::MIN + 1)) as isize
    } else {
        v as isize
    }
}

/// `x + d`, carried around the ends of `isize`.
pub open spec fn shifted(x: isize, d: isize) -> isize {
    carried(x + d)
}

/// The row offset of the neighbour with index `k`, for `0 <= k < 8`.
pub open spec fn row_step(k: int) -> isize {
    if k < 3 {
        -1isize
    } else if k < 5 {
        0isize
    } else {
        1isize
    }
}

/// The column offset of the neighbour with index `k`, for `0 <= k < 8`.
pub open spec fn column_step(k: int) -> isize {
    if k == 0 || k == 3 || k == 5 {
        -1isize
    } else if k == 1 || k == 6 {
        0isize
    } else {
        1isize
    }
}

/// The neighbour with index `k` of the cell at `(row, column)`: the
/// neighbours are numbered row by row, and within a row by column.
pub open spec fn neighbour_at(at: (isize, isize), k: int) -> (isize, isize) {
    (shifted(at.0, row_step(k)), shifted(at.1, column_step(k)))
}

impl View for Cell {
    type V = (isize, isize);

    open spec fn view(&self) -> (isize, isize) {
        (self.row, self.column)
    }
}

impl Cell {
    pub fn new(row: isize, column: isize) -> (cell: Self)
        ensures
            cell@ == (row, column),
    {
        Self { row, column }
    }

    pub fn row(&self) -> (row: isize)
        ensures
            row == self@.0,
    {
        self.row
    }

    pub fn column(&self) -> (column: isize)
        ensures
            column == self@.1,
    {
        self.column
    }

    /// The cell that lies `offset` away from this one.
    pub fn add(self, offset: Position) -> (cell: Cell)
        ensures
            cell@ == (shifted(self@.0, offset.row), shifted(self@.1, offset.column)),
    {
        Cell { row: self.row.wrapping_add(offset.row), column: self.column.wrapping_add(offset.column) }
    }

    /// The eight cells around this one, none of them twice and none of them
    /// the cell itself.
    pub fn neighbours(&self) -> (around: Vec<Cell>)
        ensures
            around@.len() == 8,
            forall|k: int| 0 <= k < 8 ==> (#[trigger] around@[k])@ == neighbour_at(self@, k),
            forall|k: int| 0 <= k < 8 ==> (#[trigger] around@[k]) != *self,
            forall|j: int, k: int| 0 <= j < k < 8 ==> around@[j] != around@[k],
    {
        let mut around: Vec<Cell> = Vec::new();
        around.push(self.add(Position::new(-1, -1)));
        around.push(self.add(Position::new(-1, 0)));
        around.push(self.add(Position::new(-1, 1)));
        around.push(self.add(Position::new(0, -1)));
        around.push(self.add(Position::new(0, 1)));
        around.push(self.add(Position::new(1, -1)));
        around.push(self.add(Position::new(1, 0)));
        around.push(self.add(Position::new(1, 1)));
        around
    }
}

} // verus!
