use vstd::prelude::*;

verus! {

/// A displacement on the grid: a number of rows and a number of columns.
#[derive(Clone, Copy, Debug, PartialEq, Eq, Structural)]
pub struct Position {
    pub row: isize,
    pub column: isize,
}

impl Position {
    pub fn new(row: isize, column: isize) -> (position: Self)
        ensures
            position.row == row,
            position.column == column,
    {
        Self { row, column }
    }

    pub fn row(&self) -> (row: isize)
        ensures
            row == self.row,
    {
        self.row
    }

    pub fn column(&self) -> (column: isize)
        ensures
            column == self.column,
    {
        self.column
    }
}

} // verus!
