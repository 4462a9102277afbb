use vstd::prelude::*;
use std::ops::RangeInclusive;
use crate::cell::Cell;

verus! {

/// A rectangle of the grid, given by its first and last row and its first
/// and last column, all four inclusive.
#[derive(Clone, Copy, Debug, PartialEq, Eq, Structural)]
pub struct Extent {
    pub row_min: isize,
    pub row_max: isize,
    pub column_min: isize,
    pub column_max: isize,
}

impl Extent {
    /// Whether the rectangle has at least one row and one column.
    pub open spec fn inhabited(self) -> bool {
        self.row_min <= self.row_max && self.column_min <= self.column_max
    }

    /// Whether the location `at` lies in the rectangle.
    pub open spec fn holds(self, at: (isize, isize)) -> bool {
        self.row_min <= at.0 <= self.row_max && self.column_min <= at.1 <= self.column_max
    }

    /// The rectangle that holds `at` and nothing else.
    pub open spec fn single(at: (isize, isize)) -> Extent {
        Extent { row_min: at.0, row_max: at.0, column_min: at.1, column_max: at.1 }
    }

    /// The smallest rectangle that holds this one and `at`.
    pub open spec fn stretched(self, at: (isize, isize)) -> Extent {
        Extent {
            row_min: if at.0 < self.row_min { at.0 } else { self.row_min },
            row_max: if at.0 > self.row_max { at.0 } else { self.row_max },
            column_min: if at.1 < self.column_min { at.1 } else { self.column_min },
            column_max: if at.1 > self.column_max { at.1 } else { self.column_max },
        }
    }

    pub fn contains(&self, cell: &Cell) -> (inside: bool)
        ensures
            inside == self.holds(cell@),
    {
        self.row_min <= cell.row && cell.row <= self.row_max && self.column_min <= cell.column
            && cell.column <= self.column_max
    }
}

/// The smallest rectangle that holds `region`, if there is one, and `at`.
pub open spec fn grown(region: Option<Extent>, at: (isize, isize)) -> Extent {
    match region {
        None => Extent::single(at),
        Some(extent) => extent.stretched(at),
    }
}

/// Whether a range still has all its items and has at least one.
pub open spec fn range_inhabited(range: RangeInclusive<isize>) -> bool {
    !range@.exhausted && range@.start <= range@.end
}

/// `RangeInclusive::is_empty`: a range is empty when it has been iterated to
/// its end or when its start lies behind its end.
#[verifier::external_body]
fn range_is_empty(range: &RangeInclusive<isize>) -> (empty: bool)
    ensures
        empty == !range_inhabited(*range),
{
    range.is_empty()
}

/// `RangeInclusive::start`: the lower end the range was made with; std leaves
/// it open for a range that has been iterated to its end.
#[verifier::external_body]
fn range_start(range: &RangeInclusive<isize>) -> (start: isize)
    ensures
        !range@.exhausted ==> start == range@.start,
{
    *range.start()
}

/// `RangeInclusive::end`: the upper end the range was made with; std leaves
/// it open for a range that has been iterated to its end.
#[verifier::external_body]
fn range_end(range: &RangeInclusive<isize>) -> (end: isize)
    ensures
        !range@.exhausted ==> end == range@.end,
{
    *range.end()
}

/// `RangeInclusive::clone`: the same range once more.
#[verifier::external_body]
fn range_clone(range: &RangeInclusive<isize>) -> (copy: RangeInclusive<isize>)
    ensures
        copy == *range,
{
    range.clone()
}

/// A region of the grid: either no region at all, or a row range and a
/// column range. A region one of whose ranges has no items counts as
/// undefined.
#[derive(Debug, PartialEq)]
pub enum Bounds {
    Undefined,
    Defined(RangeInclusive<isize>, RangeInclusive<isize>),
}

impl View for Bounds {
    type V = Option<Extent>;

    /// The rectangle the region covers, or `None` where it is undefined.
    open spec fn view(&self) -> Option<Extent> {
        match self {
            Bounds::Undefined => None,
            Bounds::Defined(rows, columns) => if range_inhabited(*rows) && range_inhabited(
                *columns,
            ) {
                Some(
                    Extent {
                        row_min: rows@.start,
                        row_max: rows@.end,
                        column_min: columns@.start,
                        column_max: columns@.end,
                    },
                )
            } else {
                None
            },
        }
    }
}

impl Default for Bounds {
    fn default() -> (bounds: Self)
        ensures
            bounds == Bounds::Undefined,
            bounds@ is None,
    {
        Bounds::Undefined
    }
}

impl Clone for Bounds {
    fn clone(&self) -> (copy: Self)
        ensures
            copy == *self,
    {
        match self {
            Bounds::Undefined => Bounds::Undefined,
            Bounds::Defined(rows, columns) => Bounds::Defined(
                range_clone(rows),
                range_clone(columns),
            ),
        }
    }
}

impl Bounds {
    /// The region of the given rows and columns; undefined where either
    /// range has no items.
    pub fn new(rows: RangeInclusive<isize>, columns: RangeInclusive<isize>) -> (bounds: Self)
        ensures
            range_inhabited(rows) && range_inhabited(columns) ==> bounds == Bounds::Defined(
                rows,
                columns,
            ),
            !(range_inhabited(rows) && range_inhabited(columns)) ==> bounds == Bounds::Undefined,
    {
        if range_is_empty(&rows) || range_is_empty(&columns) {
            Bounds::Undefined
        } else {
            Bounds::Defined(rows, columns)
        }
    }

    /// The region that covers exactly `extent`; undefined where `extent`
    /// has no row or no column.
    pub fn of_extent(extent: Extent) -> (bounds: Self)
        ensures
            bounds@ == if extent.inhabited() {
                Some(extent)
            } else {
                None
            },
    {
        Bounds::new(
            RangeInclusive::new(extent.row_min, extent.row_max),
            RangeInclusive::new(extent.column_min, extent.column_max),
        )
    }

    /// The rectangle the region covers, if it is defined.
    pub fn extent(&self) -> (extent: Option<Extent>)
        ensures
            extent == self@,
            extent matches Some(e) ==> e.inhabited(),
    {
        match self {
            Bounds::Undefined => None,
            Bounds::Defined(rows, columns) => {
                if range_is_empty(rows) || range_is_empty(columns) {
                    None
                } else {
                    Some(
                        Extent {
                            row_min: range_start(rows),
                            row_max: range_end(rows),
                            column_min: range_start(columns),
                            column_max: range_end(columns),
                        },
                    )
                }
            },
        }
    }

    pub fn is_defined(&self) -> (defined: bool)
        ensures
            defined == self@.is_some(),
    {
        self.extent().is_some()
    }

    /// Grows the region to the smallest one that also holds `cell`; an
    /// undefined region becomes the single location of `cell`.
    pub fn encompass(&mut self, cell: &Cell)
        ensures
            final(self)@ == Some(grown(old(self)@, cell@)),
            old(self)@ is None ==> final(self)@ == Some(Extent::single(cell@)),
            final(self)@.unwrap().holds(cell@),
            forall|at: (isize, isize)|
                old(self)@ matches Some(e) && e.holds(at) ==> final(self)@.unwrap().holds(at),
    {
        let extent = match self.extent() {
            None => Extent {
                row_min: cell.row,
                row_max: cell.row,
                column_min: cell.column,
                column_max: cell.column,
            },
            Some(e) => Extent {
                row_min: if cell.row < e.row_min { cell.row } else { e.row_min },
                row_max: if cell.row > e.row_max { cell.row } else { e.row_max },
                column_min: if cell.column < e.column_min { cell.column } else { e.column_min },
                column_max: if cell.column > e.column_max { cell.column } else { e.column_max },
            },
        };
        *self = Bounds::of_extent(extent);
    }

    /// The row range: for an undefined region a range without items.
    pub fn rows(&self) -> (rows: RangeInclusive<isize>)
        ensures
            !rows@.exhausted,
            self@ matches Some(e) ==> rows@.start == e.row_min && rows@.end == e.row_max,
            self@ is None ==> rows@.start == 1 && rows@.end == 0,
    {
        match self.extent() {
            Some(e) => RangeInclusive::new(e.row_min, e.row_max),
            None => RangeInclusive::new(1, 0),
        }
    }

    /// The column range: for an undefined region a range without items.
    pub fn columns(&self) -> (columns: RangeInclusive<isize>)
        ensures
            !columns@.exhausted,
            self@ matches Some(e) ==> columns@.start == e.column_min && columns@.end
                == e.column_max,
            self@ is None ==> columns@.start == 1 && columns@.end == 0,
    {
        match self.extent() {
            Some(e) => RangeInclusive::new(e.column_min, e.column_max),
            None => RangeInclusive::new(1, 0),
        }
    }
}

} // verus!
