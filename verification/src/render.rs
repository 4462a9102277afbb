use vstd::prelude::*;
use vstd::string::StringExecFns;
use crate::bounds::Extent;
use crate::cell::Cell;
use crate::cells::frames;
use crate::world::{clipped, World, WorldView};

verus! {

/// The mark of one location: `*` for a live cell, a space for a dead one.
pub open spec fn mark(cells: Set<(isize, isize)>, at: (isize, isize)) -> char {
    if cells.contains(at) {
        '*'
    } else {
        ' '
    }
}

/// The marks of `row` from column `first` to column `last`, one space
/// between two marks.
pub open spec fn line_drawn(cells: Set<(isize, isize)>, row: isize, first: isize, last: int) -> Seq<
    char,
>
    decreases last - first,
{
    if last < first {
        Seq::empty()
    } else if last == first {
        seq![mark(cells, (row, first))]
    } else {
        line_drawn(cells, row, first, last - 1).push(' ').push(mark(cells, (row, last as isize)))
    }
}

/// The lines of the rows of `extent` down to row `last`, one line feed
/// between two lines.
pub open spec fn grid_drawn(cells: Set<(isize, isize)>, extent: Extent, last: int) -> Seq<char>
    decreases last - extent.row_min,
{
    if last < extent.row_min {
        Seq::empty()
    } else if last == extent.row_min {
        line_drawn(cells, extent.row_min, extent.column_min, extent.column_max as int)
    } else {
        grid_drawn(cells, extent, last - 1).push('\n') + line_drawn(
            cells,
            last as isize,
            extent.column_min,
            extent.column_max as int,
        )
    }
}

/// The text of a world: the rows of its frame from the first to the last,
/// and nothing where it has no frame.
pub open spec fn drawn(world: WorldView) -> Seq<char> {
    match world.frame() {
        None => Seq::empty(),
        Some(extent) => grid_drawn(world.live, extent, extent.row_max as int),
    }
}

/// How many characters a drawn row takes together with the line feed
/// behind it: two for each column.
pub open spec fn stride(extent: Extent) -> int {
    2 * (extent.column_max - extent.column_min + 1)
}

/// Where the mark of the location `at` stands in the text of a grid that is
/// drawn over `extent`.
pub open spec fn place_of(extent: Extent, at: (isize, isize)) -> int {
    (at.0 - extent.row_min) * stride(extent) + 2 * (at.1 - extent.column_min)
}

/// The locations of `extent` at whose place `text` has the mark of a live
/// cell.
pub open spec fn read_back(text: Seq<char>, extent: Extent) -> Set<(isize, isize)> {
    Set::new(
        |at: (isize, isize)|
            extent.holds(at) && 0 <= place_of(extent, at) < text.len() && text[place_of(extent, at)]
                == '*',
    )
}

/// A drawn line has a mark for each column and a space between two marks;
/// the mark of a column stands at twice its distance from the first.
pub proof fn line_drawn_marks(cells: Set<(isize, isize)>, row: isize, first: isize, last: int)
    requires
        first <= last <= isize::MAX,
    ensures
        line_drawn(cells, row, first, last).len() == 2 * (last - first + 1) - 1,
        forall|column: isize|
            first <= column <= last ==> #[trigger] line_drawn(cells, row, first, last)[2 * (column
                - first)] == mark(cells, (row, column)),
    decreases last - first,
{
    if last > first {
        line_drawn_marks(cells, row, first, last - 1);
        let before = line_drawn(cells, row, first, last - 1);
        let line = line_drawn(cells, row, first, last);
        assert forall|column: isize| first <= column <= last implies #[trigger] line[2 * (column
            - first)] == mark(cells, (row, column)) by {
            if column < last {
                assert(line[2 * (column - first)] == before[2 * (column - first)]);
            }
        }
    }
}

/// A drawn grid has a line for each row and a line feed between two lines;
/// the mark of a location stands at its place.
pub proof fn grid_drawn_marks(cells: Set<(isize, isize)>, extent: Extent, last: int)
    requires
        extent.inhabited(),
        extent.row_min <= last <= extent.row_max,
    ensures
        grid_drawn(cells, extent, last).len() == (last - extent.row_min + 1) * stride(extent) - 1,
        forall|at: (isize, isize)|
            extent.holds(at) && at.0 <= last ==> 0 <= #[trigger] place_of(extent, at) < grid_drawn(
                cells,
                extent,
                last,
            ).len() && grid_drawn(cells, extent, last)[place_of(extent, at)] == mark(cells, at),
    decreases last - extent.row_min,
{
    let width = stride(extent);
    let grid = grid_drawn(cells, extent, last);
    if last == extent.row_min {
        line_drawn_marks(cells, extent.row_min, extent.column_min, extent.column_max as int);
        assert forall|at: (isize, isize)| extent.holds(at) && at.0 <= last implies 0
            <= #[trigger] place_of(extent, at) < grid.len() && grid[place_of(extent, at)] == mark(
            cells,
            at,
        ) by {
            assert(at.0 == extent.row_min);
            assert((at.0 - extent.row_min) * width == 0) by (nonlinear_arith)
                requires
                    at.0 - extent.row_min == 0,
            ;
            assert(grid[2 * (at.1 - extent.column_min)] == mark(cells, (at.0, at.1)));
        }
        assert(1 * width == width);
    } else {
        grid_drawn_marks(cells, extent, last - 1);
        line_drawn_marks(cells, last as isize, extent.column_min, extent.column_max as int);
        let before = grid_drawn(cells, extent, last - 1);
        let line = line_drawn(cells, last as isize, extent.column_min, extent.column_max as int);
        let rows = last - extent.row_min;
        assert((rows + 1) * width == rows * width + width) by (nonlinear_arith);
        assert(grid.len() == before.len() + 1 + line.len());
        assert forall|at: (isize, isize)| extent.holds(at) && at.0 <= last implies 0
            <= #[trigger] place_of(extent, at) < grid.len() && grid[place_of(extent, at)] == mark(
            cells,
            at,
        ) by {
            if at.0 < last {
                assert(0 <= place_of(extent, at) < before.len());
                assert(grid[place_of(extent, at)] == before[place_of(extent, at)]);
            } else {
                let offset = 2 * (at.1 - extent.column_min);
                assert(place_of(extent, at) == before.len() + 1 + offset);
                assert(0 <= offset < line.len());
                assert(line[offset] == mark(cells, (at.0, at.1)));
                assert(grid[before.len() + 1 + offset] == line[offset]);
            }
        }
    }
}

/// Reading a drawn world back, a `*` as a live cell and a space as a dead
/// one, gives the live cells that lie in the frame that was drawn.
pub proof fn drawn_reads_back(world: WorldView)
    requires
        world.frame() is Some,
    ensures
        read_back(drawn(world), world.frame().unwrap()) == clipped(world.live, world.frame()),
{
    let extent = world.frame().unwrap();
    if world.viewport@ is None && world.bounds@ is None {
        assert(frames(world.live, extent));
        let at = choose|at: (isize, isize)| world.live.contains(at) && at.0 == extent.row_min;
        assert(extent.holds(at));
    }
    assert(extent.inhabited());
    grid_drawn_marks(world.live, extent, extent.row_max as int);
    assert(read_back(drawn(world), extent) =~= clipped(world.live, Some(extent)));
}

impl World {
    /// The world as text: one line for each row of the viewport, or of the
    /// bounds where there is no viewport, or of the smallest rectangle around
    /// the live cells where there are no bounds either. A world with no live
    /// cells and no region gives the empty text.
    pub fn to_string(&self) -> (text: String)
        ensures
            text@ == drawn(self@),
    {
        let region = match self.viewport().extent() {
            Some(extent) => Some(extent),
            None => match self.bounds().extent() {
                Some(extent) => Some(extent),
                None => self.live_cells().bounds().extent(),
            },
        };
        assert(region == self@.frame());
        let mut text = String::new();
        if let Some(extent) = region {
            proof {
                reveal_strlit("*");
                reveal_strlit(" ");
                reveal_strlit("\n");
            }
            let ghost live = self@.live;
            let mut row = extent.row_min;
            let mut rows_done = false;
            while !rows_done
                invariant
                    extent.inhabited(),
                    live == self@.live,
                    extent.row_min <= row <= extent.row_max,
                    "*"@ == seq!['*'],
                    " "@ == seq![' '],
                    "\n"@ == seq!['\n'],
                    !rows_done ==> text@ == grid_drawn(live, extent, row - 1),
                    rows_done ==> text@ == grid_drawn(live, extent, extent.row_max as int),
                decreases extent.row_max - row + if rows_done { 0int } else { 1int },
            {
                if row > extent.row_min {
                    text.append("\n");
                }
                let ghost base = text@;
                let mut column = extent.column_min;
                let mut line_done = false;
                while !line_done
                    invariant
                        live == self@.live,
                        extent.column_min <= column <= extent.column_max,
                        "*"@ == seq!['*'],
                        " "@ == seq![' '],
                        !line_done ==> text@ == base + line_drawn(
                            live,
                            row,
                            extent.column_min,
                            column - 1,
                        ),
                        line_done ==> text@ == base + line_drawn(
                            live,
                            row,
                            extent.column_min,
                            extent.column_max as int,
                        ),
                    decreases extent.column_max - column + if line_done { 0int } else { 1int },
                {
                    if column > extent.column_min {
                        text.append(" ");
                    }
                    if self.live_cells().contains(&Cell::new(row, column)) {
                        text.append("*");
                    } else {
                        text.append(" ");
                    }
                    assert(text@ =~= base + line_drawn(
                        live,
                        row,
                        extent.column_min,
                        column as int,
                    ));
                    if column == extent.column_max {
                        line_done = true;
                    } else {
                        column += 1;
                    }
                }
                assert(text@ =~= grid_drawn(live, extent, row as int));
                if row == extent.row_max {
                    rows_done = true;
                } else {
                    row += 1;
                }
            }
        }
        text
    }
}

} // verus!
