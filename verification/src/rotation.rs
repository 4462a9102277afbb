use vstd::prelude::*;
use crate::bounds::Extent;
use crate::cell::carried;
use crate::cells::{bounding, bounding_is_unique, frames, rotated, turned};

verus! {

/// Whether `extent` still fits in the grid after a quarter turn: the
/// rectangle of as many rows as it has columns, and as many columns as it has
/// rows, that starts at its first row and column does not reach beyond the
/// largest coordinate.
pub open spec fn turns_freely(extent: Extent) -> bool {
    extent.row_min + (extent.column_max - extent.column_min) <= isize::MAX && extent.column_min + (
    extent.row_max - extent.row_min) <= isize::MAX
}

/// The rectangle that `extent` covers after `quarter` quarter turns: an odd
/// number of quarter turns swaps its height and its width, and its first
/// row and column stay.
pub open spec fn turned_extent(extent: Extent, quarter: int) -> Extent {
    if quarter == 1 || quarter == 3 {
        Extent {
            row_min: extent.row_min,
            row_max: carried(extent.row_min + (extent.column_max - extent.column_min)),
            column_min: extent.column_min,
            column_max: carried(extent.column_min + (extent.row_max - extent.row_min)),
        }
    } else {
        extent
    }
}

/// Turning a set turns the smallest rectangle around it, where that
/// rectangle fits in the grid after the turn.
pub proof fn rotated_bounding(cells: Set<(isize, isize)>, n: int)
    requires
        bounding(cells) matches Some(extent) && (turns_freely(extent) || n % 2 == 0),
    ensures
        bounding(rotated(cells, n)) == Some(turned_extent(bounding(cells).unwrap(), n % 4)),
{
    let extent = bounding(cells).unwrap();
    assert(frames(cells, extent));
    let quarter = n % 4;
    let image = rotated(cells, n);
    let goal = turned_extent(extent, quarter);
    let top = choose|at: (isize, isize)| cells.contains(at) && at.0 == extent.row_min;
    let bottom = choose|at: (isize, isize)| cells.contains(at) && at.0 == extent.row_max;
    let left = choose|at: (isize, isize)| cells.contains(at) && at.1 == extent.column_min;
    let right = choose|at: (isize, isize)| cells.contains(at) && at.1 == extent.column_max;
    assert(extent.holds(top) && extent.holds(bottom) && extent.holds(left) && extent.holds(right));
    assert forall|to: (isize, isize)| image.contains(to) implies goal.holds(to) by {
        let at = choose|at: (isize, isize)|
            cells.contains(at) && #[trigger] turned(at, extent, quarter) == to;
        assert(extent.holds(at));
    }
    assert(image.contains(turned(top, extent, quarter)));
    assert(image.contains(turned(bottom, extent, quarter)));
    assert(image.contains(turned(left, extent, quarter)));
    assert(image.contains(turned(right, extent, quarter)));
    if quarter == 1 {
        assert(turned(left, extent, quarter).0 == goal.row_min);
        assert(turned(right, extent, quarter).0 == goal.row_max);
        assert(turned(bottom, extent, quarter).1 == goal.column_min);
        assert(turned(top, extent, quarter).1 == goal.column_max);
    } else if quarter == 2 {
        assert(turned(bottom, extent, quarter).0 == goal.row_min);
        assert(turned(top, extent, quarter).0 == goal.row_max);
        assert(turned(right, extent, quarter).1 == goal.column_min);
        assert(turned(left, extent, quarter).1 == goal.column_max);
    } else if quarter == 3 {
        assert(turned(right, extent, quarter).0 == goal.row_min);
        assert(turned(left, extent, quarter).0 == goal.row_max);
        assert(turned(top, extent, quarter).1 == goal.column_min);
        assert(turned(bottom, extent, quarter).1 == goal.column_max);
    } else {
        assert(turned(top, extent, quarter).0 == goal.row_min);
        assert(turned(bottom, extent, quarter).0 == goal.row_max);
        assert(turned(left, extent, quarter).1 == goal.column_min);
        assert(turned(right, extent, quarter).1 == goal.column_max);
    }
    assert(frames(image, goal));
    bounding_is_unique(image, goal);
}

/// A set of one location stays as it is, however it is turned.
pub proof fn single_cell_does_not_turn(at: (isize, isize), n: int)
    ensures
        rotated(Set::<(isize, isize)>::empty().insert(at), n) == Set::<(isize, isize)>::empty().insert(
            at,
        ),
{
    let cells = Set::<(isize, isize)>::empty().insert(at);
    let extent = Extent::single(at);
    assert(cells.contains(at));
    assert(frames(cells, extent));
    bounding_is_unique(cells, extent);
    assert(turned(at, extent, n % 4) == at);
    assert(rotated(cells, n) =~= cells);
}

/// The empty set stays empty, however it is turned.
pub proof fn empty_set_does_not_turn(n: int)
    ensures
        rotated(Set::<(isize, isize)>::empty(), n) == Set::<(isize, isize)>::empty(),
{
    let cells = Set::<(isize, isize)>::empty();
    if bounding(cells) is Some {
        assert(frames(cells, bounding(cells).unwrap()));
    }
}

/// Turning a set by no quarter turn leaves it as it is.
pub proof fn rotate_by_zero(cells: Set<(isize, isize)>)
    ensures
        rotated(cells, 0) == cells,
{
    if bounding(cells) is Some {
        let extent = bounding(cells).unwrap();
        assert forall|to: (isize, isize)| cells.contains(to) implies rotated(cells, 0).contains(
            to,
        ) by {
            assert(turned(to, extent, 0) == to);
        }
        assert(rotated(cells, 0) =~= cells);
    }
}

/// Four quarter turns more make no difference; so a full turn is no turn.
pub proof fn rotate_by_full_turn(cells: Set<(isize, isize)>, n: int)
    ensures
        rotated(cells, n + 4) == rotated(cells, n),
        rotated(cells, 4) == rotated(cells, 0),
        rotated(cells, 4) == cells,
{
    assert((n + 4) % 4 == n % 4);
    rotate_by_zero(cells);
}

/// A location of a rectangle comes back to where it was when the rectangle
/// is turned by `quarter` quarter turns and then by the rest of a full turn.
pub proof fn turned_and_back(at: (isize, isize), extent: Extent, quarter: int)
    requires
        extent.holds(at),
        1 <= quarter <= 3,
        turns_freely(extent) || quarter == 2,
    ensures
        turned(turned(at, extent, quarter), turned_extent(extent, quarter), 4 - quarter) == at,
{
}

/// Turning a set by `n` quarter turns and then by the quarter turns that
/// are left of a full turn gives the set back, where the smallest rectangle
/// around the set fits in the grid after a quarter turn.
pub proof fn rotate_and_back(cells: Set<(isize, isize)>, n: int)
    requires
        1 <= n <= 3,
        bounding(cells) matches Some(extent) ==> turns_freely(extent) || n == 2,
    ensures
        rotated(rotated(cells, n), 4 - n) == cells,
{
    if bounding(cells) is Some {
        let extent = bounding(cells).unwrap();
        assert(frames(cells, extent));
        rotated_bounding(cells, n);
        assert(n % 4 == n && (4 - n) % 4 == 4 - n);
        let there = rotated(cells, n);
        let between = turned_extent(extent, n);
        assert(bounding(there) == Some(between));
        let back = rotated(there, 4 - n);
        assert forall|to: (isize, isize)| back.contains(to) implies cells.contains(to) by {
            let via = choose|via: (isize, isize)|
                there.contains(via) && #[trigger] turned(via, between, 4 - n) == to;
            let at = choose|at: (isize, isize)|
                cells.contains(at) && #[trigger] turned(at, extent, n) == via;
            assert(extent.holds(at));
            turned_and_back(at, extent, n);
        }
        assert forall|to: (isize, isize)| cells.contains(to) implies back.contains(to) by {
            assert(extent.holds(to));
            let via = turned(to, extent, n);
            assert(there.contains(via));
            turned_and_back(to, extent, n);
            assert(turned(via, between, 4 - n) == to);
        }
        assert(back =~= cells);
    }
}

} // verus!
