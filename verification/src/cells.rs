use vstd::prelude::*;
use std::collections::HashSet;
use hashable::HashableHashSet;
use crate::bounds::{Bounds, Extent};
use crate::cell::{Cell, carried};

verus! {

/// `ahash::RandomState`, the hasher state that a `HashableHashSet` is made
/// with where none is named. Nothing is claimed of it.
#[verifier::external_type_specification]
#[verifier::external_body]
pub struct ExRandomState(ahash::RandomState);

/// `hashable::HashableHashSet`, a hash set that can itself be hashed. What
/// it holds goes by the name `held`.
#[verifier::external_type_specification]
#[verifier::external_body]
#[verifier::reject_recursive_types(V)]
#[verifier::reject_recursive_types(S)]
pub struct ExHashableHashSet<V, S>(HashableHashSet<V, S>);

/// Whether one of the first `upto` cells of `items` lies at `at`.
pub open spec fn listed(items: Seq<Cell>, upto: int, at: (isize, isize)) -> bool {
    exists|i: int| 0 <= i < upto && i < items.len() && (#[trigger] items[i])@ == at
}

/// The locations that a set holds.
pub uninterp spec fn held(set: HashableHashSet<(isize, isize)>) -> Set<(isize, isize)>;

/// `HashableHashSet::new`: a set that holds nothing.
#[verifier::external_body]
fn set_new() -> (set: HashableHashSet<(isize, isize)>)
    ensures
        held(set) == Set::<(isize, isize)>::empty(),
{
    HashableHashSet::new()
}

/// `HashSet::contains`, reached through the set's `Deref`: whether the set
/// holds the location.
#[verifier::external_body]
fn set_contains(set: &HashableHashSet<(isize, isize)>, at: (isize, isize)) -> (found: bool)
    ensures
        found == held(*set).contains(at),
{
    set.contains(&at)
}

/// `HashSet::insert`, reached through the set's `DerefMut`: afterwards the
/// set holds the location and what it held before.
#[verifier::external_body]
fn set_insert(set: &mut HashableHashSet<(isize, isize)>, at: (isize, isize))
    ensures
        held(*final(set)) == held(*old(set)).insert(at),
{
    set.insert(at);
}

/// `HashSet::remove`, reached through the set's `DerefMut`: afterwards the
/// set holds what it held before but for the location.
#[verifier::external_body]
fn set_remove(set: &mut HashableHashSet<(isize, isize)>, at: (isize, isize))
    ensures
        held(*final(set)) == held(*old(set)).remove(at),
{
    set.remove(&at);
}

/// `HashSet::is_empty`, reached through the set's `Deref`: whether the set
/// holds nothing.
#[verifier::external_body]
fn set_is_empty(set: &HashableHashSet<(isize, isize)>) -> (empty: bool)
    ensures
        empty == (held(*set) == Set::<(isize, isize)>::empty()),
{
    set.is_empty()
}

/// `HashSet::iter`, reached through the set's `Deref`: every location the
/// set holds, each once, in an order that is left open.
#[verifier::external_body]
fn set_items(set: &HashableHashSet<(isize, isize)>) -> (items: Vec<Cell>)
    ensures
        items@.no_duplicates(),
        forall|at: (isize, isize)|
            #![trigger held(*set).contains(at)]
            #![trigger listed(items@, items@.len() as int, at)]
            held(*set).contains(at) <==> listed(items@, items@.len() as int, at),
{
    set.iter().map(|at| Cell { row: at.0, column: at.1 }).collect()
}

/// `HashSet::iter`, for a std set of cells: every cell the set holds, each
/// once, in an order that is left open. This goes by the `Eq` and `Hash` that
/// `Cell` derives.
#[verifier::external_body]
fn cells_listed(cells: &HashSet<Cell>) -> (items: Vec<Cell>)
    ensures
        items@.no_duplicates(),
        items@.to_set() == cells@,
{
    cells.iter().copied().collect()
}

/// `HashableHashSet::eq`: whether two sets hold the same locations.
#[verifier::external_body]
fn set_eq(left: &HashableHashSet<(isize, isize)>, right: &HashableHashSet<(isize, isize)>) -> (same:
    bool)
    ensures
        same == (held(*left) == held(*right)),
{
    left == right
}

/// `HashableHashSet::clone`: a set that holds the same locations.
#[verifier::external_body]
fn set_clone(set: &HashableHashSet<(isize, isize)>) -> (copy: HashableHashSet<(isize, isize)>)
    ensures
        held(copy) == held(*set),
{
    set.clone()
}

/// `std::io::Error`, carried through as the cause of a failed read. Nothing
/// is claimed of it.
#[verifier::external_type_specification]
#[verifier::external_body]
pub struct ExIoError(std::io::Error);

/// Why a set of cells could not be read.
#[derive(Debug)]
pub enum CellsError {
    /// The rows of the pattern text differ in length.
    InconsistentLineLengths,
    /// The pattern text could not be read from where it is stored.
    FileError(std::io::Error),
}

/// A set of cells.
#[derive(Debug, Hash)]
pub struct Cells(HashableHashSet<(isize, isize)>);

impl View for Cells {
    type V = Set<(isize, isize)>;

    /// The locations of the cells in the set.
    closed spec fn view(&self) -> Set<(isize, isize)> {
        held(self.0)
    }
}

/// Whether `extent` is the smallest rectangle that holds every location of
/// `cells`: it holds them all, and each of its four sides touches one.
pub open spec fn frames(cells: Set<(isize, isize)>, extent: Extent) -> bool {
    &&& forall|at: (isize, isize)| cells.contains(at) ==> extent.holds(at)
    &&& exists|at: (isize, isize)| cells.contains(at) && at.0 == extent.row_min
    &&& exists|at: (isize, isize)| cells.contains(at) && at.0 == extent.row_max
    &&& exists|at: (isize, isize)| cells.contains(at) && at.1 == extent.column_min
    &&& exists|at: (isize, isize)| cells.contains(at) && at.1 == extent.column_max
}

/// The smallest rectangle that holds every location of `cells`; `None`
/// where there is no such rectangle, as for the empty set.
pub open spec fn bounding(cells: Set<(isize, isize)>) -> Option<Extent> {
    if exists|extent: Extent| frames(cells, extent) {
        Some(choose|extent: Extent| frames(cells, extent))
    } else {
        None
    }
}

/// A set has at most one smallest rectangle around it.
pub proof fn bounding_is_unique(cells: Set<(isize, isize)>, extent: Extent)
    requires
        frames(cells, extent),
    ensures
        bounding(cells) == Some(extent),
{
    let other = choose|other: Extent| frames(cells, other);
    assert(other.row_min == extent.row_min);
    assert(other.row_max == extent.row_max);
    assert(other.column_min == extent.column_min);
    assert(other.column_max == extent.column_max);
}

/// Where a location of the rectangle `extent` goes when the rectangle is
/// turned clockwise by `quarter` quarter turns and laid back on its first
/// row and its first column. A quarter turn makes the column index the row
/// index and the reversed row index the column index; a half turn reverses
/// both indices; three quarter turns make the reversed column index the row
/// index and the row index the column index.
pub open spec fn turned(at: (isize, isize), extent: Extent, quarter: int) -> (isize, isize) {
    if quarter == 1 {
        (
            carried(extent.row_min + (at.1 - extent.column_min)),
            carried(extent.column_min + (extent.row_max - at.0)),
        )
    } else if quarter == 2 {
        (
            carried(extent.row_min + (extent.row_max - at.0)),
            carried(extent.column_min + (extent.column_max - at.1)),
        )
    } else if quarter == 3 {
        (
            carried(extent.row_min + (extent.column_max - at.1)),
            carried(extent.column_min + (at.0 - extent.row_min)),
        )
    } else {
        at
    }
}

/// The locations of `cells` after `n` quarter turns clockwise within the
/// smallest rectangle around them. A set without such a rectangle stays as
/// it is.
pub open spec fn rotated(cells: Set<(isize, isize)>, n: int) -> Set<(isize, isize)> {
    match bounding(cells) {
        None => cells,
        Some(extent) => Set::new(
            |to: (isize, isize)|
                exists|at: (isize, isize)|
                    cells.contains(at) && #[trigger] turned(at, extent, n % 4) == to,
        ),
    }
}

/// The coordinate that lies as far behind `base` as `high` lies behind
/// `low`, carried around the ends of `isize`.
fn placed(base: isize, low: isize, high: isize) -> (place: isize)
    requires
        low <= high,
    ensures
        place == carried(base + (high - low)),
{
    base.wrapping_add(high.wrapping_sub(low))
}

impl Default for Cells {
    fn default() -> (cells: Self)
        ensures
            cells@ == Set::<(isize, isize)>::empty(),
    {
        Cells(set_new())
    }
}

impl Clone for Cells {
    fn clone(&self) -> (copy: Self)
        ensures
            copy@ == self@,
    {
        Cells(set_clone(&self.0))
    }
}

impl PartialEq for Cells {
    fn eq(&self, other: &Self) -> (same: bool) {
        set_eq(&self.0, &other.0)
    }
}

impl Eq for Cells {

}

impl vstd::std_specs::cmp::PartialEqSpecImpl for Cells {
    open spec fn obeys_eq_spec() -> bool {
        true
    }

    open spec fn eq_spec(&self, other: &Self) -> bool {
        self@ == other@
    }
}

impl Cells {
    /// The set of the given cells.
    pub fn new(cells: HashSet<Cell>) -> (set: Self)
        ensures
            forall|cell: Cell| set@.contains(cell@) <==> cells@.contains(cell),
    {
        let items = cells_listed(&cells);
        let set = Cells::from_iter(items);
        proof {
            assert forall|cell: Cell| set@.contains(cell@) <==> cells@.contains(cell) by {
                if set@.contains(cell@) {
                    assert(listed(items@, items@.len() as int, cell@));
                    let i = choose|i: int|
                        0 <= i < items@.len() && (#[trigger] items@[i])@ == cell@;
                    assert(items@[i] == cell);
                    assert(items@.to_set().contains(items@[i]));
                }
                if cells@.contains(cell) {
                    assert(items@.to_set().contains(cell));
                    let i = choose|i: int| 0 <= i < items@.len() && items@[i] == cell;
                    assert(items@[i]@ == cell@);
                }
            }
        }
        set
    }

    /// The set of the given cells.
    pub fn from_iter(cells: Vec<Cell>) -> (set: Self)
        ensures
            forall|at: (isize, isize)|
                #![trigger set@.contains(at)]
                #![trigger listed(cells@, cells@.len() as int, at)]
                set@.contains(at) <==> listed(cells@, cells@.len() as int, at),
    {
        let mut set = Cells::default();
        let mut i: usize = 0;
        while i < cells.len()
            invariant
                i <= cells.len(),
                forall|at: (isize, isize)| set@.contains(at) <==> listed(cells@, i as int, at),
            decreases cells.len() - i,
        {
            set.add_cell(cells[i]);
            i += 1;
        }
        set
    }

    /// The cells of the set, each once, in an order that is left open.
    pub fn iter(&self) -> (items: Vec<Cell>)
        ensures
            items@.no_duplicates(),
            forall|at: (isize, isize)|
                #![trigger self@.contains(at)]
                #![trigger listed(items@, items@.len() as int, at)]
                self@.contains(at) <==> listed(items@, items@.len() as int, at),
    {
        set_items(&self.0)
    }

    pub fn is_empty(&self) -> (empty: bool)
        ensures
            empty == (self@ == Set::<(isize, isize)>::empty()),
    {
        set_is_empty(&self.0)
    }

    /// The smallest region that holds every cell of the set; undefined for
    /// the empty set.
    pub fn bounds(&self) -> (bounds: Bounds)
        ensures
            bounds@ == bounding(self@),
            self@ == Set::<(isize, isize)>::empty() ==> bounds@ is None,
            bounds@ matches Some(e) ==> frames(self@, e),
    {
        let items = self.iter();
        let mut bounds = Bounds::default();
        let ghost mut top: int = 0;
        let ghost mut bottom: int = 0;
        let ghost mut left: int = 0;
        let ghost mut right: int = 0;
        let mut i: usize = 0;
        while i < items.len()
            invariant
                i <= items.len(),
                i == 0 ==> bounds@ is None,
                i > 0 ==> bounds@ is Some,
                i > 0 ==> 0 <= top < i && 0 <= bottom < i && 0 <= left < i && 0 <= right < i,
                i > 0 ==> items@[top]@.0 == bounds@.unwrap().row_min,
                i > 0 ==> items@[bottom]@.0 == bounds@.unwrap().row_max,
                i > 0 ==> items@[left]@.1 == bounds@.unwrap().column_min,
                i > 0 ==> items@[right]@.1 == bounds@.unwrap().column_max,
                forall|j: int| 0 <= j < i ==> bounds@.unwrap().holds((#[trigger] items@[j])@),
            decreases items.len() - i,
        {
            let ghost before = bounds@;
            bounds.encompass(&items[i]);
            proof {
                let after = bounds@.unwrap();
                let at = items@[i as int]@;
                if before is None || at.0 < before.unwrap().row_min {
                    top = i as int;
                }
                if before is None || at.0 > before.unwrap().row_max {
                    bottom = i as int;
                }
                if before is None || at.1 < before.unwrap().column_min {
                    left = i as int;
                }
                if before is None || at.1 > before.unwrap().column_max {
                    right = i as int;
                }
                assert forall|j: int| 0 <= j < i + 1 implies after.holds((#[trigger] items@[j])@) by {
                    if j < i {
                        assert(before.unwrap().holds(items@[j]@));
                    }
                }
            }
            i += 1;
        }
        proof {
            if items.len() == 0 {
                assert forall|extent: Extent| !frames(self@, extent) by {
                    if frames(self@, extent) {
                        let at = choose|at: (isize, isize)|
                            self@.contains(at) && at.0 == extent.row_min;
                        assert(listed(items@, 0, at));
                    }
                }
                assert(self@ =~= Set::<(isize, isize)>::empty()) by {
                    assert forall|at: (isize, isize)| !self@.contains(at) by {
                        if self@.contains(at) {
                            assert(listed(items@, 0, at));
                        }
                    }
                }
            } else {
                let extent = bounds@.unwrap();
                let n = items@.len() as int;
                assert(listed(items@, n, items@[top]@));
                assert(listed(items@, n, items@[bottom]@));
                assert(listed(items@, n, items@[left]@));
                assert(listed(items@, n, items@[right]@));
                assert forall|at: (isize, isize)| self@.contains(at) implies extent.holds(at) by {
                    assert(listed(items@, n, at));
                }
                assert(self@.contains(items@[top]@) && items@[top]@.0 == extent.row_min);
                assert(self@.contains(items@[bottom]@) && items@[bottom]@.0 == extent.row_max);
                assert(self@.contains(items@[left]@) && items@[left]@.1 == extent.column_min);
                assert(self@.contains(items@[right]@) && items@[right]@.1 == extent.column_max);
                assert(frames(self@, extent));
                bounding_is_unique(self@, extent);
            }
        }
        bounds
    }

    /// Adds every cell of `cells` to the set.
    pub fn add_cells(&mut self, cells: Cells)
        ensures
            final(self)@ == old(self)@.union(cells@),
    {
        let items = cells.iter();
        let mut i: usize = 0;
        while i < items.len()
            invariant
                i <= items.len(),
                forall|at: (isize, isize)|
                    self@.contains(at) <==> old(self)@.contains(at) || listed(items@, i as int, at),
            decreases items.len() - i,
        {
            self.add_cell(items[i]);
            i += 1;
        }
        assert(self@ =~= old(self)@.union(cells@));
    }

    /// Takes every cell of `cells` out of the set.
    pub fn remove_cells(&mut self, cells: Cells)
        ensures
            final(self)@ == old(self)@.difference(cells@),
    {
        let items = cells.iter();
        let mut i: usize = 0;
        while i < items.len()
            invariant
                i <= items.len(),
                forall|at: (isize, isize)|
                    self@.contains(at) <==> old(self)@.contains(at) && !listed(items@, i as int, at),
            decreases items.len() - i,
        {
            set_remove(&mut self.0, (items[i].row, items[i].column));
            i += 1;
        }
        assert(self@ =~= old(self)@.difference(cells@));
    }

    /// Turns the set clockwise by `n` quarter turns and lays it back on the
    /// first row and the first column of the smallest rectangle around it. A
    /// negative `n` turns the other way; the empty set stays empty and a
    /// single cell stays where it is.
    pub fn rotate(self, n: isize) -> (turned_set: Self)
        ensures
            turned_set@ == rotated(self@, n as int),
    {
        let modulus = n % 4;
        let cycle: isize = if modulus >= 0 { modulus } else { 4 + modulus };
        assert(cycle == (n as int) % 4);
        let bounds = self.bounds();
        match bounds.extent() {
            None => self,
            Some(extent) => {
                let items = self.iter();
                let mut result = Cells::default();
                let mut i: usize = 0;
                while i < items.len()
                    invariant
                        i <= items.len(),
                        0 <= cycle < 4,
                        frames(self@, extent),
                        forall|at: (isize, isize)|
                            self@.contains(at) <==> listed(items@, items@.len() as int, at),
                        forall|to: (isize, isize)|
                            result@.contains(to) <==> exists|j: int|
                                0 <= j < i && turned((#[trigger] items@[j])@, extent, cycle as int)
                                    == to,
                    decreases items.len() - i,
                {
                    let cell = items[i];
                    assert(listed(items@, items@.len() as int, cell@));
                    assert(extent.holds(cell@));
                    let moved = if cycle == 1 {
                        Cell::new(
                            placed(extent.row_min, extent.column_min, cell.column),
                            placed(extent.column_min, cell.row, extent.row_max),
                        )
                    } else if cycle == 2 {
                        Cell::new(
                            placed(extent.row_min, cell.row, extent.row_max),
                            placed(extent.column_min, cell.column, extent.column_max),
                        )
                    } else if cycle == 3 {
                        Cell::new(
                            placed(extent.row_min, cell.column, extent.column_max),
                            placed(extent.column_min, extent.row_min, cell.row),
                        )
                    } else {
                        cell
                    };
                    assert(moved@ == turned(cell@, extent, cycle as int));
                    result.add_cell(moved);
                    i += 1;
                }
                proof {
                    let goal = rotated(self@, n as int);
                    assert forall|to: (isize, isize)| result@.contains(to) implies goal.contains(
                        to,
                    ) by {
                        let j = choose|j: int|
                            0 <= j < i && turned((#[trigger] items@[j])@, extent, cycle as int)
                                == to;
                        assert(listed(items@, items@.len() as int, items@[j]@));
                        assert(self@.contains(items@[j]@));
                    }
                    assert forall|to: (isize, isize)| goal.contains(to) implies result@.contains(
                        to,
                    ) by {
                        let at = choose|at: (isize, isize)|
                            self@.contains(at) && #[trigger] turned(at, extent, (n as int) % 4)
                                == to;
                        assert(listed(items@, items@.len() as int, at));
                    }
                    assert(result@ =~= goal);
                }
                result
            },
        }
    }


    pub fn contains(&self, cell: &Cell) -> (found: bool)
        ensures
            found == self@.contains(cell@),
    {
        set_contains(&self.0, (cell.row, cell.column))
    }

    pub fn add_cell(&mut self, cell: Cell)
        ensures
            final(self)@ == old(self)@.insert(cell@),
    {
        set_insert(&mut self.0, (cell.row, cell.column));
    }
}

} // verus!
