use vstd::prelude::*;
use crate::bounds::{Bounds, Extent};
use crate::cell::{Cell, neighbour_at, shifted};
use crate::cells::{Cells, bounding, listed};
use crate::position::Position;

verus! {

/// How many of the first `upto` neighbours of `at` are in `cells`.
pub open spec fn tally(cells: Set<(isize, isize)>, at: (isize, isize), upto: nat) -> nat
    decreases upto,
{
    if upto == 0 {
        0
    } else {
        tally(cells, at, (upto - 1) as nat) + if cells.contains(neighbour_at(at, upto - 1)) {
            1nat
        } else {
            0nat
        }
    }
}

/// How many of the eight neighbours of `at` are in `cells`.
pub open spec fn live_neighbours(cells: Set<(isize, isize)>, at: (isize, isize)) -> nat {
    tally(cells, at, 8)
}

/// The rule of the game: a location is live in the next generation when it
/// has three live neighbours, or when it has two and is live now.
pub open spec fn lives_on(cells: Set<(isize, isize)>, at: (isize, isize)) -> bool {
    live_neighbours(cells, at) == 3 || (live_neighbours(cells, at) == 2 && cells.contains(at))
}

/// The live locations of the generation after `cells`.
pub open spec fn evolved(cells: Set<(isize, isize)>) -> Set<(isize, isize)> {
    Set::new(|at: (isize, isize)| lives_on(cells, at))
}

/// The locations of `cells` that lie in `region`; all of them where there is
/// no region.
pub open spec fn clipped(cells: Set<(isize, isize)>, region: Option<Extent>) -> Set<
    (isize, isize),
> {
    match region {
        None => cells,
        Some(extent) => Set::new(|at: (isize, isize)| cells.contains(at) && extent.holds(at)),
    }
}

/// The locations of `cells`, each moved by `offset`.
pub open spec fn moved(cells: Set<(isize, isize)>, offset: Position) -> Set<(isize, isize)> {
    Set::new(
        |to: (isize, isize)|
            exists|at: (isize, isize)|
                cells.contains(at) && #[trigger] displaced(at, offset) == to,
    )
}

/// The location `offset` away from `at`.
pub open spec fn displaced(at: (isize, isize), offset: Position) -> (isize, isize) {
    (shifted(at.0, offset.row), shifted(at.1, offset.column))
}

/// What a world is: its live locations, the bounds it is confined to and the
/// viewport that is drawn.
pub struct WorldView {
    pub live: Set<(isize, isize)>,
    pub bounds: Bounds,
    pub viewport: Bounds,
}

impl WorldView {
    /// Whether every live location lies in the world's bounds, where it has
    /// any.
    pub open spec fn confined(self) -> bool {
        self.bounds@ matches Some(extent) ==> forall|at: (isize, isize)|
            self.live.contains(at) ==> extent.holds(at)
    }

    /// The world one generation later.
    pub open spec fn next(self) -> WorldView {
        WorldView { live: clipped(evolved(self.live), self.bounds@), ..self }
    }

    /// The region that is drawn: the viewport where there is one, else the
    /// world's bounds, else the smallest rectangle around the live cells.
    pub open spec fn frame(self) -> Option<Extent> {
        if self.viewport@ is Some {
            self.viewport@
        } else if self.bounds@ is Some {
            self.bounds@
        } else {
            bounding(self.live)
        }
    }
}

/// Going to a neighbour and from there to the opposite neighbour leads back.
pub proof fn neighbour_back(at: (isize, isize), k: int)
    requires
        0 <= k < 8,
    ensures
        neighbour_at(neighbour_at(at, k), 7 - k) == at,
{
}

/// A location none of whose neighbours is live has a count of zero.
pub proof fn tally_of_none(cells: Set<(isize, isize)>, at: (isize, isize), upto: nat)
    requires
        forall|k: int| 0 <= k < upto ==> !cells.contains(#[trigger] neighbour_at(at, k)),
    ensures
        tally(cells, at, upto) == 0,
    decreases upto,
{
    if upto > 0 {
        tally_of_none(cells, at, (upto - 1) as nat);
    }
}

/// The state of the game: the live cells, the bounds that confine them and
/// the viewport that is drawn.
#[derive(Debug, PartialEq)]
pub struct World {
    live_cells: Cells,
    bounds: Bounds,
    viewport: Bounds,
}

impl View for World {
    type V = WorldView;

    closed spec fn view(&self) -> WorldView {
        WorldView { live: self.live_cells@, bounds: self.bounds, viewport: self.viewport }
    }
}

impl Clone for World {
    fn clone(&self) -> (copy: Self)
        ensures
            copy@ == self@,
    {
        World {
            live_cells: self.live_cells.clone(),
            bounds: self.bounds.clone(),
            viewport: self.viewport.clone(),
        }
    }
}

impl World {
    /// The world of the given live cells, without bounds and without a
    /// viewport.
    pub fn from(cells: Cells) -> (world: Self)
        ensures
            world@ == (WorldView {
                live: cells@,
                bounds: Bounds::Undefined,
                viewport: Bounds::Undefined,
            }),
            world@.confined(),
    {
        World { live_cells: cells, bounds: Bounds::Undefined, viewport: Bounds::Undefined }
    }

    pub fn live_cells(&self) -> (cells: &Cells)
        ensures
            cells@ == self@.live,
    {
        &self.live_cells
    }

    pub fn bounds(&self) -> (bounds: &Bounds)
        ensures
            *bounds == self@.bounds,
    {
        &self.bounds
    }

    pub fn viewport(&self) -> (viewport: &Bounds)
        ensures
            *viewport == self@.viewport,
    {
        &self.viewport
    }

    pub fn is_empty(&self) -> (empty: bool)
        ensures
            empty == (self@.live == Set::<(isize, isize)>::empty()),
    {
        self.live_cells.is_empty()
    }

    fn is_live(&self, cell: &Cell) -> (live: bool)
        ensures
            live == self@.live.contains(cell@),
    {
        self.live_cells.contains(cell)
    }

    /// Drops the live cells that lie outside the world's bounds.
    fn remove_off_worlders(&mut self)
        ensures
            final(self)@ == (WorldView {
                live: clipped(old(self)@.live, old(self)@.bounds@),
                ..old(self)@
            }),
            final(self)@.confined(),
    {
        if let Some(extent) = self.bounds.extent() {
            let items = self.live_cells.iter();
            let mut kept = Cells::default();
            let mut i: usize = 0;
            while i < items.len()
                invariant
                    i <= items.len(),
                    forall|at: (isize, isize)|
                        #![trigger kept@.contains(at)]
                        kept@.contains(at) <==> listed(items@, i as int, at) && extent.holds(at),
                decreases items.len() - i,
            {
                let cell = items[i];
                if extent.contains(&cell) {
                    kept.add_cell(cell);
                }
                i += 1;
            }
            assert(kept@ =~= clipped(self@.live, Some(extent)));
            self.live_cells = kept;
        }
    }

    /// Confines the world to `bounds` and drops the live cells outside it.
    /// Cells that are dropped do not come back when the bounds widen later.
    pub fn with_bounds(&mut self, bounds: &Bounds)
        ensures
            final(self)@ == (WorldView {
                live: clipped(old(self)@.live, bounds@),
                bounds: *bounds,
                viewport: old(self)@.viewport,
            }),
            final(self)@.confined(),
    {
        self.bounds = bounds.clone();
        self.remove_off_worlders();
    }

    /// Sets the region that is drawn; the live cells stay as they are.
    pub fn with_viewport(&mut self, viewport: &Bounds)
        ensures
            final(self)@ == (WorldView { viewport: *viewport, ..old(self)@ }),
    {
        self.viewport = viewport.clone();
    }

    /// How many of the eight neighbours of `cell` are live.
    fn neighbour_count(&self, cell: &Cell) -> (count: usize)
        ensures
            count == live_neighbours(self@.live, cell@),
            count <= 8,
    {
        let around = cell.neighbours();
        let mut count: usize = 0;
        let mut k: usize = 0;
        while k < 8
            invariant
                k <= 8,
                around@.len() == 8,
                forall|j: int| 0 <= j < 8 ==> (#[trigger] around@[j])@ == neighbour_at(cell@, j),
                count == tally(self@.live, cell@, k as nat),
                count <= k,
            decreases 8 - k,
        {
            if self.is_live(&around[k]) {
                count += 1;
            }
            k += 1;
        }
        count
    }

    /// Moves the world on by one generation: a live cell with fewer than two
    /// or more than three live neighbours dies, a dead cell with exactly
    /// three is born, and what then lies outside the bounds is dropped.
    pub fn next_generation(&mut self)
        ensures
            final(self)@ == old(self)@.next(),
            final(self)@.confined(),
    {
        let live = self.live_cells.iter();
        let mut considered = Cells::default();
        let mut i: usize = 0;
        while i < live.len()
            invariant
                i <= live.len(),
                forall|j: int| 0 <= j < i ==> considered@.contains((#[trigger] live@[j])@),
                forall|j: int, k: int|
                    0 <= j < i && 0 <= k < 8 ==> considered@.contains(
                        #[trigger] neighbour_at(live@[j]@, k),
                    ),
            decreases live.len() - i,
        {
            considered.add_cell(live[i]);
            let around = live[i].neighbours();
            let mut k: usize = 0;
            while k < 8
                invariant
                    k <= 8,
                    i < live.len(),
                    around@.len() == 8,
                    forall|j: int|
                        0 <= j < 8 ==> (#[trigger] around@[j])@ == neighbour_at(live@[i as int]@, j),
                    forall|j: int| 0 <= j <= i ==> considered@.contains((#[trigger] live@[j])@),
                    forall|j: int, m: int|
                        0 <= j < i && 0 <= m < 8 ==> considered@.contains(
                            #[trigger] neighbour_at(live@[j]@, m),
                        ),
                    forall|m: int|
                        0 <= m < k ==> considered@.contains(
                            #[trigger] neighbour_at(live@[i as int]@, m),
                        ),
                decreases 8 - k,
            {
                considered.add_cell(around[k]);
                k += 1;
            }
            i += 1;
        }
        let candidates = considered.iter();
        let mut dying = Cells::default();
        let mut born = Cells::default();
        let mut c: usize = 0;
        while c < candidates.len()
            invariant
                c <= candidates.len(),
                forall|at: (isize, isize)|
                    dying@.contains(at) <==> listed(candidates@, c as int, at) && (live_neighbours(
                        self@.live,
                        at,
                    ) < 2 || live_neighbours(self@.live, at) > 3),
                forall|at: (isize, isize)|
                    born@.contains(at) <==> listed(candidates@, c as int, at) && live_neighbours(
                        self@.live,
                        at,
                    ) == 3,
            decreases candidates.len() - c,
        {
            let count = self.neighbour_count(&candidates[c]);
            if count < 2 || count > 3 {
                dying.add_cell(candidates[c]);
            }
            if count == 3 {
                born.add_cell(candidates[c]);
            }
            c += 1;
        }
        let ghost before = self@.live;
        self.live_cells.remove_cells(dying);
        self.live_cells.add_cells(born);
        proof {
            assert forall|at: (isize, isize)|
                self@.live.contains(at) <==> lives_on(before, at) by {
                if !considered@.contains(at) {
                    if before.contains(at) {
                        assert(listed(live@, live@.len() as int, at));
                    }
                    assert forall|k: int| 0 <= k < 8 implies !before.contains(
                        #[trigger] neighbour_at(at, k),
                    ) by {
                        let near = neighbour_at(at, k);
                        if before.contains(near) {
                            assert(listed(live@, live@.len() as int, near));
                            let j = choose|j: int|
                                0 <= j < live@.len() && (#[trigger] live@[j])@ == near;
                            neighbour_back(at, k);
                            assert(considered@.contains(neighbour_at(live@[j]@, 7 - k)));
                        }
                    }
                    tally_of_none(before, at, 8);
                }
            }
            assert(self@.live =~= evolved(before));
        }
        self.remove_off_worlders();
    }

    /// Adds the cells of `cells`, each moved by `offset`, and drops what
    /// then lies outside the bounds.
    pub fn add_cells(&mut self, cells: Cells, offset: &Position)
        ensures
            final(self)@ == (WorldView {
                live: clipped(old(self)@.live.union(moved(cells@, *offset)), old(self)@.bounds@),
                ..old(self)@
            }),
            final(self)@.confined(),
    {
        let items = cells.iter();
        let mut shifted_cells = Cells::default();
        let mut i: usize = 0;
        while i < items.len()
            invariant
                i <= items.len(),
                forall|to: (isize, isize)|
                    shifted_cells@.contains(to) <==> exists|j: int|
                        0 <= j < i && displaced((#[trigger] items@[j])@, *offset) == to,
            decreases items.len() - i,
        {
            shifted_cells.add_cell(items[i].add(*offset));
            i += 1;
        }
        proof {
            let goal = moved(cells@, *offset);
            assert forall|to: (isize, isize)| shifted_cells@.contains(to) implies goal.contains(
                to,
            ) by {
                let j = choose|j: int|
                    0 <= j < i && displaced((#[trigger] items@[j])@, *offset) == to;
                assert(listed(items@, items@.len() as int, items@[j]@));
            }
            assert forall|to: (isize, isize)| goal.contains(to) implies shifted_cells@.contains(
                to,
            ) by {
                let at = choose|at: (isize, isize)|
                    cells@.contains(at) && #[trigger] displaced(at, *offset) == to;
                assert(listed(items@, items@.len() as int, at));
            }
            assert(shifted_cells@ =~= goal);
        }
        self.live_cells.add_cells(shifted_cells);
        self.remove_off_worlders();
    }
}

} // verus!
