use vstd::prelude::*;
use crate::bounds::Bounds;
use crate::cell::{neighbour_at, shifted};
use crate::generations::GenerationsView;
use crate::world::{evolved, live_neighbours, lives_on, tally, WorldView};

verus! {

/// The number of live neighbours, written out neighbour by neighbour.
pub proof fn live_neighbours_unfolded(cells: Set<(isize, isize)>, at: (isize, isize))
    ensures
        live_neighbours(cells, at) == (if cells.contains(neighbour_at(at, 0)) { 1nat } else { 0nat })
            + (if cells.contains(neighbour_at(at, 1)) { 1nat } else { 0nat })
            + (if cells.contains(neighbour_at(at, 2)) { 1nat } else { 0nat })
            + (if cells.contains(neighbour_at(at, 3)) { 1nat } else { 0nat })
            + (if cells.contains(neighbour_at(at, 4)) { 1nat } else { 0nat })
            + (if cells.contains(neighbour_at(at, 5)) { 1nat } else { 0nat })
            + (if cells.contains(neighbour_at(at, 6)) { 1nat } else { 0nat })
            + (if cells.contains(neighbour_at(at, 7)) { 1nat } else { 0nat }),
{
    reveal_with_fuel(tally, 9);
}

/// A live cell without live neighbours dies.
pub proof fn lonely_cell_dies(cells: Set<(isize, isize)>, at: (isize, isize))
    requires
        cells.contains(at),
        live_neighbours(cells, at) == 0,
    ensures
        !evolved(cells).contains(at),
{
}

/// A world of one live cell has no live cell one generation later.
pub proof fn single_cell_dies(at: (isize, isize))
    ensures
        evolved(Set::<(isize, isize)>::empty().insert(at)) == Set::<(isize, isize)>::empty(),
{
    let cells = Set::<(isize, isize)>::empty().insert(at);
    assert forall|other: (isize, isize)| !lives_on(cells, other) by {
        live_neighbours_unfolded(cells, other);
    }
    assert(evolved(cells) =~= Set::<(isize, isize)>::empty());
}

/// The four locations of the block whose upper left corner is `at`.
pub open spec fn block(at: (isize, isize)) -> Set<(isize, isize)> {
    Set::<(isize, isize)>::empty().insert(at).insert((at.0, shifted(at.1, 1))).insert(
        (shifted(at.0, 1), at.1),
    ).insert((shifted(at.0, 1), shifted(at.1, 1)))
}

/// A block of two by two live cells stays as it is.
pub proof fn block_is_stable(at: (isize, isize))
    ensures
        evolved(block(at)) == block(at),
{
    let cells = block(at);
    assert forall|other: (isize, isize)| lives_on(cells, other) <==> cells.contains(other) by {
        live_neighbours_unfolded(cells, other);
    }
    assert(evolved(cells) =~= cells);
}

/// The three locations of the horizontal blinker whose left end is `at`.
pub open spec fn blinker(at: (isize, isize)) -> Set<(isize, isize)> {
    Set::<(isize, isize)>::empty().insert(at).insert((at.0, shifted(at.1, 1))).insert(
        (at.0, shifted(at.1, 2)),
    )
}

/// The three locations of a blinker one generation later: the column
/// through its middle.
pub open spec fn blinker_upright(at: (isize, isize)) -> Set<(isize, isize)> {
    Set::<(isize, isize)>::empty().insert((shifted(at.0, -1isize), shifted(at.1, 1))).insert(
        (at.0, shifted(at.1, 1)),
    ).insert((shifted(at.0, 1), shifted(at.1, 1)))
}

/// A blinker stands upright after one generation.
pub proof fn blinker_turns(at: (isize, isize))
    ensures
        evolved(blinker(at)) == blinker_upright(at),
{
    let cells = blinker(at);
    assert forall|other: (isize, isize)|
        lives_on(cells, other) <==> blinker_upright(at).contains(other) by {
        live_neighbours_unfolded(cells, other);
    }
    assert(evolved(cells) =~= blinker_upright(at));
}

/// An upright blinker lies flat again after one generation.
pub proof fn blinker_turns_back(at: (isize, isize))
    ensures
        evolved(blinker_upright(at)) == blinker(at),
{
    let cells = blinker_upright(at);
    assert forall|other: (isize, isize)| lives_on(cells, other) <==> blinker(at).contains(other) by {
        live_neighbours_unfolded(cells, other);
    }
    assert(evolved(cells) =~= blinker(at));
}

/// A blinker is back where it was after two generations.
pub proof fn blinker_has_period_two(at: (isize, isize))
    ensures
        evolved(evolved(blinker(at))) == blinker(at),
        evolved(blinker(at)) != blinker(at),
{
    blinker_turns(at);
    blinker_turns_back(at);
    assert(blinker_upright(at).contains((shifted(at.0, 1), shifted(at.1, 1))));
    assert(!blinker(at).contains((shifted(at.0, 1), shifted(at.1, 1))));
}

/// A world without live cells stays without live cells.
pub proof fn empty_stays_empty()
    ensures
        evolved(Set::<(isize, isize)>::empty()) == Set::<(isize, isize)>::empty(),
{
    let cells = Set::<(isize, isize)>::empty();
    assert forall|other: (isize, isize)| !lives_on(cells, other) by {
        live_neighbours_unfolded(cells, other);
    }
    assert(evolved(cells) =~= cells);
}

/// The sequence that starts at the unbounded world with the live locations
/// `live`, before it has handed out anything.
pub open spec fn starting(live: Set<(isize, isize)>) -> GenerationsView {
    GenerationsView {
        current: WorldView { live, bounds: Bounds::Undefined, viewport: Bounds::Undefined },
        seen: Set::<Set<(isize, isize)>>::empty(),
    }
}

/// The generations after a blinker are two: the upright blinker and the
/// blinker itself. Then the sequence has ended.
pub proof fn blinker_gives_two_generations(at: (isize, isize))
    ensures
        !starting(blinker(at)).halted(),
        starting(blinker(at)).advanced().current.live == blinker_upright(at),
        !starting(blinker(at)).advanced().halted(),
        starting(blinker(at)).advanced().advanced().current.live == blinker(at),
        starting(blinker(at)).advanced().advanced().halted(),
{
    blinker_has_period_two(at);
    blinker_turns(at);
    blinker_turns_back(at);
}

/// The generations after a single live cell are one: the world without live
/// cells. Then the sequence has ended.
pub proof fn single_cell_gives_one_generation(at: (isize, isize))
    ensures
        !starting(Set::<(isize, isize)>::empty().insert(at)).halted(),
        starting(Set::<(isize, isize)>::empty().insert(at)).advanced().current.live == Set::<
            (isize, isize),
        >::empty(),
        starting(Set::<(isize, isize)>::empty().insert(at)).advanced().halted(),
{
    single_cell_dies(at);
    empty_stays_empty();
}

} // verus!
