use vstd::prelude::*;
use crate::bounds::Bounds;
use crate::cell::Cell;
use crate::cells::{Cells, CellsError};
use crate::parse::{even, grid, marked};
use crate::pattern::Pattern;
use crate::world::{clipped, World, WorldView};

verus! {

/// Why a world could not be made.
#[derive(Debug)]
pub enum WorldError {
    /// The cells of the world could not be read.
    BadPath(CellsError),
}

/// Where a starting world comes from.
#[derive(Debug)]
pub enum Source {
    /// A pattern text.
    Text(String),
    /// A built-in pattern.
    Preset(Pattern),
    /// Chance.
    Random,
}

/// The world that a pattern text with rows of one length gives: its marks
/// are the live cells, and it has no bounds and no viewport.
pub open spec fn world_of_text(text: Seq<char>) -> WorldView {
    WorldView { live: marked(grid(text)), bounds: Bounds::Undefined, viewport: Bounds::Undefined }
}

/// The world that a list of draws gives, without bounds and without a
/// viewport.
pub open spec fn world_of_draws(draws: Seq<bool>) -> WorldView {
    WorldView { live: sown(draws), bounds: Bounds::Undefined, viewport: Bounds::Undefined }
}

/// A region that may have been given by reference, as a value.
pub open spec fn given(region: Option<&Bounds>) -> Option<Bounds> {
    match region {
        Some(bounds) => Some(*bounds),
        None => None,
    }
}

/// A world after it has got the viewport and the bounds that were asked
/// for: the viewport is set where one was given, and then the bounds, which
/// drop the live cells outside them.
pub open spec fn arranged(world: WorldView, viewport: Option<Bounds>, bounds: Option<Bounds>) -> WorldView {
    let seen = match viewport {
        Some(region) => region,
        None => world.viewport,
    };
    match bounds {
        Some(region) => WorldView { live: clipped(world.live, region@), bounds: region, viewport: seen },
        None => WorldView { viewport: seen, ..world },
    }
}

/// The number of rows, and of columns, of a random world.
pub const SIDE: usize = 21;

/// The live locations that a list of draws gives: the draws go row by row
/// over the square of `SIDE` rows and columns that starts at `(0, 0)`, and a
/// location is live where its draw is `true`. A location without a draw is
/// dead.
pub open spec fn sown(draws: Seq<bool>) -> Set<(isize, isize)> {
    Set::new(
        |at: (isize, isize)|
            0 <= at.0 < SIDE && 0 <= at.1 < SIDE && at.0 * SIDE + at.1 < draws.len()
                && draws[at.0 * SIDE + at.1],
    )
}

/// `rand::random_ratio`: a draw that is `true` with a chance of `numerator`
/// in `denominator`. It is `true` for certain where the two are equal and
/// `false` for certain where `numerator` is 0; the call panics where
/// `denominator` is 0 or less than `numerator`.
#[verifier::external_body]
fn random_ratio(numerator: u32, denominator: u32) -> (hit: bool)
    requires
        0 < denominator,
        numerator <= denominator,
    ensures
        numerator == denominator ==> hit,
        numerator == 0 ==> !hit,
{
    rand::random_ratio(numerator, denominator)
}

impl World {
    /// The world of a pattern text, without bounds and without a viewport.
    /// A text whose rows differ in length is an error.
    pub fn from_text(text: &str) -> (result: Result<World, WorldError>)
        ensures
            match result {
                Ok(world) => even(grid(text@)) && world@ == world_of_text(text@),
                Err(WorldError::BadPath(error)) => !even(grid(text@))
                    && error is InconsistentLineLengths,
            },
    {
        match Cells::try_from(text) {
            Ok(cells) => Ok(World::from(cells)),
            Err(error) => Err(WorldError::BadPath(error)),
        }
    }

    /// The world of a built-in pattern, without bounds and without a
    /// viewport.
    pub fn try_from(pattern: &Pattern) -> (result: Result<World, WorldError>)
        ensures
            match result {
                Ok(world) => even(grid(pattern.text())) && world@ == world_of_text(pattern.text()),
                Err(WorldError::BadPath(error)) => !even(grid(pattern.text()))
                    && error is InconsistentLineLengths,
            },
    {
        World::from_text(pattern.cells_str())
    }

    /// Sets the viewport, where one is given, and then the bounds, where
    /// they are given.
    pub fn arrange(&mut self, viewport: Option<&Bounds>, bounds: Option<&Bounds>)
        ensures
            final(self)@ == arranged(old(self)@, given(viewport), given(bounds)),
    {
        if let Some(region) = viewport {
            self.with_viewport(region);
        }
        if let Some(region) = bounds {
            self.with_bounds(region);
        }
    }

    /// The starting world of a game: the world of `source` with the viewport
    /// and the bounds that are given. A pattern text whose rows differ in
    /// length is an error.
    pub fn start(source: &Source, viewport: Option<&Bounds>, bounds: Option<&Bounds>) -> (result:
        Result<World, WorldError>)
        ensures
            match *source {
                Source::Text(text) => match result {
                    Ok(world) => even(grid(text@)) && world@ == arranged(
                        world_of_text(text@),
                        given(viewport),
                        given(bounds),
                    ),
                    Err(WorldError::BadPath(error)) => !even(grid(text@))
                        && error is InconsistentLineLengths,
                },
                Source::Preset(pattern) => match result {
                    Ok(world) => even(grid(pattern.text())) && world@ == arranged(
                        world_of_text(pattern.text()),
                        given(viewport),
                        given(bounds),
                    ),
                    Err(WorldError::BadPath(error)) => !even(grid(pattern.text()))
                        && error is InconsistentLineLengths,
                },
                Source::Random => result matches Ok(world) && exists|draws: Seq<bool>|
                    draws.len() == SIDE * SIDE && world@ == arranged(
                        #[trigger] world_of_draws(draws),
                        given(viewport),
                        given(bounds),
                    ),
            },
    {
        let made = match source {
            Source::Text(text) => World::from_text(text.as_str()),
            Source::Preset(pattern) => World::try_from(pattern),
            Source::Random => Ok(World::random()),
        };
        match made {
            Ok(mut world) => {
                world.arrange(viewport, bounds);
                Ok(world)
            },
            Err(error) => Err(error),
        }
    }

    /// The world that a list of draws gives, without bounds and without a
    /// viewport.
    pub fn seeded(draws: &Vec<bool>) -> (world: World)
        ensures
            world@ == world_of_draws(draws@),
    {
        let mut cells = Cells::default();
        let mut row: usize = 0;
        while row < SIDE
            invariant
                row <= SIDE,
                forall|at: (isize, isize)|
                    #![trigger cells@.contains(at)]
                    cells@.contains(at) <==> sown(draws@).contains(at) && at.0 < row,
            decreases SIDE - row,
        {
            let mut column: usize = 0;
            while column < SIDE
                invariant
                    row < SIDE,
                    column <= SIDE,
                    forall|at: (isize, isize)|
                        #![trigger cells@.contains(at)]
                        cells@.contains(at) <==> sown(draws@).contains(at) && (at.0 < row || (at.0
                            == row && at.1 < column)),
                decreases SIDE - column,
            {
                let index = row * SIDE + column;
                if index < draws.len() && draws[index] {
                    cells.add_cell(Cell::new(row as isize, column as isize));
                }
                column += 1;
            }
            row += 1;
        }
        assert(cells@ =~= sown(draws@));
        World::from(cells)
    }

    /// A world of chance: each location of the square of `SIDE` rows and
    /// columns that starts at `(0, 0)` is live with a chance of one in five.
    /// The world has no bounds and no viewport.
    pub fn random() -> (world: World)
        ensures
            exists|draws: Seq<bool>|
                draws.len() == SIDE * SIDE && #[trigger] world_of_draws(draws) == world@,
            forall|at: (isize, isize)|
                world@.live.contains(at) ==> 0 <= at.0 < SIDE && 0 <= at.1 < SIDE,
            world@.bounds == Bounds::Undefined,
            world@.viewport == Bounds::Undefined,
    {
        let mut draws: Vec<bool> = Vec::new();
        while draws.len() < SIDE * SIDE
            invariant
                draws.len() <= SIDE * SIDE,
            decreases SIDE * SIDE - draws.len(),
        {
            draws.push(random_ratio(1, 5));
        }
        World::seeded(&draws)
    }
}

} // verus!
