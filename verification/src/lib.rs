//! Conway's Game of Life on an unbounded grid of cells: the coordinate model,
//! sets of live cells, rectangular regions, the generation rule and the
//! sequence of generations that stops when a configuration recurs.

pub mod position;
pub mod cell;
pub mod bounds;
pub mod bounds_text;
pub mod cells;
pub mod rotation;
pub mod world;
pub mod shapes;
pub mod text;
pub mod render;
pub mod listing;
pub mod parse;
pub mod pattern;
pub mod generations;
pub mod seed;

pub use position::Position;
pub use cell::Cell;
pub use bounds::{Bounds, Extent};
pub use bounds_text::BoundsError;
pub use cells::{Cells, CellsError};
pub use world::World;
pub use seed::{Source, WorldError};
pub use pattern::Pattern;
pub use generations::Generations;
