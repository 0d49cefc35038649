//! Procedural generation of 2D dungeon-style tile maps: a rectangular grid of
//! wall/floor tiles populated with non-overlapping rectangular rooms.

pub mod grid;
pub mod rect;
mod rng;
pub mod tunnel;

pub use grid::GenerationError;
pub use grid::Grid;
pub use grid::TileType;
pub use rect::Rect;
