//! A chunked 2-D tile world: spatial addressing, sparse tile-map storage with
//! procedural generation, and entity kinematics with wall collision.
//!
//! The world is an unbounded grid of chunks; each chunk holds a fixed grid of
//! tiles. Entities move continuously in fixed-point physical units while
//! remaining addressable by discrete tile coordinates.

use vstd::prelude::*;

pub mod assets;
pub mod color;
pub mod coord;
pub mod draw;
pub mod memory;
pub mod meters;
pub mod rng;
pub mod sim;
pub mod tilemap;
pub mod vector;
pub mod world;

verus! {

/// Number of columns in one tile map.
pub const TILE_MAP_COLUMNS: u16 = 16;

/// Number of rows in one tile map.
pub const TILE_MAP_ROWS: u16 = 9;

/// The row in the center of the screen.
pub const SCREEN_CENTER_ROW: u16 = TILE_MAP_ROWS / 2;

/// The column in the center of the screen.
pub const SCREEN_CENTER_COLUMN: u16 = TILE_MAP_COLUMNS / 2;

/// Width of the game window in pixels.
pub const GAME_WINDOW_WIDTH: u16 = 960;

/// Height of the game window in pixels.
pub const GAME_WINDOW_HEIGHT: u16 = 540;

/// Width of a tile in pixels.
pub const TILE_WIDTH: u16 = GAME_WINDOW_WIDTH / TILE_MAP_COLUMNS;

/// Half of the width of a tile in pixels.
pub const TILE_HALF_WIDTH: u16 = GAME_WINDOW_WIDTH / TILE_MAP_COLUMNS / 2;

/// Height of a tile in pixels.
pub const TILE_HEIGHT: u16 = GAME_WINDOW_HEIGHT / TILE_MAP_ROWS;

/// Half of the height of a tile in pixels.
pub const TILE_HALF_HEIGHT: u16 = GAME_WINDOW_HEIGHT / TILE_MAP_ROWS / 2;

/// Pixels per physical unit: one tile side spans this many pixels.
pub const PIXELS_PER_METER: i64 = 60;

/// Failures the world surfaces as errors. Each marks a fatal contract
/// violation in the simulation's design: a caller that meets its
/// preconditions never sees one, and a caller that receives one cannot
/// recover.
#[derive(Clone, Copy, Debug, PartialEq, Eq, Structural)]
pub enum Error {
    /// Attempted to draw an invalid rectangle.
    InvalidRectangle,
    /// The world registry has no free slot for another tile map.
    OutOfTileMaps,
    /// The memory arena cannot fit another allocation.
    OutOfMemory,
}

} // verus!
