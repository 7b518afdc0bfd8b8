use vstd::prelude::*;
use crate::engine::datatypes::{Position, Rectangle};

verus! {

/// Width of the window, in pixels.
pub const SCREEN_WIDTH: i32 = 1280;

/// Height of the window, in pixels.
pub const SCREEN_HEIGHT: i32 = 720;

/// Units in one pixel.
pub const PIXEL: i32 = 1000;

/// Side of a tile, in units.
pub const TILE_SIZE: i32 = 16000;

/// Side of a chunk, in tiles.
pub const CHUNK_TILE_SIZE: i32 = 16;

/// Side of a chunk, in units.
pub const CHUNK_RAW_SIZE: i32 = 256000;

/// Units a villager walks in a millisecond.
pub const VILLAGER_SPEED: i32 = 50;

/// What one hauler carries in one trip.
pub const HAULER_CAPACITY: i32 = 10;

/// Work left on a construction site once its resources are delivered.
pub const CONSTRUCTION_WORK: i32 = 100;

/// Where a villager idles when it was given no idle point of its own.
pub fn default_idle_point() -> (point: Position)
    ensures
        point == (Position { x: 192000, y: 192000 }),
{
    Position { x: 192000, y: 192000 }
}

/// The atlas tile, counted in tiles, that marks the default idle point.
pub fn default_idle_point_atlas_tile() -> (tile: Position)
    ensures
        tile == (Position { x: 2, y: 6 }),
{
    Position { x: 2, y: 6 }
}

/// The part of the atlas that shows a construction site.
pub fn construction_rect() -> (rect: Rectangle)
    ensures
        rect == (Rectangle { x: 0, y: 80000, width: 16000, height: 16000 }),
{
    Rectangle { x: 0, y: 80000, width: 16000, height: 16000 }
}

} // verus!
