use vstd::prelude::*;

verus! {

/// A point of the world, or a distance along both axes, in units.
#[derive(Debug, Clone, Copy, PartialEq, Eq, Hash, Structural)]
pub struct Position {
    pub x: i32,
    pub y: i32,
}

impl Position {
    /// The point with these coordinates.
    pub fn new(x: i32, y: i32) -> (position: Position)
        ensures
            position == (Position { x, y }),
    {
        Position { x, y }
    }

    /// The origin of the world.
    pub fn zero() -> (position: Position)
        ensures
            position == (Position { x: 0, y: 0 }),
    {
        Position { x: 0, y: 0 }
    }
}

/// An axis-aligned rectangle: its corner of least coordinates and its size.
#[derive(Debug, Clone, Copy, PartialEq, Eq, Hash, Structural)]
pub struct Rectangle {
    pub x: i32,
    pub y: i32,
    pub width: i32,
    pub height: i32,
}

/// Where an entity stands, and the tile of the atlas that shows it.
#[derive(Debug, Clone, Copy, PartialEq, Eq, Structural)]
pub struct Sprite {
    pub rect: Rectangle,
    pub position: Position,
}

impl Sprite {
    /// The sprite at `position` that shows the tile `atlas_tile`, counted in
    /// tiles, of an atlas whose tiles are `tile_size` wide.
    pub fn new(position: Position, atlas_tile: Position, tile_size: i32) -> (sprite: Sprite)
        requires
            i32::MIN <= atlas_tile.x * tile_size <= i32::MAX,
            i32::MIN <= atlas_tile.y * tile_size <= i32::MAX,
        ensures
            sprite.position == position,
            sprite.rect.x == atlas_tile.x * tile_size,
            sprite.rect.y == atlas_tile.y * tile_size,
            sprite.rect.width == tile_size,
            sprite.rect.height == tile_size,
    {
        Sprite {
            position,
            rect: Rectangle {
                x: atlas_tile.x * tile_size,
                y: atlas_tile.y * tile_size,
                width: tile_size,
                height: tile_size,
            },
        }
    }
}

} // verus!
