use vstd::prelude::*;

verus! {

/// A kind of resource that buildings store and haulers carry.
#[derive(Debug, Clone, Copy, PartialEq, Eq, Hash, Structural)]
pub enum GameResource {
    Wood,
    Stone,
}

impl Default for GameResource {
    fn default() -> (resource: GameResource)
        ensures
            resource == GameResource::Wood,
    {
        GameResource::Wood
    }
}

/// Which collisions an entity takes part in.
#[derive(Debug, Clone, Copy, PartialEq, Eq, Structural)]
pub enum CollisionType {
    Body,
    Trigger,
    All,
}

/// What a button shows.
#[derive(Debug, Clone, Copy, PartialEq, Eq, Structural)]
pub enum ButtonState {
    Normal,
    Hovered,
    Pressed,
    Toggled,
}

/// What a villager is doing. On an entity the state is the one state tag it
/// carries.
#[derive(Debug, Clone, Copy, PartialEq, Eq, Structural)]
pub enum VillagerState {
    Idle,
    Loading,
    Carrying,
    Working,
}

/// The trade of a villager.
#[derive(Debug, Clone, Copy, PartialEq, Eq, Structural)]
pub enum VillagerType {
    Hauler,
    Builder,
}

/// The kinds of building that can be built.
#[derive(Debug, Clone, Copy, PartialEq, Eq, Structural)]
pub enum BuildingType {
    Warehouse,
    House,
}

} // verus!
