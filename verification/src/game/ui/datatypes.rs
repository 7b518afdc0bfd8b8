use vstd::prelude::*;
use crate::engine::world::Entity;
use crate::game::buildings::datatypes::ItemList;

verus! {

/// Marks a type as a tag: a component without data.
pub trait ComponentTag {

}

/// Tag of the label that shows how many tasks haulers are working on.
#[derive(Debug, Clone, Copy, PartialEq, Eq, Structural)]
pub struct ActiveTaskCountLabel;

/// Tag of the label that shows how many tasks wait for a hauler.
#[derive(Debug, Clone, Copy, PartialEq, Eq, Structural)]
pub struct IdleTaskCountLabel;

/// Tag of the label that shows what all storages hold together.
#[derive(Debug, Clone, Copy, PartialEq, Eq, Structural)]
pub struct GlobalStorageLabel;

impl ComponentTag for ActiveTaskCountLabel {

}

/// The hauler whose state the player watches.
#[derive(Debug, Clone, Copy, PartialEq, Eq, Structural)]
pub struct SelectedHauler {
    pub hauler: Entity,
}

/// What all storages hold together.
#[derive(Debug, Clone, Copy, PartialEq, Eq, Structural)]
pub struct GlobalStorage {
    pub resource_list: ItemList,
}

} // verus!
