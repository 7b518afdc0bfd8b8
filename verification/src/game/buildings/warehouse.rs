use vstd::prelude::*;
use crate::engine::collision::{CollisionBox, TriggerCollision};
use crate::engine::datatypes::{Position, Rectangle, Sprite};
use crate::engine::world::{Colony, Components, Entity};
use crate::game::buildings::datatypes::{Building, ItemList, Storage, StorageSpace, Warehouse};
use crate::game::constants::TILE_SIZE;

verus! {

/// The record of a warehouse at `position` that holds `starting_storage`
/// and has promised nothing: one tile wide, with a sensor.
pub open spec fn warehouse_record(position: Position, starting_storage: ItemList) -> Components {
    Components {
        building: Some(Building),
        warehouse: Some(Warehouse),
        storage: Some(Storage),
        storage_space: Some(
            StorageSpace {
                item_list: starting_storage,
                reserved_item_list: ItemList { wood: None, stone: None },
            },
        ),
        sprite: Some(
            Sprite {
                position,
                rect: Rectangle { x: 96000, y: 64000, width: TILE_SIZE, height: TILE_SIZE },
            },
        ),
        collision_box: Some(
            CollisionBox {
                rect: Rectangle { x: position.x, y: position.y, width: TILE_SIZE, height: TILE_SIZE },
            },
        ),
        trigger_collision: Some(TriggerCollision { colliding: false, other_trigger: None }),
        ..Components::nothing()
    }
}

/// Puts a warehouse into the world.
pub fn spawn_finished_warehouse(
    world: &mut Colony,
    position: Position,
    starting_storage: ItemList,
) -> (warehouse: Entity)
    requires
        old(world).wf(),
        old(world).count() < u32::MAX,
    ensures
        !old(world).has(warehouse),
        final(world).records() == old(world).records().insert(
            warehouse.bits,
            warehouse_record(position, starting_storage),
        ),
        final(world).count() == old(world).count() + 1,
        final(world).same_tasks(*old(world)),
        final(world).wf(),
{
    let storage_space = StorageSpace {
        item_list: starting_storage,
        reserved_item_list: ItemList { wood: None, stone: None },
    };
    let sprite = Sprite::new(position, Position { x: 6, y: 4 }, TILE_SIZE);
    let col_box = CollisionBox {
        rect: Rectangle { x: position.x, y: position.y, width: TILE_SIZE, height: TILE_SIZE },
    };
    let mut record = Components::new();
    record.building = Some(Building);
    record.warehouse = Some(Warehouse);
    record.storage = Some(Storage);
    record.storage_space = Some(storage_space);
    record.sprite = Some(sprite);
    record.collision_box = Some(col_box);
    record.trigger_collision = Some(TriggerCollision::new());
    world.spawn(record).unwrap()
}

} // verus!
