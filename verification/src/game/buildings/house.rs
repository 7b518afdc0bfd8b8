use vstd::prelude::*;
use crate::engine::collision::{CollisionBox, TriggerCollision};
use crate::engine::datatypes::{Position, Rectangle, Sprite};
use crate::engine::enums::BuildingType;
use crate::engine::world::{Colony, Components, Entity};
use crate::game::buildings::datatypes::{
    Building, ConstructionPlacement, ConstructionStorage, House,
};
use crate::game::buildings::utils::{construction_cost, get_building_construction_cost};
use crate::game::constants::TILE_SIZE;

verus! {

/// The record of a house under construction at `position`: one tile wide,
/// with a sensor, and still in need of all that a house costs.
pub open spec fn house_record(position: Position) -> Components {
    Components {
        building: Some(Building),
        house: Some(House),
        construction_storage: Some(
            ConstructionStorage {
                tasks_generated: false,
                required_item_list: construction_cost(BuildingType::House),
            },
        ),
        sprite: Some(
            Sprite {
                position,
                rect: Rectangle { x: 32000, y: 16000, width: TILE_SIZE, height: TILE_SIZE },
            },
        ),
        collision_box: Some(
            CollisionBox {
                rect: Rectangle { x: position.x, y: position.y, width: TILE_SIZE, height: TILE_SIZE },
            },
        ),
        trigger_collision: Some(TriggerCollision { colliding: false, other_trigger: None }),
        ..Components::nothing()
    }
}

/// The record of a house that the player is still placing, at `position`.
pub open spec fn house_placement_record(position: Position) -> Components {
    Components {
        construction_placement: Some(
            ConstructionPlacement {
                position,
                building_rect: Rectangle { x: 32000, y: 16000, width: TILE_SIZE, height: TILE_SIZE },
            },
        ),
        ..house_record(position)
    }
}

/// Puts the construction site of a house into the world.
pub fn spawn_finished_house(world: &mut Colony, position: Position) -> (house: Entity)
    requires
        old(world).wf(),
        old(world).count() < u32::MAX,
    ensures
        !old(world).has(house),
        final(world).records() == old(world).records().insert(house.bits, house_record(position)),
        final(world).count() == old(world).count() + 1,
        final(world).same_tasks(*old(world)),
        final(world).wf(),
{
    let sprite = Sprite::new(position, Position { x: 2, y: 1 }, TILE_SIZE);
    let col_box = CollisionBox {
        rect: Rectangle { x: position.x, y: position.y, width: TILE_SIZE, height: TILE_SIZE },
    };
    let construction = ConstructionStorage {
        tasks_generated: false,
        required_item_list: get_building_construction_cost(BuildingType::House),
    };
    let mut record = Components::new();
    record.building = Some(Building);
    record.house = Some(House);
    record.construction_storage = Some(construction);
    record.sprite = Some(sprite);
    record.collision_box = Some(col_box);
    record.trigger_collision = Some(TriggerCollision::new());
    world.spawn(record).unwrap()
}

/// Puts a house into the world that the player is still placing. It gets no
/// tasks before it is placed.
pub fn spawn_house_placement(world: &mut Colony, position: Position) -> (house: Entity)
    requires
        old(world).wf(),
        old(world).count() < u32::MAX,
    ensures
        !old(world).has(house),
        final(world).records() == old(world).records().insert(
            house.bits,
            house_placement_record(position),
        ),
        final(world).count() == old(world).count() + 1,
        final(world).same_tasks(*old(world)),
        final(world).wf(),
{
    let sprite = Sprite::new(position, Position { x: 2, y: 1 }, TILE_SIZE);
    let placement = ConstructionPlacement {
        position,
        building_rect: Rectangle { x: 32000, y: 16000, width: TILE_SIZE, height: TILE_SIZE },
    };
    let col_box = CollisionBox {
        rect: Rectangle { x: position.x, y: position.y, width: TILE_SIZE, height: TILE_SIZE },
    };
    let construction = ConstructionStorage {
        tasks_generated: false,
        required_item_list: get_building_construction_cost(BuildingType::House),
    };
    let mut record = Components::new();
    record.building = Some(Building);
    record.house = Some(House);
    record.construction_placement = Some(placement);
    record.sprite = Some(sprite);
    record.construction_storage = Some(construction);
    record.collision_box = Some(col_box);
    record.trigger_collision = Some(TriggerCollision::new());
    world.spawn(record).unwrap()
}

} // verus!
