use vstd::prelude::*;
use crate::engine::datatypes::{Position, Rectangle, Sprite};
use crate::engine::enums::CollisionType;
use crate::engine::world::{Colony, Components, Entity};
use crate::game::buildings::datatypes::ItemList;
use crate::game::buildings::house::{house_record, spawn_finished_house};
use crate::game::buildings::warehouse::{spawn_finished_warehouse, warehouse_record};
use crate::game::constants::{default_idle_point, default_idle_point_atlas_tile, TILE_SIZE};
use crate::game::scenes::test_map_scene::setup_test_map;
use crate::game::scenes::{ActiveScene, Scene};
use crate::game::ui::datatypes::SelectedHauler;
use crate::game::villagers::hauler::{hauler_record, spawn_hauler};

verus! {

/// The record of the sign that marks the default idle point.
pub open spec fn idle_point_record() -> Components {
    Components {
        sprite: Some(
            Sprite {
                position: Position { x: 192000, y: 192000 },
                rect: Rectangle { x: 32000, y: 96000, width: TILE_SIZE, height: TILE_SIZE },
            },
        ),
        ..Components::nothing()
    }
}

/// `after` is `before` with the buildings of the map: the sign at the
/// default idle point, an empty warehouse at (304, 256) and the site of a
/// house at (16, 192), in pixels, each under a new handle.
pub open spec fn buildings_spawned(
    before: Map<u64, Components>,
    after: Map<u64, Components>,
) -> bool {
    exists|sign: u64, warehouse: u64, house: u64|
        {
            &&& !before.contains_key(sign)
            &&& !before.contains_key(warehouse)
            &&& !before.contains_key(house)
            &&& sign != warehouse
            &&& sign != house
            &&& warehouse != house
            &&& after == #[trigger] before.insert(sign, idle_point_record()).insert(
                warehouse,
                warehouse_record(
                    Position { x: 304000, y: 256000 },
                    ItemList { wood: None, stone: None },
                ),
            ).insert(house, house_record(Position { x: 16000, y: 192000 }))
        }
}

/// `after` is `before` with the villager of the map: a hauler at (48, 48),
/// in pixels, that senses what it overlaps and idles around the default
/// idle point, under the new handle `hauler`.
pub open spec fn villagers_spawned(
    before: Map<u64, Components>,
    after: Map<u64, Components>,
    hauler: Entity,
) -> bool {
    &&& !before.contains_key(hauler.bits)
    &&& after == before.insert(
        hauler.bits,
        hauler_record(
            Position { x: 48000, y: 48000 },
            Position { x: 6, y: 12 },
            CollisionType::Trigger,
            None,
        ),
    )
}

/// Sets the world up for the scene that runs. Only the test map has
/// anything to set up; it returns the hauler that the player watches.
pub fn game_setup(world: &mut Colony, active_scene: &ActiveScene) -> (result: Result<
    Option<SelectedHauler>,
    String,
>)
    requires
        old(world).wf(),
        old(world).count() + 4 <= u32::MAX,
    ensures
        result is Ok,
        final(world).wf(),
        final(world).same_tasks(*old(world)),
        active_scene.scene != Scene::TestMap ==> result.unwrap() is None && final(world).records()
            == old(world).records() && final(world).count() == old(world).count(),
        active_scene.scene == Scene::TestMap ==> result.unwrap() is Some && final(world).count()
            == old(world).count() + 4 && exists|built: Map<u64, Components>|
            #[trigger] buildings_spawned(old(world).records(), built) && villagers_spawned(
                built,
                final(world).records(),
                result.unwrap().unwrap().hauler,
            ),
{
    match active_scene.scene {
        Scene::TestMap => {
            let selected = setup_test_map(world);
            match selected {
                Ok(hauler) => Ok(Some(hauler)),
                Err(message) => Err(message),
            }
        },
        Scene::MainMenu => Ok(None),
        Scene::TestMap2 => Ok(None),
    }
}

/// Puts the villager of the map into the world. Returns it as the hauler
/// that the player watches.
pub fn spawn_villagers(world: &mut Colony) -> (selected: SelectedHauler)
    requires
        old(world).wf(),
        old(world).count() < u32::MAX,
    ensures
        villagers_spawned(old(world).records(), final(world).records(), selected.hauler),
        final(world).count() == old(world).count() + 1,
        final(world).same_tasks(*old(world)),
        final(world).wf(),
{
    let selected_hauler = spawn_hauler(
        world,
        Position { x: 48000, y: 48000 },
        Position { x: 6, y: 12 },
        CollisionType::Trigger,
        None,
    );
    SelectedHauler { hauler: selected_hauler }
}

/// Puts the buildings of the map into the world.
pub fn spawn_buildings(world: &mut Colony)
    requires
        old(world).wf(),
        old(world).count() + 3 <= u32::MAX,
    ensures
        buildings_spawned(old(world).records(), final(world).records()),
        final(world).count() == old(world).count() + 3,
        final(world).same_tasks(*old(world)),
        final(world).wf(),
{
    let sprite = Sprite::new(default_idle_point(), default_idle_point_atlas_tile(), TILE_SIZE);
    let mut record = Components::new();
    record.sprite = Some(sprite);
    let sign = world.spawn(record).unwrap();
    let warehouse = spawn_finished_warehouse(
        world,
        Position { x: 304000, y: 256000 },
        ItemList::new(),
    );
    let house = spawn_finished_house(world, Position { x: 16000, y: 192000 });
    assert(world.records() == old(world).records().insert(sign.bits, idle_point_record()).insert(
        warehouse.bits,
        warehouse_record(Position { x: 304000, y: 256000 }, ItemList { wood: None, stone: None }),
    ).insert(house.bits, house_record(Position { x: 16000, y: 192000 })));
}

} // verus!
