use colony_sim::engine::datatypes::Position;
use colony_sim::engine::enums::{CollisionType, GameResource, VillagerState};
use colony_sim::engine::world::Colony;
use colony_sim::game::buildings::datatypes::ItemList;
use colony_sim::game::buildings::house::spawn_finished_house;
use colony_sim::game::buildings::warehouse::spawn_finished_warehouse;
use colony_sim::game::scenes::test_map_scene::{setup_test_map, update_test_map_scene};
use colony_sim::game::scenes::{ActiveScene, Scene};
use colony_sim::game::startup::game_setup;
use colony_sim::game::step::update_game;
use colony_sim::game::villagers::datatypes::Backpack;
use colony_sim::game::villagers::hauler::spawn_hauler;

fn at(x: i32, y: i32) -> Position {
    Position { x: x * 1000, y: y * 1000 }
}

fn tasks_in_the_world(world: &Colony) -> usize {
    world.open_task_count()
        + world
            .entities()
            .iter()
            .filter(|entity| world.get(**entity).unwrap().haul_task.is_some())
            .count()
}

#[test]
fn a_hauler_brings_wood_from_the_warehouse_to_the_house() {
    let mut world = Colony::new();
    let mut wood = ItemList::new();
    wood.insert(GameResource::Wood, 70);
    let warehouse = spawn_finished_warehouse(&mut world, at(304, 48), wood);
    let house = spawn_finished_house(&mut world, at(16, 192));
    let hauler = spawn_hauler(
        &mut world,
        at(48, 48),
        Position { x: 6, y: 12 },
        CollisionType::Trigger,
        None,
    );
    let stock = |world: &Colony| {
        world.get(warehouse).unwrap().storage_space.unwrap().item_list.get(GameResource::Wood)
    };
    let required = |world: &Colony| {
        world
            .get(house)
            .unwrap()
            .construction_storage
            .unwrap()
            .required_item_list
            .get(GameResource::Wood)
    };

    assert!(update_test_map_scene(&mut world, 16).is_ok());
    assert_eq!(world.open_task_count(), 5);
    for index in 0..5 {
        let task = world.open_task(index).unwrap();
        assert_eq!(task.destination_position, Some(at(16, 192)));
        assert_eq!(task.origin_position, Some(at(304, 48)));
        assert_eq!(task.resource, GameResource::Wood);
    }
    assert_eq!(tasks_in_the_world(&world), 5);

    let mut ticks = 0;
    let mut seen_loading = false;
    let mut seen_carrying = false;
    while required(&world) == Some(50) {
        assert!(ticks < 5000);
        assert!(update_test_map_scene(&mut world, 16).is_ok());
        ticks += 1;
        let record = world.get(hauler).unwrap();
        assert!(record.has_exclusive_state());
        assert!(tasks_in_the_world(&world) <= 5);
        assert!(stock(&world).unwrap() >= 0);
        match record.villager_state() {
            Some(VillagerState::Loading) => {
                seen_loading = true;
                assert_eq!(stock(&world), Some(70));
                assert_eq!(record.backpack, Some(Backpack { item: None }));
            }
            Some(VillagerState::Carrying) => {
                seen_carrying = true;
                assert_eq!(stock(&world), Some(60));
                assert_eq!(tasks_in_the_world(&world), 5);
            }
            _ => {}
        }
    }
    assert!(seen_loading && seen_carrying);
    assert_eq!(stock(&world), Some(60));
    assert_eq!(required(&world), Some(40));
    let record = world.get(hauler).unwrap();
    assert_eq!(record.villager_state(), Some(VillagerState::Idle));
    assert_eq!(record.backpack, Some(Backpack { item: None }));
    assert_eq!(record.haul_task, None);
    assert_eq!(tasks_in_the_world(&world), 4);
}

#[test]
fn five_trips_build_the_house() {
    let mut world = Colony::new();
    let mut wood = ItemList::new();
    wood.insert(GameResource::Wood, 70);
    let warehouse = spawn_finished_warehouse(&mut world, at(304, 48), wood);
    let house = spawn_finished_house(&mut world, at(16, 192));
    spawn_hauler(&mut world, at(48, 48), Position { x: 6, y: 12 }, CollisionType::Trigger, None);
    let mut ticks = 0;
    while world.get(house).unwrap().construction_storage.is_some() {
        assert!(ticks < 20000);
        assert!(update_test_map_scene(&mut world, 16).is_ok());
        ticks += 1;
    }
    assert_eq!(
        world.get(warehouse).unwrap().storage_space.unwrap().item_list.get(GameResource::Wood),
        Some(20)
    );
    assert!(world.get(house).unwrap().ongoing_construction.is_some());
    assert_eq!(tasks_in_the_world(&world), 0);
}

#[test]
fn the_test_map_starts_with_two_buildings_and_a_hauler() {
    let mut world = Colony::new();
    let selected = setup_test_map(&mut world).unwrap();
    assert_eq!(world.len(), 4);
    let hauler = world.get(selected.hauler).unwrap();
    assert!(hauler.hauler.is_some());
    assert_eq!(hauler.sprite.unwrap().position, at(48, 48));
    assert_eq!(hauler.villager_state(), Some(VillagerState::Idle));
    let records: Vec<_> =
        world.entities().iter().map(|entity| world.get(*entity).unwrap()).collect();
    let warehouses: Vec<_> = records.iter().filter(|record| record.warehouse.is_some()).collect();
    assert_eq!(warehouses.len(), 1);
    assert_eq!(warehouses[0].sprite.unwrap().position, at(304, 256));
    assert_eq!(warehouses[0].storage_space.unwrap().item_list, ItemList::new());
    let houses: Vec<_> = records.iter().filter(|record| record.house.is_some()).collect();
    assert_eq!(houses.len(), 1);
    assert_eq!(houses[0].sprite.unwrap().position, at(16, 192));
    assert_eq!(
        houses[0].construction_storage.unwrap().required_item_list.get(GameResource::Wood),
        Some(50)
    );
    let signs: Vec<_> = records
        .iter()
        .filter(|record| record.building.is_none() && record.hauler.is_none())
        .collect();
    assert_eq!(signs.len(), 1);
    assert_eq!(signs[0].sprite.unwrap().position, at(192, 192));
}

#[test]
fn only_the_test_map_has_a_world_to_set_up_and_advance() {
    let mut world = Colony::new();
    let menu = ActiveScene { scene: Scene::MainMenu };
    assert_eq!(game_setup(&mut world, &menu), Ok(None));
    assert_eq!(world.len(), 0);
    assert!(update_game(&mut world, &menu, 16).is_ok());
    let map = ActiveScene { scene: Scene::TestMap };
    let selected = game_setup(&mut world, &map).unwrap();
    assert!(selected.is_some());
    assert_eq!(world.len(), 4);
    assert!(update_game(&mut world, &menu, 16).is_ok());
    assert_eq!(world.open_task_count(), 0);
    assert!(update_game(&mut world, &map, 16).is_ok());
    assert_eq!(world.open_task_count(), 5);
    for index in 0..5 {
        assert_eq!(world.open_task(index).unwrap().origin_position, None);
    }
}
