use colony_sim::engine::datatypes::Position;
use colony_sim::engine::enums::{CollisionType, GameResource};
use colony_sim::engine::world::Colony;
use colony_sim::game::buildings::datatypes::ItemList;
use colony_sim::game::buildings::warehouse::spawn_finished_warehouse;
use colony_sim::game::tasks::{
    find_free_hauler, find_idle_hauler_for_task, find_storage_source_for_haul_task,
    find_storage_with, generate_haul_task, give_haul_task_to_idle, update_tasks, HaulTask,
};
use colony_sim::game::villagers::datatypes::LoadingState;
use colony_sim::game::villagers::hauler::spawn_hauler;

fn at(x: i32, y: i32) -> Position {
    Position { x: x * 1000, y: y * 1000 }
}

fn wood(amount: i32) -> ItemList {
    let mut list = ItemList::new();
    list.insert(GameResource::Wood, amount);
    list
}

fn hauler(world: &mut Colony) -> colony_sim::engine::world::Entity {
    spawn_hauler(world, at(48, 48), Position { x: 6, y: 12 }, CollisionType::Trigger, None)
}

#[test]
fn a_new_task_is_put_behind_the_others_with_the_next_identifier() {
    let mut world = Colony::new();
    generate_haul_task(&mut world, None, at(16, 192), GameResource::Wood);
    generate_haul_task(&mut world, Some(at(304, 48)), at(1, 2), GameResource::Stone);
    assert_eq!(world.open_task_count(), 2);
    assert_eq!(
        world.open_task(0),
        Some(HaulTask {
            id: 0,
            origin_position: None,
            destination_position: Some(at(16, 192)),
            resource: GameResource::Wood,
        })
    );
    assert_eq!(
        world.open_task(1),
        Some(HaulTask {
            id: 1,
            origin_position: Some(at(304, 48)),
            destination_position: Some(at(1, 2)),
            resource: GameResource::Stone,
        })
    );
    assert_eq!(world.open_task(2), None);
}

#[test]
fn the_fixed_task_hauls_wood_between_two_fixed_places() {
    let mut world = Colony::new();
    give_haul_task_to_idle(&mut world);
    assert_eq!(
        world.open_task(0),
        Some(HaulTask {
            id: 0,
            origin_position: Some(at(304, 48)),
            destination_position: Some(at(304, 248)),
            resource: GameResource::Wood,
        })
    );
}

#[test]
fn the_newest_task_is_handed_out_first() {
    let mut world = Colony::new();
    let worker = hauler(&mut world);
    generate_haul_task(&mut world, Some(at(1, 1)), at(2, 2), GameResource::Wood);
    generate_haul_task(&mut world, Some(at(3, 3)), at(4, 4), GameResource::Stone);
    assert_eq!(find_free_hauler(&world), Some(worker));
    assert!(find_idle_hauler_for_task(&mut world).is_ok());
    let record = world.get(worker).unwrap();
    assert_eq!(record.haul_task.unwrap().id, 1);
    assert_eq!(record.haul_task.unwrap().resource, GameResource::Stone);
    assert_eq!(record.loading_state, Some(LoadingState));
    assert_eq!(record.idle_state, None);
    assert!(record.has_exclusive_state());
    assert_eq!(world.open_task_count(), 1);
    assert_eq!(world.open_task(0).unwrap().id, 0);
    assert_eq!(find_free_hauler(&world), None);
}

#[test]
fn a_task_without_origin_stays_open() {
    let mut world = Colony::new();
    let worker = hauler(&mut world);
    generate_haul_task(&mut world, Some(at(1, 1)), at(2, 2), GameResource::Wood);
    generate_haul_task(&mut world, None, at(4, 4), GameResource::Wood);
    let before = world.get(worker);
    assert!(find_idle_hauler_for_task(&mut world).is_ok());
    assert_eq!(world.open_task_count(), 2);
    assert_eq!(world.get(worker), before);
}

#[test]
fn without_a_free_hauler_every_task_stays_open() {
    let mut world = Colony::new();
    generate_haul_task(&mut world, Some(at(1, 1)), at(2, 2), GameResource::Wood);
    assert!(find_idle_hauler_for_task(&mut world).is_ok());
    assert_eq!(world.open_task_count(), 1);
}

#[test]
fn one_round_hands_out_one_task() {
    let mut world = Colony::new();
    let first = hauler(&mut world);
    let second = hauler(&mut world);
    generate_haul_task(&mut world, Some(at(1, 1)), at(2, 2), GameResource::Wood);
    generate_haul_task(&mut world, Some(at(1, 1)), at(2, 2), GameResource::Wood);
    assert!(find_idle_hauler_for_task(&mut world).is_ok());
    let busy = [first, second]
        .iter()
        .filter(|worker| world.get(**worker).unwrap().haul_task.is_some())
        .count();
    assert_eq!(busy, 1);
    assert_eq!(world.open_task_count(), 1);
    assert!(find_idle_hauler_for_task(&mut world).is_ok());
    assert!(world.get(first).unwrap().haul_task.is_some());
    assert!(world.get(second).unwrap().haul_task.is_some());
    assert_eq!(world.open_task_count(), 0);
}

#[test]
fn a_source_has_a_full_load_available() {
    let mut world = Colony::new();
    spawn_finished_warehouse(&mut world, at(304, 48), wood(9));
    assert_eq!(find_storage_with(&world, GameResource::Wood, 10), None);
    spawn_finished_warehouse(&mut world, at(100, 100), wood(10));
    assert_eq!(find_storage_with(&world, GameResource::Wood, 10), Some(at(100, 100)));
    assert_eq!(find_storage_with(&world, GameResource::Stone, 10), None);
}

#[test]
fn sourcing_fills_in_the_origin_of_tasks_that_have_none() {
    let mut world = Colony::new();
    spawn_finished_warehouse(&mut world, at(304, 48), wood(70));
    generate_haul_task(&mut world, None, at(16, 192), GameResource::Wood);
    generate_haul_task(&mut world, Some(at(1, 1)), at(16, 192), GameResource::Wood);
    generate_haul_task(&mut world, None, at(16, 192), GameResource::Stone);
    find_storage_source_for_haul_task(&mut world);
    assert_eq!(world.open_task_count(), 3);
    assert_eq!(world.open_task(0).unwrap().origin_position, Some(at(304, 48)));
    assert_eq!(world.open_task(0).unwrap().destination_position, Some(at(16, 192)));
    assert_eq!(world.open_task(0).unwrap().id, 0);
    assert_eq!(world.open_task(1).unwrap().origin_position, Some(at(1, 1)));
    assert_eq!(world.open_task(2).unwrap().origin_position, None);
}

#[test]
fn handing_out_a_task_makes_none_and_loses_none() {
    let mut world = Colony::new();
    spawn_finished_warehouse(&mut world, at(304, 48), wood(70));
    let worker = hauler(&mut world);
    generate_haul_task(&mut world, None, at(16, 192), GameResource::Wood);
    generate_haul_task(&mut world, None, at(16, 192), GameResource::Wood);
    let count = |world: &Colony| {
        world.open_task_count()
            + world
                .entities()
                .iter()
                .filter(|entity| world.get(**entity).unwrap().haul_task.is_some())
                .count()
    };
    assert_eq!(count(&world), 2);
    assert!(update_tasks(&mut world).is_ok());
    assert_eq!(count(&world), 2);
    assert_eq!(world.open_task_count(), 2);
    assert!(update_tasks(&mut world).is_ok());
    assert_eq!(count(&world), 2);
    assert_eq!(world.open_task_count(), 1);
    assert!(world.get(worker).unwrap().haul_task.is_some());
}
