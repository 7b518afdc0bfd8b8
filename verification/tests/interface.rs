use colony_sim::engine::collision::TriggerCollision;
use colony_sim::engine::datatypes::Position;
use colony_sim::engine::enums::{CollisionType, GameResource};
use colony_sim::engine::world::Colony;
use colony_sim::game::buildings::datatypes::ItemList;
use colony_sim::game::buildings::house::{spawn_finished_house, spawn_house_placement};
use colony_sim::game::buildings::placement::{
    place_hovering_building, snap_to_tile, update_construction_hover,
};
use colony_sim::game::buildings::step::generate_construction_haul_tasks;
use colony_sim::game::buildings::warehouse::spawn_finished_warehouse;
use colony_sim::game::tasks::{find_idle_hauler_for_task, generate_haul_task};
use colony_sim::game::ui::step::{
    update_active_haul_task_count, update_global_storage, update_idle_haul_task_count,
};
use colony_sim::game::villagers::hauler::spawn_hauler;

fn at(x: i32, y: i32) -> Position {
    Position { x: x * 1000, y: y * 1000 }
}

fn list(wood: Option<i32>, stone: Option<i32>) -> ItemList {
    ItemList { wood, stone }
}

#[test]
fn all_storages_are_summed_by_resource() {
    let mut world = Colony::new();
    assert_eq!(update_global_storage(&world).resource_list, ItemList::new());
    spawn_finished_warehouse(&mut world, at(0, 0), list(Some(70), None));
    spawn_finished_warehouse(&mut world, at(50, 0), list(Some(5), Some(30)));
    spawn_finished_warehouse(&mut world, at(90, 0), list(None, Some(0)));
    spawn_finished_house(&mut world, at(16, 192));
    assert_eq!(update_global_storage(&world).resource_list, list(Some(75), Some(30)));
}

#[test]
fn a_sum_that_cannot_be_written_down_is_shown_as_the_greatest_number() {
    let mut world = Colony::new();
    spawn_finished_warehouse(&mut world, at(0, 0), list(Some(i32::MAX), Some(i32::MIN)));
    spawn_finished_warehouse(&mut world, at(50, 0), list(Some(i32::MAX), Some(-1)));
    assert_eq!(
        update_global_storage(&world).resource_list,
        list(Some(i32::MAX), Some(i32::MIN))
    );
}

#[test]
fn open_and_active_tasks_are_counted() {
    let mut world = Colony::new();
    spawn_hauler(&mut world, at(48, 48), Position { x: 6, y: 12 }, CollisionType::Trigger, None);
    spawn_hauler(&mut world, at(48, 48), Position { x: 6, y: 12 }, CollisionType::Trigger, None);
    assert_eq!(update_idle_haul_task_count(&world), 0);
    assert_eq!(update_active_haul_task_count(&world), 0);
    for _ in 0..3 {
        generate_haul_task(&mut world, Some(at(1, 1)), at(2, 2), GameResource::Wood);
    }
    assert_eq!(update_idle_haul_task_count(&world), 3);
    assert!(find_idle_hauler_for_task(&mut world).is_ok());
    assert_eq!(update_idle_haul_task_count(&world), 2);
    assert_eq!(update_active_haul_task_count(&world), 1);
    assert!(find_idle_hauler_for_task(&mut world).is_ok());
    assert!(find_idle_hauler_for_task(&mut world).is_ok());
    assert_eq!(update_idle_haul_task_count(&world), 1);
    assert_eq!(update_active_haul_task_count(&world), 2);
}

#[test]
fn coordinates_snap_to_tiles() {
    assert_eq!(snap_to_tile(0), 0);
    assert_eq!(snap_to_tile(15999), 0);
    assert_eq!(snap_to_tile(16000), 16000);
    assert_eq!(snap_to_tile(47123), 32000);
    assert_eq!(snap_to_tile(-1), -16000);
    assert_eq!(snap_to_tile(-15999), -16000);
    assert_eq!(snap_to_tile(-16000), -32000);
    assert_eq!(snap_to_tile(-16001), -32000);
    assert_eq!(snap_to_tile(i32::MAX), 2147472000);
    assert_eq!(snap_to_tile(i32::MIN + 32000), -2147456000);
}

#[test]
fn a_site_that_is_being_placed_follows_the_mouse() {
    let mut world = Colony::new();
    let hovering = spawn_house_placement(&mut world, at(0, 0));
    let fixed = spawn_finished_house(&mut world, at(16, 192));
    let before = world.get(fixed);
    update_construction_hover(&mut world, Position { x: 50500, y: -200 });
    let record = world.get(hovering).unwrap();
    let corner = Position { x: 48000, y: -16000 };
    assert_eq!(record.construction_placement.unwrap().position, corner);
    assert_eq!(record.sprite.unwrap().position, corner);
    assert_eq!(record.collision_box.unwrap().rect.x, 48000);
    assert_eq!(record.collision_box.unwrap().rect.y, -16000);
    assert_eq!(record.collision_box.unwrap().rect.width, 16000);
    assert_eq!(world.get(fixed), before);
}

#[test]
fn a_site_is_put_down_when_nothing_is_in_its_way() {
    let mut world = Colony::new();
    let site = spawn_house_placement(&mut world, at(0, 0));
    update_construction_hover(&mut world, at(40, 40));
    assert!(place_hovering_building(&mut world, false).is_ok());
    assert!(world.get(site).unwrap().construction_placement.is_some());
    let mut record = world.get(site).unwrap();
    record.trigger_collision = Some(TriggerCollision { colliding: true, other_trigger: None });
    assert!(world.set(site, record));
    assert!(place_hovering_building(&mut world, true).is_ok());
    assert!(world.get(site).unwrap().construction_placement.is_some());
    record.trigger_collision = Some(TriggerCollision::new());
    assert!(world.set(site, record));
    assert!(place_hovering_building(&mut world, true).is_ok());
    let record = world.get(site).unwrap();
    assert_eq!(record.construction_placement, None);
    assert_eq!(record.sprite.unwrap().position, at(32, 32));
    generate_construction_haul_tasks(&mut world);
    assert_eq!(world.open_task_count(), 5);
    assert_eq!(world.open_task(0).unwrap().destination_position, Some(at(32, 32)));
}

#[test]
fn one_site_is_put_down_at_a_time() {
    let mut world = Colony::new();
    let first = spawn_house_placement(&mut world, at(0, 0));
    let second = spawn_house_placement(&mut world, at(0, 0));
    update_construction_hover(&mut world, at(40, 40));
    assert!(place_hovering_building(&mut world, true).is_ok());
    let placed = [first, second]
        .iter()
        .filter(|site| world.get(**site).unwrap().construction_placement.is_none())
        .count();
    assert_eq!(placed, 1);
    assert_eq!(world.get(first).unwrap().sprite.unwrap().position, at(32, 32));
    assert_eq!(world.get(second).unwrap().sprite.unwrap().position, at(32, 32));
}
