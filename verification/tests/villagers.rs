use colony_sim::engine::datatypes::{Position, Rectangle, Sprite};
use colony_sim::engine::enums::{CollisionType, GameResource, VillagerState};
use colony_sim::engine::math::{isqrt, moved_towards, squared_distance};
use colony_sim::engine::world::Colony;
use colony_sim::game::tasks::HaulTask;
use colony_sim::game::villagers::datatypes::{
    Backpack, CarryingState, GameItem, IdleInfo, IdleState, LoadingState, WorkingState,
};
use colony_sim::game::villagers::hauler::{
    deliver_resource, receive_resource, spawn_hauler, update_carrying_state, update_loading_state,
};
use colony_sim::game::villagers::step::{
    get_new_target, idle_state_tick, idle_step, is_far_apart, is_retargetable, move_villager,
    set_target, update_collision_box_position, update_idle_state, walk_towards,
};

fn at(x: i32, y: i32) -> Position {
    Position { x: x * 1000, y: y * 1000 }
}

fn sprite(position: Position) -> Sprite {
    Sprite { position, rect: Rectangle { x: 0, y: 0, width: 16000, height: 16000 } }
}

fn task(origin: Position, destination: Position) -> HaulTask {
    HaulTask {
        id: 7,
        origin_position: Some(origin),
        destination_position: Some(destination),
        resource: GameResource::Stone,
    }
}

#[test]
fn square_roots_are_rounded_down() {
    assert_eq!(isqrt(0), 0);
    assert_eq!(isqrt(1), 1);
    assert_eq!(isqrt(3), 1);
    assert_eq!(isqrt(4), 2);
    assert_eq!(isqrt(24), 4);
    assert_eq!(isqrt(25), 5);
    assert_eq!(isqrt(1_000_000_000_000), 1_000_000);
    assert_eq!(isqrt(u128::MAX), u64::MAX as u128);
}

#[test]
fn squared_distance_of_far_corners_does_not_overflow() {
    let low = Position { x: i32::MIN, y: i32::MIN };
    let high = Position { x: i32::MAX, y: i32::MAX };
    let side = u32::MAX as u128;
    assert_eq!(squared_distance(low, high), 2 * side * side);
    assert_eq!(squared_distance(at(0, 0), at(3, 4)), 25_000_000);
}

#[test]
fn a_step_goes_along_the_straight_line() {
    let from = Position { x: 0, y: 0 };
    let to = Position { x: 3000, y: 4000 };
    assert_eq!(moved_towards(from, to, 500), Position { x: 300, y: 400 });
    assert_eq!(moved_towards(to, from, 500), Position { x: 2700, y: 3600 });
    assert_eq!(moved_towards(from, from, 500), from);
}

#[test]
fn a_step_longer_than_the_way_goes_past_the_target() {
    let from = Position { x: 0, y: 0 };
    let to = Position { x: 3000, y: 4000 };
    assert_eq!(moved_towards(from, to, 10000), Position { x: 6000, y: 8000 });
}

#[test]
fn a_step_stops_at_the_edge_of_what_can_be_written_down() {
    let from = Position { x: i32::MAX - 10, y: 0 };
    let to = Position { x: i32::MAX, y: 0 };
    assert_eq!(moved_towards(from, to, 1000), Position { x: i32::MAX, y: 0 });
}

#[test]
fn a_villager_walks_fifty_units_in_a_millisecond() {
    let mut moving = sprite(Position { x: 0, y: 0 });
    move_villager(Position { x: 100000, y: 0 }, &mut moving, 16);
    assert_eq!(moving.position, Position { x: 800, y: 0 });
    assert_eq!(moving.rect, sprite(at(0, 0)).rect);
}

#[test]
fn a_villager_within_a_pixel_of_its_target_stays() {
    assert!(!is_far_apart(at(0, 0), at(1, 0)));
    assert!(is_far_apart(at(0, 0), Position { x: 1001, y: 0 }));
    assert!(is_far_apart(at(0, 0), Position { x: 1000, y: 1 }));
    assert!(!is_far_apart(at(5, 5), at(5, 5)));
    let mut near = sprite(Position { x: 500, y: 0 });
    walk_towards(Position { x: 1000, y: 0 }, &mut near, 16);
    assert_eq!(near.position, Position { x: 500, y: 0 });
    let mut far = sprite(Position { x: 0, y: 0 });
    walk_towards(Position { x: 2000, y: 0 }, &mut far, 10);
    assert_eq!(far.position, Position { x: 500, y: 0 });
}

#[test]
fn a_running_timer_runs_down_and_a_stopped_one_stays() {
    let mut info = IdleInfo::default(at(192, 192));
    assert_eq!(info.idle_timer, 0);
    idle_state_tick(&mut info, 16);
    assert_eq!(info.idle_timer, 0);
    info.idle_timer = 20;
    idle_state_tick(&mut info, 16);
    assert_eq!(info.idle_timer, 4);
    idle_state_tick(&mut info, 16);
    assert_eq!(info.idle_timer, -12);
    idle_state_tick(&mut info, 16);
    assert_eq!(info.idle_timer, -12);
}

#[test]
fn default_idle_info_waits_three_to_five_seconds_within_twenty_pixels() {
    let info = IdleInfo::default(at(192, 192));
    assert_eq!(
        info,
        IdleInfo {
            idle_point: at(192, 192),
            idle_timer: 0,
            timer_min: 3000,
            timer_max: 5000,
            radius: 20000,
            target_position: Position { x: 0, y: 0 },
        }
    );
}

#[test]
fn set_target_keeps_the_rest() {
    let mut info = IdleInfo::default(at(192, 192));
    set_target(&mut info, at(200, 180), 4000);
    assert_eq!(info.target_position, at(200, 180));
    assert_eq!(info.idle_timer, 4000);
    assert_eq!(info.idle_point, at(192, 192));
    assert_eq!(info.radius, 20000);
}

#[test]
fn a_new_target_lies_in_the_square_around_the_idle_point() {
    let mut seen_x = Vec::new();
    let mut seen_timer = Vec::new();
    for _ in 0..64 {
        let mut info = IdleInfo::default(at(192, 192));
        assert!(is_retargetable(&info));
        get_new_target(&mut info);
        assert!(172000 <= info.target_position.x && info.target_position.x < 212000);
        assert!(172000 <= info.target_position.y && info.target_position.y < 212000);
        assert!(3000 <= info.idle_timer && info.idle_timer < 5000);
        assert_eq!(info.idle_point, at(192, 192));
        seen_x.push(info.target_position.x);
        seen_timer.push(info.idle_timer);
    }
    assert!(seen_x.iter().any(|x| *x != 172000));
    assert!(seen_x.iter().any(|x| *x != seen_x[0]));
    assert!(seen_timer.iter().any(|timer| *timer != 3000));
}

#[test]
fn a_target_cannot_be_drawn_from_an_empty_square() {
    let mut info = IdleInfo::default(at(192, 192));
    info.radius = 0;
    assert!(!is_retargetable(&info));
    info.radius = 20000;
    info.timer_max = info.timer_min;
    assert!(!is_retargetable(&info));
    info.timer_max = 5000;
    info.idle_point = Position { x: i32::MAX, y: 0 };
    assert!(!is_retargetable(&info));
}

#[test]
fn an_idle_villager_about_its_idle_point_stays_about_it() {
    let mut world = Colony::new();
    let worker = spawn_hauler(
        &mut world,
        at(192, 192),
        Position { x: 6, y: 12 },
        CollisionType::Trigger,
        None,
    );
    let step = 50 * 40;
    for _ in 0..2000 {
        update_idle_state(&mut world, 40);
        let record = world.get(worker).unwrap();
        let position = record.sprite.unwrap().position;
        assert!(172000 - step <= position.x && position.x <= 212000 + step);
        assert!(172000 - step <= position.y && position.y <= 212000 + step);
        let target = record.idle_info.unwrap().target_position;
        assert!(172000 <= target.x && target.x < 212000);
        assert!(record.has_exclusive_state());
    }
}

#[test]
fn only_an_idle_villager_idles() {
    let mut world = Colony::new();
    let worker = spawn_hauler(
        &mut world,
        at(48, 48),
        Position { x: 6, y: 12 },
        CollisionType::Trigger,
        None,
    );
    IdleState::change_state_to(&mut world, worker, VillagerState::Working);
    let mut record = world.get(worker).unwrap();
    let before = record;
    idle_step(&mut record, 16);
    assert_eq!(record, before);
    update_idle_state(&mut world, 16);
    assert_eq!(world.get(worker), Some(before));
}

#[test]
fn boxes_follow_sprites() {
    let mut world = Colony::new();
    let worker = spawn_hauler(
        &mut world,
        at(48, 48),
        Position { x: 6, y: 12 },
        CollisionType::Trigger,
        None,
    );
    let mut record = world.get(worker).unwrap();
    record.sprite = Some(Sprite { position: at(60, 70), ..record.sprite.unwrap() });
    assert!(world.set(worker, record));
    update_collision_box_position(&mut world);
    let synced = world.get(worker).unwrap();
    assert_eq!(
        synced.collision_box.unwrap().rect,
        Rectangle { x: 60000, y: 70000, width: 16000, height: 16000 }
    );
    assert_eq!(synced.sprite, record.sprite);
}

#[test]
fn a_new_hauler_idles_with_an_empty_backpack() {
    let mut world = Colony::new();
    let worker = spawn_hauler(
        &mut world,
        at(48, 48),
        Position { x: 6, y: 12 },
        CollisionType::All,
        Some(at(10, 10)),
    );
    let record = world.get(worker).unwrap();
    assert!(record.hauler.is_some());
    assert_eq!(record.idle_state, Some(IdleState));
    assert_eq!(record.backpack, Some(Backpack { item: None }));
    assert_eq!(record.haul_task, None);
    assert_eq!(record.idle_info.unwrap().idle_point, at(10, 10));
    assert_eq!(record.sprite.unwrap().position, at(48, 48));
    assert_eq!(
        record.sprite.unwrap().rect,
        Rectangle { x: 96000, y: 192000, width: 16000, height: 16000 }
    );
    assert_eq!(
        record.collision_box.unwrap().rect,
        Rectangle { x: 48000, y: 48000, width: 16000, height: 16000 }
    );
    assert!(record.body_collision.is_some());
    assert!(record.trigger_collision.is_some());
    let sensor = spawn_hauler(
        &mut world,
        at(48, 48),
        Position { x: 6, y: 12 },
        CollisionType::Trigger,
        None,
    );
    let record = world.get(sensor).unwrap();
    assert!(record.body_collision.is_none());
    assert!(record.trigger_collision.is_some());
    assert_eq!(record.idle_info.unwrap().idle_point, at(192, 192));
}

#[test]
fn states_follow_one_another() {
    let mut world = Colony::new();
    let worker = spawn_hauler(
        &mut world,
        at(48, 48),
        Position { x: 6, y: 12 },
        CollisionType::Trigger,
        None,
    );
    IdleState::change_state_to(&mut world, worker, VillagerState::Loading);
    let record = world.get(worker).unwrap();
    assert_eq!(record.villager_state(), Some(VillagerState::Loading));
    assert_eq!((record.idle_state, record.loading_state), (None, Some(LoadingState)));
    LoadingState::change_state_to(&mut world, worker, VillagerState::Carrying);
    let record = world.get(worker).unwrap();
    assert_eq!(record.villager_state(), Some(VillagerState::Carrying));
    assert_eq!((record.loading_state, record.carrying_state), (None, Some(CarryingState)));
    CarryingState::change_state_to(&mut world, worker, VillagerState::Idle);
    let record = world.get(worker).unwrap();
    assert_eq!(record.villager_state(), Some(VillagerState::Idle));
    IdleState::change_state_to(&mut world, worker, VillagerState::Working);
    let record = world.get(worker).unwrap();
    assert_eq!(record.working_state, Some(WorkingState));
    assert!(record.has_exclusive_state());
}

#[test]
fn a_change_to_a_state_that_does_not_follow_changes_nothing() {
    let mut world = Colony::new();
    let worker = spawn_hauler(
        &mut world,
        at(48, 48),
        Position { x: 6, y: 12 },
        CollisionType::Trigger,
        None,
    );
    let idle = world.get(worker);
    IdleState::change_state_to(&mut world, worker, VillagerState::Carrying);
    assert_eq!(world.get(worker), idle);
    IdleState::change_state_to(&mut world, worker, VillagerState::Idle);
    assert_eq!(world.get(worker), idle);
    assert_eq!(world.get(worker).unwrap().villager_state(), Some(VillagerState::Idle));

    IdleState::change_state_to(&mut world, worker, VillagerState::Loading);
    let loading = world.get(worker);
    LoadingState::change_state_to(&mut world, worker, VillagerState::Working);
    assert_eq!(world.get(worker), loading);
    LoadingState::change_state_to(&mut world, worker, VillagerState::Loading);
    assert_eq!(world.get(worker), loading);
    assert_eq!(world.get(worker).unwrap().villager_state(), Some(VillagerState::Loading));

    LoadingState::change_state_to(&mut world, worker, VillagerState::Carrying);
    let carrying = world.get(worker);
    for new_state in [VillagerState::Loading, VillagerState::Carrying, VillagerState::Working] {
        CarryingState::change_state_to(&mut world, worker, new_state);
        assert_eq!(world.get(worker), carrying);
    }
    assert_eq!(world.get(worker).unwrap().villager_state(), Some(VillagerState::Carrying));
}

#[test]
fn a_villager_carries_one_state_tag_after_every_change() {
    let states = [
        VillagerState::Idle,
        VillagerState::Loading,
        VillagerState::Carrying,
        VillagerState::Working,
    ];
    let tags = |world: &Colony, worker| {
        let record = world.get(worker).unwrap();
        [
            record.idle_state.is_some(),
            record.loading_state.is_some(),
            record.carrying_state.is_some(),
            record.working_state.is_some(),
        ]
        .iter()
        .filter(|tag| **tag)
        .count()
    };
    for first in states {
        for second in states {
            for third in states {
                let mut world = Colony::new();
                let worker = spawn_hauler(
                    &mut world,
                    at(48, 48),
                    Position { x: 6, y: 12 },
                    CollisionType::Trigger,
                    None,
                );
                for new_state in [first, second, third] {
                    match world.get(worker).unwrap().villager_state() {
                        Some(VillagerState::Idle) => {
                            IdleState::change_state_to(&mut world, worker, new_state)
                        }
                        Some(VillagerState::Loading) => {
                            LoadingState::change_state_to(&mut world, worker, new_state)
                        }
                        Some(VillagerState::Carrying) => {
                            CarryingState::change_state_to(&mut world, worker, new_state)
                        }
                        Some(VillagerState::Working) => {}
                        None => panic!("a villager without a state"),
                    }
                    assert_eq!(tags(&world, worker), 1);
                }
            }
        }
    }
}

#[test]
fn a_loading_villager_walks_to_the_origin_of_its_task() {
    let mut world = Colony::new();
    let worker = spawn_hauler(
        &mut world,
        at(0, 0),
        Position { x: 6, y: 12 },
        CollisionType::Trigger,
        None,
    );
    let mut record = world.get(worker).unwrap();
    record.haul_task = Some(task(at(30, 40), at(0, 100)));
    assert!(world.set(worker, record));
    update_loading_state(&mut world, 10);
    assert_eq!(world.get(worker).unwrap().sprite.unwrap().position, at(0, 0));
    IdleState::change_state_to(&mut world, worker, VillagerState::Loading);
    update_carrying_state(&mut world, 10);
    assert_eq!(world.get(worker).unwrap().sprite.unwrap().position, at(0, 0));
    update_loading_state(&mut world, 10);
    assert_eq!(
        world.get(worker).unwrap().sprite.unwrap().position,
        Position { x: 300, y: 400 }
    );
}

#[test]
fn a_carrying_villager_walks_to_the_destination_of_its_task() {
    let mut world = Colony::new();
    let worker = spawn_hauler(
        &mut world,
        at(0, 0),
        Position { x: 6, y: 12 },
        CollisionType::Trigger,
        None,
    );
    let mut record = world.get(worker).unwrap();
    record.haul_task = Some(task(at(30, 40), at(0, 100)));
    assert!(world.set(worker, record));
    IdleState::change_state_to(&mut world, worker, VillagerState::Loading);
    LoadingState::change_state_to(&mut world, worker, VillagerState::Carrying);
    update_loading_state(&mut world, 10);
    assert_eq!(world.get(worker).unwrap().sprite.unwrap().position, at(0, 0));
    update_carrying_state(&mut world, 10);
    assert_eq!(
        world.get(worker).unwrap().sprite.unwrap().position,
        Position { x: 0, y: 500 }
    );
}

#[test]
fn a_hauler_loads_and_unloads_a_full_load_of_its_resource() {
    let mut world = Colony::new();
    let worker = spawn_hauler(
        &mut world,
        at(0, 0),
        Position { x: 6, y: 12 },
        CollisionType::Trigger,
        None,
    );
    let mut record = world.get(worker).unwrap();
    record.haul_task = Some(task(at(30, 40), at(0, 100)));
    assert!(world.set(worker, record));
    IdleState::change_state_to(&mut world, worker, VillagerState::Loading);
    let load = GameItem::new(GameResource::Stone, 10);
    assert_eq!(receive_resource(&mut world, worker), Some(load));
    let record = world.get(worker).unwrap();
    assert_eq!(record.backpack, Some(Backpack { item: Some(load) }));
    assert_eq!(record.backpack.unwrap().clone_item(), Some(load));
    assert_eq!(record.villager_state(), Some(VillagerState::Carrying));
    assert!(record.haul_task.is_some());
    assert_eq!(deliver_resource(&mut world, worker), Some(load));
    let record = world.get(worker).unwrap();
    assert_eq!(record.backpack, Some(Backpack { item: None }));
    assert_eq!(record.haul_task, None);
    assert_eq!(record.villager_state(), Some(VillagerState::Idle));
    assert!(record.has_exclusive_state());
}
