use colony_sim::engine::collision::{
    are_boxes_colliding, detect_body_collisions, detect_trigger_collisions, is_point_inside_box,
    BodyCollision, CollisionBox, TriggerCollision,
};
use colony_sim::engine::datatypes::{Position, Rectangle};
use colony_sim::engine::world::{Colony, Components, Entity};

fn tile(x: i32, y: i32) -> Rectangle {
    Rectangle { x: x * 1000, y: y * 1000, width: 16000, height: 16000 }
}

fn sensor(world: &mut Colony, x: i32, y: i32) -> Entity {
    let mut record = Components::new();
    record.collision_box = Some(CollisionBox { rect: tile(x, y) });
    record.trigger_collision = Some(TriggerCollision::new());
    world.spawn(record).unwrap()
}

fn body(world: &mut Colony, x: i32, y: i32) -> Entity {
    let mut record = Components::new();
    record.collision_box = Some(CollisionBox { rect: tile(x, y) });
    record.body_collision = Some(BodyCollision::default());
    world.spawn(record).unwrap()
}

#[test]
fn boxes_collide_when_their_pixels_meet() {
    assert!(are_boxes_colliding(&tile(0, 0), &tile(0, 0)));
    assert!(are_boxes_colliding(&tile(0, 0), &tile(15, 0)));
    assert!(are_boxes_colliding(&tile(0, 0), &tile(15, 15)));
    assert!(!are_boxes_colliding(&tile(0, 0), &tile(16, 0)));
    assert!(!are_boxes_colliding(&tile(0, 0), &tile(0, 16)));
    assert!(are_boxes_colliding(&tile(15, 0), &tile(0, 0)));
    assert!(!are_boxes_colliding(&tile(16, 0), &tile(0, 0)));
    let almost = Rectangle { x: 15001, y: 0, width: 16000, height: 16000 };
    assert!(!are_boxes_colliding(&tile(0, 0), &almost));
}

#[test]
fn boxes_at_the_edge_of_the_world_do_not_overflow() {
    let far = Rectangle { x: i32::MAX, y: i32::MAX, width: i32::MAX, height: i32::MAX };
    let near = Rectangle { x: i32::MIN, y: i32::MIN, width: 0, height: 0 };
    assert!(are_boxes_colliding(&far, &far));
    assert!(!are_boxes_colliding(&far, &near));
    assert!(!are_boxes_colliding(&near, &far));
}

#[test]
fn a_point_is_inside_up_to_the_last_pixel() {
    let rect = tile(10, 10);
    assert!(is_point_inside_box(&Position { x: 10000, y: 10000 }, &rect));
    assert!(is_point_inside_box(&Position { x: 25000, y: 25000 }, &rect));
    assert!(!is_point_inside_box(&Position { x: 25001, y: 25000 }, &rect));
    assert!(!is_point_inside_box(&Position { x: 9999, y: 10000 }, &rect));
    assert!(!is_point_inside_box(&Position { x: 10000, y: 26000 }, &rect));
}

#[test]
fn sensors_that_overlap_report_each_other() {
    let mut world = Colony::new();
    let first = sensor(&mut world, 0, 0);
    let second = sensor(&mut world, 10, 10);
    let third = sensor(&mut world, 100, 100);
    detect_trigger_collisions(&mut world);
    assert_eq!(
        world.get(first).unwrap().trigger_collision,
        Some(TriggerCollision { colliding: true, other_trigger: Some(second) })
    );
    assert_eq!(
        world.get(second).unwrap().trigger_collision,
        Some(TriggerCollision { colliding: true, other_trigger: Some(first) })
    );
    assert_eq!(
        world.get(third).unwrap().trigger_collision,
        Some(TriggerCollision { colliding: false, other_trigger: None })
    );
}

#[test]
fn a_sensor_that_moved_away_is_reported_free_again() {
    let mut world = Colony::new();
    let first = sensor(&mut world, 0, 0);
    let second = sensor(&mut world, 10, 10);
    detect_trigger_collisions(&mut world);
    assert!(world.get(first).unwrap().trigger_collision.unwrap().colliding);
    let mut record = world.get(second).unwrap();
    record.collision_box = Some(CollisionBox { rect: tile(50, 50) });
    assert!(world.set(second, record));
    detect_trigger_collisions(&mut world);
    assert_eq!(world.get(first).unwrap().trigger_collision, Some(TriggerCollision::new()));
    assert_eq!(world.get(second).unwrap().trigger_collision, Some(TriggerCollision::new()));
}

#[test]
fn the_two_families_do_not_see_each_other() {
    let mut world = Colony::new();
    let solid = body(&mut world, 0, 0);
    let other_solid = body(&mut world, 5, 5);
    let sensing = sensor(&mut world, 0, 0);
    detect_trigger_collisions(&mut world);
    assert_eq!(world.get(sensing).unwrap().trigger_collision, Some(TriggerCollision::new()));
    assert_eq!(world.get(solid).unwrap().body_collision, Some(BodyCollision::default()));
    detect_body_collisions(&mut world);
    assert_eq!(
        world.get(solid).unwrap().body_collision,
        Some(BodyCollision { colliding: true, other_body: Some(other_solid) })
    );
    assert_eq!(
        world.get(other_solid).unwrap().body_collision,
        Some(BodyCollision { colliding: true, other_body: Some(solid) })
    );
    assert_eq!(world.get(sensing).unwrap().trigger_collision, Some(TriggerCollision::new()));
    assert_eq!(world.get(sensing).unwrap().body_collision, None);
}

#[test]
fn a_sensor_without_a_box_overlaps_nothing() {
    let mut world = Colony::new();
    let boxed = sensor(&mut world, 0, 0);
    let mut record = Components::new();
    record.trigger_collision =
        Some(TriggerCollision { colliding: true, other_trigger: Some(boxed) });
    let bare = world.spawn(record).unwrap();
    detect_trigger_collisions(&mut world);
    assert_eq!(world.get(bare).unwrap().trigger_collision, Some(TriggerCollision::new()));
    assert_eq!(world.get(boxed).unwrap().trigger_collision, Some(TriggerCollision::new()));
}

#[test]
fn an_entity_that_overlaps_several_reports_one_of_them() {
    let mut world = Colony::new();
    let middle = sensor(&mut world, 10, 0);
    let left = sensor(&mut world, 0, 0);
    let right = sensor(&mut world, 20, 0);
    detect_trigger_collisions(&mut world);
    let report = world.get(middle).unwrap().trigger_collision.unwrap();
    assert!(report.colliding);
    assert!(report.other_trigger == Some(left) || report.other_trigger == Some(right));
    assert_eq!(
        world.get(left).unwrap().trigger_collision.unwrap().other_trigger,
        Some(middle)
    );
    assert_eq!(
        world.get(right).unwrap().trigger_collision.unwrap().other_trigger,
        Some(middle)
    );
}
