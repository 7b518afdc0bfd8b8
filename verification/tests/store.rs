use colony_sim::engine::world::{Colony, Components, Entity};
use colony_sim::game::villagers::datatypes::{Backpack, IdleState, LoadingState};

#[test]
fn new_world_is_empty() {
    let world = Colony::new();
    assert_eq!(world.len(), 0);
    assert!(world.entities().is_empty());
    assert_eq!(world.open_task_count(), 0);
    assert_eq!(world.get(Entity { bits: 1 << 32 }), None);
    assert_eq!(world.get(Entity { bits: 0 }), None);
}

#[test]
fn spawned_record_is_found_under_its_handle() {
    let mut world = Colony::new();
    let mut record = Components::new();
    record.backpack = Some(Backpack { item: None });
    let first = world.spawn(record).unwrap();
    let second = world.spawn(Components::new()).unwrap();
    assert_ne!(first, second);
    assert_eq!(world.len(), 2);
    assert_eq!(world.get(first), Some(record));
    assert_eq!(world.get(second), Some(Components::new()));
}

#[test]
fn entities_lists_every_handle_once() {
    let mut world = Colony::new();
    let mut spawned = Vec::new();
    for _ in 0..5 {
        spawned.push(world.spawn(Components::new()).unwrap());
    }
    let mut listed = world.entities();
    assert_eq!(listed.len(), 5);
    listed.sort_by_key(|entity| entity.bits);
    spawned.sort_by_key(|entity| entity.bits);
    assert_eq!(listed, spawned);
}

#[test]
fn set_replaces_the_record_of_one_entity_only() {
    let mut world = Colony::new();
    let first = world.spawn(Components::new()).unwrap();
    let second = world.spawn(Components::new()).unwrap();
    let mut record = Components::new();
    record.idle_state = Some(IdleState);
    assert!(world.set(first, record));
    assert_eq!(world.get(first), Some(record));
    assert_eq!(world.get(second), Some(Components::new()));
    assert_eq!(world.len(), 2);
}

#[test]
fn set_on_an_unknown_handle_changes_nothing() {
    let mut world = Colony::new();
    let known = world.spawn(Components::new()).unwrap();
    let unknown = Entity { bits: known.bits + 1 };
    let mut record = Components::new();
    record.idle_state = Some(IdleState);
    assert!(!world.set(unknown, record));
    assert!(!world.set(Entity { bits: 0 }, record));
    assert_eq!(world.get(known), Some(Components::new()));
    assert_eq!(world.get(unknown), None);
    assert_eq!(world.len(), 1);
}

#[test]
fn a_record_with_two_states_is_not_accepted() {
    let mut world = Colony::new();
    let mut record = Components::new();
    record.idle_state = Some(IdleState);
    record.loading_state = Some(LoadingState);
    assert!(!record.has_exclusive_state());
    assert_eq!(world.spawn(record), None);
    assert_eq!(world.len(), 0);
    let entity = world.spawn(Components::new()).unwrap();
    assert!(!world.set(entity, record));
    assert_eq!(world.get(entity), Some(Components::new()));
}
