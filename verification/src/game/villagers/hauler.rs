use vstd::prelude::*;
use crate::engine::collision::{BodyCollision, CollisionBox, TriggerCollision};
use crate::engine::datatypes::{Position, Rectangle, Sprite};
use crate::engine::enums::{CollisionType, VillagerState};
use crate::engine::world::{
    each_record_changed, lemma_listed_records_changed, lists_records, Colony, Components, Entity,
};
use crate::game::constants::{default_idle_point, HAULER_CAPACITY, TILE_SIZE};
use crate::game::villagers::datatypes::{
    Backpack, CarryingState, GameItem, Hauler, IdleInfo, IdleState, LoadingState,
};
use crate::game::villagers::step::{walk_towards, walked};

verus! {

/// The body component of a new entity with this kind of collisions.
pub open spec fn body_of(collision_type: CollisionType) -> Option<BodyCollision> {
    match collision_type {
        CollisionType::Trigger => None,
        _ => Some(BodyCollision { colliding: false, other_body: None }),
    }
}

/// The trigger component of a new entity with this kind of collisions.
pub open spec fn trigger_of(collision_type: CollisionType) -> Option<TriggerCollision> {
    match collision_type {
        CollisionType::Body => None,
        _ => Some(TriggerCollision { colliding: false, other_trigger: None }),
    }
}

/// The record of a new hauler: idle, with an empty backpack, one tile wide.
pub open spec fn hauler_record(
    position: Position,
    atlas_tile: Position,
    collision_type: CollisionType,
    opt_idle_point: Option<Position>,
) -> Components {
    Components {
        hauler: Some(Hauler),
        idle_info: Some(
            IdleInfo {
                idle_point: match opt_idle_point {
                    Some(point) => point,
                    None => Position { x: 192000, y: 192000 },
                },
                idle_timer: 0,
                timer_min: 3000,
                timer_max: 5000,
                radius: 20000,
                target_position: Position { x: 0, y: 0 },
            },
        ),
        idle_state: Some(IdleState),
        backpack: Some(Backpack { item: None }),
        sprite: Some(
            Sprite {
                position,
                rect: Rectangle {
                    x: (atlas_tile.x * TILE_SIZE) as i32,
                    y: (atlas_tile.y * TILE_SIZE) as i32,
                    width: TILE_SIZE,
                    height: TILE_SIZE,
                },
            },
        ),
        collision_box: Some(
            CollisionBox {
                rect: Rectangle { x: position.x, y: position.y, width: TILE_SIZE, height: TILE_SIZE },
            },
        ),
        body_collision: body_of(collision_type),
        trigger_collision: trigger_of(collision_type),
        ..Components::nothing()
    }
}

/// Puts a new hauler into the world. It idles around `opt_idle_point`, or
/// around the default idle point where none is given, and carries the idle
/// tag as its one state tag.
pub fn spawn_hauler(
    world: &mut Colony,
    position: Position,
    atlas_tile: Position,
    collision_type: CollisionType,
    opt_idle_point: Option<Position>,
) -> (hauler: Entity)
    requires
        old(world).wf(),
        old(world).count() < u32::MAX,
        i32::MIN <= atlas_tile.x * TILE_SIZE <= i32::MAX,
        i32::MIN <= atlas_tile.y * TILE_SIZE <= i32::MAX,
    ensures
        !old(world).has(hauler),
        final(world).records() == old(world).records().insert(
            hauler.bits,
            hauler_record(position, atlas_tile, collision_type, opt_idle_point),
        ),
        final(world).record(hauler).state_tags() == 1,
        final(world).count() == old(world).count() + 1,
        final(world).same_tasks(*old(world)),
        final(world).wf(),
{
    let sprite = Sprite::new(position, atlas_tile, TILE_SIZE);
    let rect = Rectangle { x: position.x, y: position.y, width: TILE_SIZE, height: TILE_SIZE };
    let idle_point = match opt_idle_point {
        Some(point) => point,
        None => default_idle_point(),
    };
    let mut record = Components::new();
    record.hauler = Some(Hauler);
    record.idle_info = Some(IdleInfo::default(idle_point));
    record.idle_state = Some(IdleState);
    record.backpack = Some(Backpack { item: None });
    record.sprite = Some(sprite);
    record.collision_box = Some(CollisionBox { rect });
    match collision_type {
        CollisionType::Body => {
            record.body_collision = Some(BodyCollision { colliding: false, other_body: None });
        },
        CollisionType::Trigger => {
            record.trigger_collision = Some(TriggerCollision::new());
        },
        CollisionType::All => {
            record.body_collision = Some(BodyCollision { colliding: false, other_body: None });
            record.trigger_collision = Some(TriggerCollision::new());
        },
    }
    world.spawn(record).unwrap()
}

/// Where a loading villager walks to: the origin of its task.
pub open spec fn loading_target(record: Components) -> Option<Position> {
    if record.haul_task is Some && record.sprite is Some && record.loading_state is Some {
        record.haul_task.unwrap().origin_position
    } else {
        None
    }
}

/// Where a carrying villager walks to: the destination of its task.
pub open spec fn carrying_target(record: Components) -> Option<Position> {
    if record.haul_task is Some && record.sprite is Some && record.carrying_state is Some {
        record.haul_task.unwrap().destination_position
    } else {
        None
    }
}

/// The record after its entity walked for `delta` milliseconds towards
/// `target`, if it has one.
pub open spec fn moved_to(record: Components, target: Option<Position>, delta: u32) -> Components {
    if target is Some && record.sprite is Some {
        Components { sprite: Some(walked(record.sprite.unwrap(), target.unwrap(), delta)), ..record }
    } else {
        record
    }
}

/// The record after `delta` milliseconds of walking to the origin of its
/// task. Only a loading villager walks.
pub open spec fn loading_moved(record: Components, delta: u32) -> Components {
    moved_to(record, loading_target(record), delta)
}

/// The record after `delta` milliseconds of walking to the destination of its
/// task. Only a carrying villager walks.
pub open spec fn carrying_moved(record: Components, delta: u32) -> Components {
    moved_to(record, carrying_target(record), delta)
}

/// Lets every loading villager walk towards the origin of its task.
pub fn update_loading_state(world: &mut Colony, delta: u32)
    requires
        old(world).wf(),
    ensures
        final(world).wf(),
        each_record_changed(
            old(world).records(),
            final(world).records(),
            |record: Components| loading_moved(record, delta),
        ),
        final(world).same_tasks(*old(world)),
        final(world).count() == old(world).count(),
{
    let entities = world.entities();
    let mut i: usize = 0;
    while i < entities.len()
        invariant
            i <= entities.len(),
            lists_records(entities@, old(world).records()),
            world.wf(),
            world.records().dom() =~= old(world).records().dom(),
            forall|j: int|
                0 <= j < i ==> world.records()[#[trigger] entities@[j].bits] == loading_moved(
                    old(world).records()[entities@[j].bits],
                    delta,
                ),
            forall|j: int|
                i <= j < entities.len() ==> world.records()[#[trigger] entities@[j].bits] == old(
                    world,
                ).records()[entities@[j].bits],
            world.same_tasks(*old(world)),
            world.count() == old(world).count(),
        decreases entities.len() - i,
    {
        let entity = entities[i];
        let mut record = world.get(entity).unwrap();
        if record.loading_state.is_some() {
            if let Some(task) = record.haul_task {
                if let Some(sprite) = record.sprite {
                    if let Some(target_position) = task.origin_position {
                        let mut moved = sprite;
                        walk_towards(target_position, &mut moved, delta);
                        record.sprite = Some(moved);
                        world.set(entity, record);
                    }
                }
            }
        }
        i = i + 1;
    }
    proof {
        lemma_listed_records_changed(
            entities@,
            old(world).records(),
            world.records(),
            |record: Components| loading_moved(record, delta),
        );
    }
}

/// Lets every carrying villager walk towards the destination of its task.
pub fn update_carrying_state(world: &mut Colony, delta: u32)
    requires
        old(world).wf(),
    ensures
        final(world).wf(),
        each_record_changed(
            old(world).records(),
            final(world).records(),
            |record: Components| carrying_moved(record, delta),
        ),
        final(world).same_tasks(*old(world)),
        final(world).count() == old(world).count(),
{
    let entities = world.entities();
    let mut i: usize = 0;
    while i < entities.len()
        invariant
            i <= entities.len(),
            lists_records(entities@, old(world).records()),
            world.wf(),
            world.records().dom() =~= old(world).records().dom(),
            forall|j: int|
                0 <= j < i ==> world.records()[#[trigger] entities@[j].bits] == carrying_moved(
                    old(world).records()[entities@[j].bits],
                    delta,
                ),
            forall|j: int|
                i <= j < entities.len() ==> world.records()[#[trigger] entities@[j].bits] == old(
                    world,
                ).records()[entities@[j].bits],
            world.same_tasks(*old(world)),
            world.count() == old(world).count(),
        decreases entities.len() - i,
    {
        let entity = entities[i];
        let mut record = world.get(entity).unwrap();
        if record.carrying_state.is_some() {
            if let Some(task) = record.haul_task {
                if let Some(sprite) = record.sprite {
                    if let Some(target_position) = task.destination_position {
                        let mut moved = sprite;
                        walk_towards(target_position, &mut moved, delta);
                        record.sprite = Some(moved);
                        world.set(entity, record);
                    }
                }
            }
        }
        i = i + 1;
    }
    proof {
        lemma_listed_records_changed(
            entities@,
            old(world).records(),
            world.records(),
            |record: Components| carrying_moved(record, delta),
        );
    }
}

/// What a hauler loads for its task: a full load of the task's resource. A
/// hauler without a task loads nothing.
pub open spec fn load_of(record: Components) -> Option<GameItem> {
    match record.haul_task {
        Some(task) => Some(GameItem { resource: task.resource, amount: HAULER_CAPACITY }),
        None => None,
    }
}

/// The record of a loading hauler after it picked its load up: the load is
/// in its backpack, and it is carrying.
pub open spec fn received(record: Components) -> Components {
    Components {
        backpack: Some(Backpack { item: load_of(record) }),
        loading_state: None,
        carrying_state: Some(CarryingState),
        ..record
    }
}

/// The record of a carrying hauler after it handed its load over: backpack
/// and task are gone, and it idles.
pub open spec fn delivered(record: Components) -> Components {
    Components {
        backpack: Some(Backpack { item: None }),
        haul_task: None,
        carrying_state: None,
        idle_state: Some(IdleState),
        ..record
    }
}

/// The hauler picks up the load of its task and starts carrying. Returns the
/// load.
pub fn receive_resource(world: &mut Colony, hauler: Entity) -> (item: Option<GameItem>)
    requires
        old(world).wf(),
        old(world).has(hauler),
        old(world).record(hauler).backpack is Some,
        old(world).record(hauler).loading_state is Some,
    ensures
        item == load_of(old(world).record(hauler)),
        final(world).records() == old(world).records().insert(
            hauler.bits,
            received(old(world).record(hauler)),
        ),
        final(world).same_tasks(*old(world)),
        final(world).count() == old(world).count(),
        final(world).wf(),
{
    let mut record = world.get(hauler).unwrap();
    let m_item: Option<GameItem> = match record.haul_task {
        Some(task) => Some(GameItem::new(task.resource, HAULER_CAPACITY)),
        None => None,
    };
    record.backpack = Some(Backpack { item: m_item });
    world.set(hauler, record);
    LoadingState::change_state_to(world, hauler, VillagerState::Carrying);
    assert(world.records() =~= old(world).records().insert(
        hauler.bits,
        received(old(world).record(hauler)),
    ));
    m_item
}

/// The hauler hands the load of its task over, drops the task and goes back
/// to idling. Returns the load.
pub fn deliver_resource(world: &mut Colony, hauler: Entity) -> (item: Option<GameItem>)
    requires
        old(world).wf(),
        old(world).has(hauler),
        old(world).record(hauler).backpack is Some,
        old(world).record(hauler).haul_task is Some,
        old(world).record(hauler).carrying_state is Some,
    ensures
        item == load_of(old(world).record(hauler)),
        final(world).records() == old(world).records().insert(
            hauler.bits,
            delivered(old(world).record(hauler)),
        ),
        final(world).same_tasks(*old(world)),
        final(world).count() == old(world).count(),
        final(world).wf(),
{
    let mut record = world.get(hauler).unwrap();
    let m_item: Option<GameItem> = match record.haul_task {
        Some(task) => Some(GameItem::new(task.resource, HAULER_CAPACITY)),
        None => None,
    };
    record.backpack = Some(Backpack { item: None });
    record.haul_task = None;
    world.set(hauler, record);
    CarryingState::change_state_to(world, hauler, VillagerState::Idle);
    assert(world.records() =~= old(world).records().insert(
        hauler.bits,
        delivered(old(world).record(hauler)),
    ));
    m_item
}

} // verus!
