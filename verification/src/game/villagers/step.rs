use vstd::prelude::*;
use crate::engine::collision::CollisionBox;
use crate::engine::datatypes::{Position, Rectangle, Sprite};
use crate::engine::math::{distance_squared, moved_towards, squared_distance, step_towards};
use crate::engine::world::{
    each_record_changed, each_record_related, lemma_listed_records_changed,
    lemma_listed_records_related, lists_records, Colony, Components,
};
use crate::game::constants::VILLAGER_SPEED;
use crate::game::villagers::datatypes::IdleInfo;
use crate::game::villagers::hauler::{
    carrying_moved, loading_moved, update_carrying_state, update_loading_state,
};

verus! {

/// The units that a villager walks in `delta` milliseconds.
pub open spec fn walk(delta: u32) -> int {
    VILLAGER_SPEED * delta
}

/// Moves the sprite by what a villager walks in `delta` milliseconds, on the
/// straight line to the target.
pub fn move_villager(target_position: Position, sprite: &mut Sprite, delta: u32)
    ensures
        final(sprite).position == step_towards(old(sprite).position, target_position, walk(delta)),
        final(sprite).rect == old(sprite).rect,
{
    let speed: u64 = VILLAGER_SPEED as u64;
    assert(speed * delta <= 50 * 0xffff_ffff) by (nonlinear_arith)
        requires
            speed == 50,
            delta <= 0xffff_ffff,
    ;
    let step: u64 = speed * delta as u64;
    sprite.position = moved_towards(sprite.position, target_position, step);
}

/// The record with its box brought to where its sprite stands. A record
/// that lacks one of the two stays as it is.
pub open spec fn box_synced(record: Components) -> Components {
    if record.sprite is Some && record.collision_box is Some {
        Components {
            collision_box: Some(
                CollisionBox {
                    rect: Rectangle {
                        x: record.sprite.unwrap().position.x,
                        y: record.sprite.unwrap().position.y,
                        ..record.collision_box.unwrap().rect
                    },
                },
            ),
            ..record
        }
    } else {
        record
    }
}

/// Brings the box of every entity to where its sprite stands.
pub fn update_collision_box_position(world: &mut Colony)
    requires
        old(world).wf(),
    ensures
        final(world).wf(),
        each_record_changed(
            old(world).records(),
            final(world).records(),
            |record: Components| box_synced(record),
        ),
        final(world).same_tasks(*old(world)),
        final(world).count() == old(world).count(),
{
    let entities = world.entities();
    let mut i: usize = 0;
    while i < entities.len()
        invariant
            i <= entities.len(),
            lists_records(entities@, old(world).records()),
            world.wf(),
            world.records().dom() =~= old(world).records().dom(),
            forall|j: int|
                0 <= j < i ==> world.records()[#[trigger] entities@[j].bits] == box_synced(
                    old(world).records()[entities@[j].bits],
                ),
            forall|j: int|
                i <= j < entities.len() ==> world.records()[#[trigger] entities@[j].bits] == old(
                    world,
                ).records()[entities@[j].bits],
            world.same_tasks(*old(world)),
            world.count() == old(world).count(),
        decreases entities.len() - i,
    {
        let entity = entities[i];
        let mut record = world.get(entity).unwrap();
        if let Some(sprite) = record.sprite {
            if let Some(collision_box) = record.collision_box {
                record.collision_box = Some(
                    CollisionBox {
                        rect: Rectangle {
                            x: sprite.position.x,
                            y: sprite.position.y,
                            width: collision_box.rect.width,
                            height: collision_box.rect.height,
                        },
                    },
                );
                world.set(entity, record);
            }
        }
        i = i + 1;
    }
    proof {
        lemma_listed_records_changed(
            entities@,
            old(world).records(),
            world.records(),
            |record: Components| box_synced(record),
        );
    }
}

/// Two points are more than a pixel apart.
pub open spec fn far_apart(from: Position, to: Position) -> bool {
    distance_squared(from, to) > 1000 * 1000
}

/// Whether two points are more than a pixel apart.
pub fn is_far_apart(from: Position, to: Position) -> (far: bool)
    ensures
        far == far_apart(from, to),
{
    squared_distance(from, to) > 1000 * 1000
}

/// The sprite after a villager walked for `delta` milliseconds towards a
/// target: it moves while it is more than a pixel away, and stays else.
pub open spec fn walked(sprite: Sprite, target: Position, delta: u32) -> Sprite {
    if far_apart(sprite.position, target) {
        Sprite { position: step_towards(sprite.position, target, walk(delta)), rect: sprite.rect }
    } else {
        sprite
    }
}

/// Lets the sprite walk for `delta` milliseconds towards a target.
pub fn walk_towards(target: Position, sprite: &mut Sprite, delta: u32)
    ensures
        *final(sprite) == walked(*old(sprite), target, delta),
{
    if is_far_apart(sprite.position, target) {
        move_villager(target, sprite, delta);
    }
}

/// `rand::Rng::gen_range` on the generator of `rand::thread_rng`, which
/// panics on an empty range: some number from `low` up to, but not
/// including, `high`.
#[verifier::external_body]
fn random_between(low: i32, high: i32) -> (number: i32)
    requires
        low < high,
    ensures
        low <= number < high,
{
    rand::Rng::gen_range(&mut rand::thread_rng(), low..high)
}

/// The idle timer after `delta` milliseconds: a running timer runs down, one
/// that has run out stays.
pub open spec fn ticked(info: IdleInfo, delta: u32) -> IdleInfo {
    if info.idle_timer > 0 {
        IdleInfo { idle_timer: (info.idle_timer - delta) as i64, ..info }
    } else {
        info
    }
}

/// Whether a new target can be drawn: the square around the idle point and
/// the range of the timer are not empty, and the square can be written down.
pub open spec fn can_retarget(info: IdleInfo) -> bool {
    &&& info.timer_min < info.timer_max
    &&& 0 < info.radius
    &&& i32::MIN <= info.idle_point.x - info.radius
    &&& info.idle_point.x + info.radius <= i32::MAX
    &&& i32::MIN <= info.idle_point.y - info.radius
    &&& info.idle_point.y + info.radius <= i32::MAX
}

/// The point lies in the square around the idle point.
pub open spec fn within_reach(info: IdleInfo, point: Position) -> bool {
    &&& info.idle_point.x - info.radius <= point.x < info.idle_point.x + info.radius
    &&& info.idle_point.y - info.radius <= point.y < info.idle_point.y + info.radius
}

/// `after` is `before` with a new target within reach and a new timer
/// within its range.
pub open spec fn retargeted(before: IdleInfo, after: IdleInfo) -> bool {
    &&& within_reach(before, after.target_position)
    &&& before.timer_min <= after.idle_timer < before.timer_max
    &&& after == (IdleInfo {
        target_position: after.target_position,
        idle_timer: after.idle_timer,
        ..before
    })
}

/// Whether a new target can be drawn.
pub fn is_retargetable(idle_state: &IdleInfo) -> (possible: bool)
    ensures
        possible == can_retarget(*idle_state),
{
    let low_x: i64 = idle_state.idle_point.x as i64 - idle_state.radius as i64;
    let high_x: i64 = idle_state.idle_point.x as i64 + idle_state.radius as i64;
    let low_y: i64 = idle_state.idle_point.y as i64 - idle_state.radius as i64;
    let high_y: i64 = idle_state.idle_point.y as i64 + idle_state.radius as i64;
    idle_state.timer_min < idle_state.timer_max && 0 < idle_state.radius && i32::MIN as i64
        <= low_x && high_x <= i32::MAX as i64 && i32::MIN as i64 <= low_y && high_y
        <= i32::MAX as i64
}

/// Lets the idle timer run for `delta` milliseconds.
pub fn idle_state_tick(idle_state: &mut IdleInfo, delta: u32)
    ensures
        *final(idle_state) == ticked(*old(idle_state), delta),
{
    if idle_state.idle_timer > 0 {
        idle_state.idle_timer = idle_state.idle_timer - delta as i64;
    }
}

/// Sets a target and the time for which it is kept.
pub fn set_target(idle_state: &mut IdleInfo, target_position: Position, idle_timer: i32)
    ensures
        *final(idle_state) == (IdleInfo {
            target_position,
            idle_timer: idle_timer as i64,
            ..*old(idle_state)
        }),
{
    idle_state.target_position = target_position;
    idle_state.idle_timer = idle_timer as i64;
}

/// Draws a new target in the square around the idle point, and the time for
/// which it is kept.
pub fn get_new_target(idle_state: &mut IdleInfo)
    requires
        can_retarget(*old(idle_state)),
    ensures
        retargeted(*old(idle_state), *final(idle_state)),
{
    let rand_x: i32 = random_between(
        idle_state.idle_point.x - idle_state.radius,
        idle_state.idle_point.x + idle_state.radius,
    );
    let rand_y: i32 = random_between(
        idle_state.idle_point.y - idle_state.radius,
        idle_state.idle_point.y + idle_state.radius,
    );
    let timer: i32 = random_between(idle_state.timer_min, idle_state.timer_max);
    set_target(idle_state, Position { x: rand_x, y: rand_y }, timer);
}

/// A villager that idles: it has the tag, a place and a way to idle.
pub open spec fn idles(record: Components) -> bool {
    record.idle_info is Some && record.sprite is Some && record.idle_state is Some
}

/// What `delta` milliseconds do to the way a villager idles: the timer runs
/// down, and once it has run out a new target is drawn, where one can be.
pub open spec fn idle_info_stepped(before: IdleInfo, after: IdleInfo, delta: u32) -> bool {
    if ticked(before, delta).idle_timer <= 0 && can_retarget(ticked(before, delta)) {
        retargeted(ticked(before, delta), after)
    } else {
        after == ticked(before, delta)
    }
}

/// What `delta` milliseconds do to the record of an entity. A villager that
/// idles walks towards its target, after its timer ran down and a new target
/// was drawn if it was time for one. Any other entity stays as it is.
pub open spec fn idle_stepped(before: Components, after: Components, delta: u32) -> bool {
    if idles(before) {
        &&& after.idle_info is Some
        &&& idle_info_stepped(before.idle_info.unwrap(), after.idle_info.unwrap(), delta)
        &&& after.sprite == Some(
            walked(before.sprite.unwrap(), after.idle_info.unwrap().target_position, delta),
        )
        &&& after == (Components { idle_info: after.idle_info, sprite: after.sprite, ..before })
    } else {
        after == before
    }
}

/// Lets one entity idle for `delta` milliseconds.
pub fn idle_step(record: &mut Components, delta: u32)
    ensures
        idle_stepped(*old(record), *final(record), delta),
{
    if record.idle_state.is_some() {
        if let Some(sprite) = record.sprite {
            if let Some(idle_info) = record.idle_info {
                let mut idle_state = idle_info;
                let mut moved = sprite;
                idle_state_tick(&mut idle_state, delta);
                if idle_state.idle_timer <= 0 && is_retargetable(&idle_state) {
                    get_new_target(&mut idle_state);
                }
                walk_towards(idle_state.target_position, &mut moved, delta);
                record.idle_info = Some(idle_state);
                record.sprite = Some(moved);
            }
        }
    }
}

/// Lets every idle villager idle for `delta` milliseconds.
pub fn update_idle_state(world: &mut Colony, delta: u32)
    requires
        old(world).wf(),
    ensures
        final(world).wf(),
        each_record_related(
            old(world).records(),
            final(world).records(),
            |before: Components, after: Components| idle_stepped(before, after, delta),
        ),
        final(world).same_tasks(*old(world)),
        final(world).count() == old(world).count(),
{
    let entities = world.entities();
    let mut i: usize = 0;
    while i < entities.len()
        invariant
            i <= entities.len(),
            lists_records(entities@, old(world).records()),
            world.wf(),
            world.records().dom() =~= old(world).records().dom(),
            forall|j: int|
                0 <= j < i ==> idle_stepped(
                    old(world).records()[#[trigger] entities@[j].bits],
                    world.records()[entities@[j].bits],
                    delta,
                ),
            forall|j: int|
                i <= j < entities.len() ==> world.records()[#[trigger] entities@[j].bits] == old(
                    world,
                ).records()[entities@[j].bits],
            world.same_tasks(*old(world)),
            world.count() == old(world).count(),
        decreases entities.len() - i,
    {
        let entity = entities[i];
        let mut record = world.get(entity).unwrap();
        idle_step(&mut record, delta);
        world.set(entity, record);
        i = i + 1;
    }
    proof {
        lemma_listed_records_related(
            entities@,
            old(world).records(),
            world.records(),
            |before: Components, after: Components| idle_stepped(before, after, delta),
        );
    }
}

/// Every box was brought to where its sprite stands.
pub open spec fn boxes_synced(before: Map<u64, Components>, after: Map<u64, Components>) -> bool {
    each_record_changed(before, after, |record: Components| box_synced(record))
}

/// Every idle villager idled for `delta` milliseconds.
pub open spec fn idle_walked(
    before: Map<u64, Components>,
    after: Map<u64, Components>,
    delta: u32,
) -> bool {
    each_record_related(
        before,
        after,
        |from: Components, to: Components| idle_stepped(from, to, delta),
    )
}

/// Every loading villager walked for `delta` milliseconds.
pub open spec fn loading_walked(
    before: Map<u64, Components>,
    after: Map<u64, Components>,
    delta: u32,
) -> bool {
    each_record_changed(before, after, |record: Components| loading_moved(record, delta))
}

/// Every carrying villager walked for `delta` milliseconds.
pub open spec fn carrying_walked(
    before: Map<u64, Components>,
    after: Map<u64, Components>,
    delta: u32,
) -> bool {
    each_record_changed(before, after, |record: Components| carrying_moved(record, delta))
}

/// What one tick does to the villagers, step by step: boxes follow sprites,
/// idle villagers wander, loading villagers walk to the origin of their task
/// and carrying villagers to its destination. Tasks stay as they are.
pub open spec fn villagers_step(before: Colony, after: Colony, delta: u32) -> bool {
    &&& after.same_tasks(before)
    &&& after.count() == before.count()
    &&& exists|synced: Map<u64, Components>, idled: Map<u64, Components>, loaded: Map<u64, Components>|
        #![trigger idle_walked(synced, idled, delta), loading_walked(idled, loaded, delta)]
        {
            &&& boxes_synced(before.records(), synced)
            &&& idle_walked(synced, idled, delta)
            &&& loading_walked(idled, loaded, delta)
            &&& carrying_walked(loaded, after.records(), delta)
        }
}

/// Advances every villager by `delta` milliseconds.
pub fn update_villagers(world: &mut Colony, delta: u32)
    requires
        old(world).wf(),
    ensures
        final(world).wf(),
        villagers_step(*old(world), *final(world), delta),
{
    update_collision_box_position(world);
    let ghost synced = world.records();
    update_idle_state(world, delta);
    let ghost idled = world.records();
    update_loading_state(world, delta);
    let ghost loaded = world.records();
    update_carrying_state(world, delta);
    assert(boxes_synced(old(world).records(), synced));
    assert(idle_walked(synced, idled, delta));
    assert(loading_walked(idled, loaded, delta));
    assert(carrying_walked(loaded, world.records(), delta));
}

} // verus!
