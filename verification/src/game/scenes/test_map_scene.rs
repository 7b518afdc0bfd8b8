use vstd::prelude::*;
use crate::engine::collision::{
    collisions_detected, detect_body_collisions, detect_trigger_collisions,
};
use crate::engine::world::Colony;
use crate::game::buildings::step::{buildings_step, update_buildings};
use crate::game::startup::{
    buildings_spawned, spawn_buildings, spawn_villagers, villagers_spawned,
};
use crate::game::tasks::{tasks_step, update_tasks};
use crate::game::ui::datatypes::SelectedHauler;
use crate::game::villagers::step::{update_villagers, villagers_step};

verus! {

/// What detection does to the world: both families of collisions are
/// reported, the solid bodies first.
pub open spec fn detection_step(before: Colony, after: Colony) -> bool {
    &&& after.same_tasks(before)
    &&& after.count() == before.count()
    &&& exists|bodies: Map<u64, crate::engine::world::Components>|
        collisions_detected(before.records(), bodies, true) && #[trigger] collisions_detected(
            bodies,
            after.records(),
            false,
        )
}

/// What one tick of `delta` milliseconds does, step by step: tasks are
/// handed out and sourced, villagers move, collisions are detected, and
/// buildings deal with the villagers at their doors.
pub open spec fn tick_step(before: Colony, after: Colony, delta: u32) -> bool {
    exists|tasked: Colony, moved: Colony, detected: Colony|
        #![trigger villagers_step(tasked, moved, delta), detection_step(moved, detected)]
        {
            &&& tasks_step(before, tasked)
            &&& villagers_step(tasked, moved, delta)
            &&& detection_step(moved, detected)
            &&& buildings_step(detected, after)
        }
}

/// Advances the world by one tick of `delta` milliseconds.
pub fn update_test_map_scene(world: &mut Colony, delta: u32) -> (result: Result<(), String>)
    requires
        old(world).wf(),
    ensures
        result is Ok,
        final(world).wf(),
        tick_step(*old(world), *final(world), delta),
{
    let _ = update_tasks(world);
    let ghost tasked = *world;
    update_villagers(world, delta);
    let ghost moved = *world;
    detect_body_collisions(world);
    let ghost bodies = world.records();
    detect_trigger_collisions(world);
    let ghost detected = *world;
    let result = update_buildings(world);
    assert(collisions_detected(bodies, detected.records(), false));
    assert(detection_step(moved, detected));
    assert(villagers_step(tasked, moved, delta));
    assert(tasks_step(*old(world), tasked));
    assert(buildings_step(detected, *world));
    result
}

/// Fills an empty map with its buildings and its villager. Returns the
/// hauler that the player watches.
pub fn setup_test_map(world: &mut Colony) -> (result: Result<SelectedHauler, String>)
    requires
        old(world).wf(),
        old(world).count() + 4 <= u32::MAX,
    ensures
        result is Ok,
        final(world).wf(),
        final(world).count() == old(world).count() + 4,
        final(world).same_tasks(*old(world)),
        exists|built: Map<u64, crate::engine::world::Components>|
            #[trigger] buildings_spawned(old(world).records(), built) && villagers_spawned(
                built,
                final(world).records(),
                result.unwrap().hauler,
            ),
{
    spawn_buildings(world);
    let ghost built = world.records();
    let selected = spawn_villagers(world);
    assert(villagers_spawned(built, world.records(), selected.hauler));
    Ok(selected)
}

} // verus!
