use vstd::prelude::*;
use crate::engine::world::Colony;
use crate::game::scenes::test_map_scene::{tick_step, update_test_map_scene};
use crate::game::scenes::{ActiveScene, Scene};

verus! {

/// Advances the scene that runs by `delta` milliseconds. Only the test map
/// has a world to advance, and the second test map cannot be run.
pub fn update_game(world: &mut Colony, active_scene: &ActiveScene, delta: u32) -> (result: Result<
    (),
    String,
>)
    requires
        old(world).wf(),
        active_scene.scene != Scene::TestMap2,
    ensures
        result is Ok,
        final(world).wf(),
        active_scene.scene == Scene::TestMap ==> tick_step(*old(world), *final(world), delta),
        active_scene.scene != Scene::TestMap ==> final(world).records() == old(world).records()
            && final(world).same_tasks(*old(world)) && final(world).count() == old(world).count(),
{
    match active_scene.scene {
        Scene::TestMap => update_test_map_scene(world, delta),
        Scene::MainMenu => Ok(()),
        Scene::TestMap2 => Ok(()),
    }
}

} // verus!
