//! The scenes of the game, and which of them runs.

use vstd::prelude::*;

pub mod test_map_scene;

verus! {

/// The scenes of the game.
#[derive(Debug, Clone, Copy, PartialEq, Eq, Structural)]
pub enum Scene {
    MainMenu,
    TestMap,
    TestMap2,
}

/// The scene that runs.
#[derive(Debug, Clone, Copy, PartialEq, Eq, Structural)]
pub struct ActiveScene {
    pub scene: Scene,
}

} // verus!
