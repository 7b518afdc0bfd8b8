use vstd::prelude::*;
use crate::engine::datatypes::Position;
use crate::engine::enums::{GameResource, VillagerState};
use crate::engine::world::{Colony, Components, Entity};

verus! {

/// Tag of a villager that hauls.
#[derive(Debug, Clone, Copy, PartialEq, Eq, Structural)]
pub struct Hauler;

/// State tag: the villager has nothing to do and wanders about its idle point.
#[derive(Debug, Clone, Copy, PartialEq, Eq, Structural)]
pub struct IdleState;

/// State tag: the villager walks to the origin of its task.
#[derive(Debug, Clone, Copy, PartialEq, Eq, Structural)]
pub struct LoadingState;

/// State tag: the villager walks, loaded, to the destination of its task.
#[derive(Debug, Clone, Copy, PartialEq, Eq, Structural)]
pub struct CarryingState;

/// State tag: the villager works on a site.
#[derive(Debug, Clone, Copy, PartialEq, Eq, Structural)]
pub struct WorkingState;

/// How a villager idles: around which point, how far from it, and for how
/// long it keeps one target.
#[derive(Debug, Clone, Copy, PartialEq, Eq, Structural)]
pub struct IdleInfo {
    pub idle_point: Position,
    /// Milliseconds until the villager picks a new target.
    pub idle_timer: i64,
    /// The least and the greatest time, in milliseconds, between two targets.
    pub timer_min: i32,
    pub timer_max: i32,
    pub radius: i32,
    pub target_position: Position,
}

impl IdleInfo {
    /// A villager that idles around `idle_point`: within twenty pixels of it, for
    /// three to five seconds towards one target, and with a target still to be
    /// drawn.
    pub fn default(idle_point: Position) -> (info: IdleInfo)
        ensures
            info == (IdleInfo {
                idle_point,
                idle_timer: 0,
                timer_min: 3000,
                timer_max: 5000,
                radius: 20000,
                target_position: Position { x: 0, y: 0 },
            }),
    {
        IdleInfo {
            idle_point,
            idle_timer: 0,
            timer_min: 3000,
            timer_max: 5000,
            radius: 20000,
            target_position: Position::zero(),
        }
    }
}

/// An amount of one resource.
#[derive(Debug, Clone, Copy, PartialEq, Eq, Structural)]
pub struct GameItem {
    pub resource: GameResource,
    pub amount: i32,
}

impl GameItem {
    /// This amount of this resource.
    pub fn new(resource: GameResource, amount: i32) -> (item: GameItem)
        ensures
            item == (GameItem { resource, amount }),
    {
        GameItem { resource, amount }
    }
}

impl Default for GameItem {
    fn default() -> (item: GameItem)
        ensures
            item == (GameItem { resource: GameResource::Wood, amount: 0 }),
    {
        GameItem { resource: GameResource::Wood, amount: 0 }
    }
}

/// What a villager carries, if anything.
#[derive(Debug, Clone, Copy, PartialEq, Eq, Structural)]
pub struct Backpack {
    pub item: Option<GameItem>,
}

impl Backpack {
    /// What is in the backpack.
    pub fn clone_item(&self) -> (item: Option<GameItem>)
        ensures
            item == self.item,
    {
        self.item
    }
}

impl Default for Backpack {
    fn default() -> (backpack: Backpack)
        ensures
            backpack == (Backpack { item: None }),
    {
        Backpack { item: None }
    }
}

impl IdleState {
    /// The record of an idle villager after it changed to `new_state`. It
    /// can start loading or working. A change to any other state is none: the
    /// villager stays idle.
    pub open spec fn changed_to(record: Components, new_state: VillagerState) -> Components {
        match new_state {
            VillagerState::Loading => Components {
                idle_state: None,
                loading_state: Some(LoadingState),
                ..record
            },
            VillagerState::Working => Components {
                idle_state: None,
                working_state: Some(WorkingState),
                ..record
            },
            _ => record,
        }
    }

    /// Lets an idle villager change to the state that follows: the idle tag
    /// gives way to the tag of `new_state`. Where `new_state` does not follow
    /// on idling, the villager stays idle. Either way it carries one tag.
    pub fn change_state_to(world: &mut Colony, entity: Entity, new_state: VillagerState)
        requires
            old(world).wf(),
            old(world).has(entity),
            old(world).record(entity).idle_state is Some,
        ensures
            final(world).records() == old(world).records().insert(
                entity.bits,
                Self::changed_to(old(world).record(entity), new_state),
            ),
            final(world).record(entity).state_tags() == 1,
            final(world).same_tasks(*old(world)),
            final(world).count() == old(world).count(),
            final(world).wf(),
    {
        let mut record = world.get(entity).unwrap();
        match new_state {
            VillagerState::Loading => {
                record.loading_state = Some(LoadingState);
                record.idle_state = None;
            },
            VillagerState::Working => {
                record.working_state = Some(WorkingState);
                record.idle_state = None;
            },
            _ => {},
        }
        world.set(entity, record);
    }
}

impl LoadingState {
    /// The record of a loading villager after it changed to `new_state`. It
    /// can start carrying or go back to idling. A change to any other state
    /// is none: the villager stays loading.
    pub open spec fn changed_to(record: Components, new_state: VillagerState) -> Components {
        match new_state {
            VillagerState::Idle => Components {
                loading_state: None,
                idle_state: Some(IdleState),
                ..record
            },
            VillagerState::Carrying => Components {
                loading_state: None,
                carrying_state: Some(CarryingState),
                ..record
            },
            _ => record,
        }
    }

    /// Lets a loading villager change to the state that follows: the loading
    /// tag gives way to the tag of `new_state`. Where `new_state` does not
    /// follow on loading, the villager stays loading. Either way it carries
    /// one tag.
    pub fn change_state_to(world: &mut Colony, entity: Entity, new_state: VillagerState)
        requires
            old(world).wf(),
            old(world).has(entity),
            old(world).record(entity).loading_state is Some,
        ensures
            final(world).records() == old(world).records().insert(
                entity.bits,
                Self::changed_to(old(world).record(entity), new_state),
            ),
            final(world).record(entity).state_tags() == 1,
            final(world).same_tasks(*old(world)),
            final(world).count() == old(world).count(),
            final(world).wf(),
    {
        let mut record = world.get(entity).unwrap();
        match new_state {
            VillagerState::Idle => {
                record.idle_state = Some(IdleState);
                record.loading_state = None;
            },
            VillagerState::Carrying => {
                record.carrying_state = Some(CarryingState);
                record.loading_state = None;
            },
            _ => {},
        }
        world.set(entity, record);
    }
}

impl CarryingState {
    /// The record of a carrying villager after it changed to `new_state`. It
    /// can go back to idling. A change to any other state is none: the
    /// villager stays carrying.
    pub open spec fn changed_to(record: Components, new_state: VillagerState) -> Components {
        match new_state {
            VillagerState::Idle => Components {
                carrying_state: None,
                idle_state: Some(IdleState),
                ..record
            },
            _ => record,
        }
    }

    /// Lets a carrying villager change to the state that follows: the
    /// carrying tag gives way to the idle tag. Where `new_state` does not
    /// follow on carrying, the villager stays carrying. Either way it carries
    /// one tag.
    pub fn change_state_to(world: &mut Colony, entity: Entity, new_state: VillagerState)
        requires
            old(world).wf(),
            old(world).has(entity),
            old(world).record(entity).carrying_state is Some,
        ensures
            final(world).records() == old(world).records().insert(
                entity.bits,
                Self::changed_to(old(world).record(entity), new_state),
            ),
            final(world).record(entity).state_tags() == 1,
            final(world).same_tasks(*old(world)),
            final(world).count() == old(world).count(),
            final(world).wf(),
    {
        let mut record = world.get(entity).unwrap();
        match new_state {
            VillagerState::Idle => {
                record.idle_state = Some(IdleState);
                record.carrying_state = None;
            },
            _ => {},
        }
        world.set(entity, record);
    }
}

} // verus!
