use vstd::prelude::*;
use crate::engine::datatypes::Position;
use crate::engine::enums::{GameResource, VillagerState};
use crate::engine::world::{following_id, lists_records, Colony, Components, Entity};
use crate::game::buildings::step::storage_has_required_resource;
use crate::game::constants::HAULER_CAPACITY;
use crate::game::villagers::datatypes::{IdleState, LoadingState};

verus! {

/// One trip of a hauler: a full load of one resource, from an origin that may
/// still be unknown to a destination.
#[derive(Debug, Clone, Copy, PartialEq, Eq, Structural)]
pub struct HaulTask {
    pub id: usize,
    pub origin_position: Option<Position>,
    pub destination_position: Option<Position>,
    pub resource: GameResource,
}

/// The tasks that no hauler has taken yet. The last one is handed out first.
#[derive(Debug, Clone)]
pub struct OpenTasks {
    pub haul_list: Vec<HaulTask>,
}

impl View for OpenTasks {
    type V = Seq<HaulTask>;

    open spec fn view(&self) -> Seq<HaulTask> {
        self.haul_list@
    }
}

impl Default for OpenTasks {
    fn default() -> (tasks: OpenTasks)
        ensures
            tasks@ == Seq::<HaulTask>::empty(),
    {
        OpenTasks { haul_list: Vec::new() }
    }
}

/// A hauler that can take a task: it idles and has none.
pub open spec fn is_free_hauler(record: Components) -> bool {
    record.hauler is Some && record.idle_state is Some && record.haul_task is None
}

/// A task that can be handed out: both its ends are known.
pub open spec fn assignable(task: HaulTask) -> bool {
    task.origin_position is Some && task.destination_position is Some
}

/// The record of a free hauler after it took `task`: it has the task and is
/// loading.
pub open spec fn with_task(record: Components, task: HaulTask) -> Components {
    Components {
        haul_task: Some(task),
        idle_state: None,
        loading_state: Some(LoadingState),
        ..record
    }
}

/// A building that `amount` of `resource` can be fetched from: a storage
/// with a place in the world, not under construction, with that much
/// available.
pub open spec fn is_source(record: Components, resource: GameResource, amount: int) -> bool {
    &&& record.storage_space is Some
    &&& record.sprite is Some
    &&& record.construction_storage is None
    &&& record.storage_space.unwrap().has_available(resource, amount)
}

/// Whether the records hold a source of `amount` of `resource`.
pub open spec fn has_source(records: Map<u64, Components>, resource: GameResource, amount: int) -> bool {
    exists|bits: u64|
        records.contains_key(bits) && is_source(#[trigger] records[bits], resource, amount)
}

/// `origin` is what a search for a source among the records gives: the place
/// of one, or nothing where there is none.
pub open spec fn is_origin_in(
    records: Map<u64, Components>,
    origin: Option<Position>,
    resource: GameResource,
    amount: int,
) -> bool {
    match origin {
        Some(position) => exists|bits: u64|
            records.contains_key(bits) && is_source(#[trigger] records[bits], resource, amount)
                && records[bits].sprite.unwrap().position == position,
        None => !has_source(records, resource, amount),
    }
}

/// `origin` is what a search for a source in the world gives.
pub open spec fn is_origin_for(
    world: Colony,
    origin: Option<Position>,
    resource: GameResource,
    amount: int,
) -> bool {
    is_origin_in(world.records(), origin, resource, amount)
}

/// Whether the newest open task can be handed to a hauler now.
pub open spec fn can_assign(world: Colony) -> bool {
    &&& world.open_tasks().len() > 0
    &&& assignable(world.open_tasks().last())
    &&& exists|bits: u64|
        world.records().contains_key(bits) && is_free_hauler(#[trigger] world.records()[bits])
}

/// The newest open task of `before` went to the free hauler `bits`.
pub open spec fn assigned_to(before: Colony, after: Colony, bits: u64) -> bool {
    &&& before.records().contains_key(bits)
    &&& is_free_hauler(before.records()[bits])
    &&& after.records() == before.records().insert(
        bits,
        with_task(before.records()[bits], before.open_tasks().last()),
    )
    &&& after.open_tasks() == before.open_tasks().drop_last()
}

/// What one round of assignment does: where the newest open task can be
/// handed out, one free hauler gets it; else nothing changes.
pub open spec fn assignment_step(before: Colony, after: Colony) -> bool {
    &&& after.next_id() == before.next_id()
    &&& after.count() == before.count()
    &&& if can_assign(before) {
        exists|bits: u64| #[trigger] assigned_to(before, after, bits)
    } else {
        after.records() == before.records() && after.open_tasks() == before.open_tasks()
    }
}

/// What one round of sourcing does to one open task: a task without origin
/// gets the place of a source of a full load, if the world holds one.
pub open spec fn sourced(world: Colony, before: HaulTask, after: HaulTask) -> bool {
    if before.origin_position is Some {
        after == before
    } else {
        &&& after == (HaulTask { origin_position: after.origin_position, ..before })
        &&& is_origin_for(world, after.origin_position, before.resource, HAULER_CAPACITY as int)
    }
}

/// What one round of sourcing does: every open task is sourced, and nothing
/// else changes.
pub open spec fn sourcing_step(before: Colony, after: Colony) -> bool {
    &&& after.records() == before.records()
    &&& after.next_id() == before.next_id()
    &&& after.count() == before.count()
    &&& after.open_tasks().len() == before.open_tasks().len()
    &&& forall|i: int|
        0 <= i < before.open_tasks().len() ==> sourced(
            before,
            before.open_tasks()[i],
            #[trigger] after.open_tasks()[i],
        )
}

/// What one tick does to the tasks: a round of assignment, then a round of
/// sourcing.
pub open spec fn tasks_step(before: Colony, after: Colony) -> bool {
    exists|between: Colony|
        assignment_step(before, between) && #[trigger] sourcing_step(between, after)
}

/// Hands the newest open task to a free hauler, then looks for the origin of
/// every open task that has none.
pub fn update_tasks(world: &mut Colony) -> (result: Result<(), String>)
    requires
        old(world).wf(),
    ensures
        result is Ok,
        final(world).wf(),
        tasks_step(*old(world), *final(world)),
{
    let _ = find_idle_hauler_for_task(world);
    let ghost between = *world;
    find_storage_source_for_haul_task(world);
    assert(sourcing_step(between, *world));
    Ok(())
}

/// Enqueues the fixed task of a load of wood from (304, 48) to (304, 248),
/// in pixels.
pub fn give_haul_task_to_idle(world: &mut Colony)
    ensures
        final(world).open_tasks() == old(world).open_tasks().push(
            HaulTask {
                id: old(world).next_id(),
                origin_position: Some(Position { x: 304000, y: 48000 }),
                destination_position: Some(Position { x: 304000, y: 248000 }),
                resource: GameResource::Wood,
            },
        ),
        final(world).next_id() == following_id(old(world).next_id()),
        final(world).records() == old(world).records(),
        final(world).count() == old(world).count(),
        old(world).wf() ==> final(world).wf(),
{
    generate_haul_task(
        world,
        Some(Position { x: 304000, y: 48000 }),
        Position { x: 304000, y: 248000 },
        GameResource::Wood,
    );
}

/// Enqueues a task with a new identifier. It is the next to be handed out.
pub fn generate_haul_task(
    world: &mut Colony,
    origin_position: Option<Position>,
    destination_position: Position,
    resource: GameResource,
)
    ensures
        final(world).open_tasks() == old(world).open_tasks().push(
            HaulTask {
                id: old(world).next_id(),
                origin_position,
                destination_position: Some(destination_position),
                resource,
            },
        ),
        final(world).next_id() == following_id(old(world).next_id()),
        final(world).records() == old(world).records(),
        final(world).count() == old(world).count(),
        old(world).wf() ==> final(world).wf(),
{
    let id: usize = world.take_task_id();
    let haul_task = HaulTask {
        id,
        origin_position,
        destination_position: Some(destination_position),
        resource,
    };
    world.push_open_task(haul_task);
}

/// A free hauler, if the world holds one.
pub fn find_free_hauler(world: &Colony) -> (found: Option<Entity>)
    ensures
        found is Some ==> world.has(found.unwrap()) && is_free_hauler(world.record(found.unwrap())),
        found is None ==> forall|bits: u64|
            world.records().contains_key(bits) ==> !is_free_hauler(#[trigger] world.records()[bits]),
{
    let entities = world.entities();
    let mut i: usize = 0;
    while i < entities.len()
        invariant
            i <= entities.len(),
            lists_records(entities@, world.records()),
            forall|j: int| 0 <= j < i ==> !is_free_hauler(#[trigger] world.records()[entities@[j].bits]),
        decreases entities.len() - i,
    {
        let entity = entities[i];
        let record = world.get(entity).unwrap();
        if record.hauler.is_some() && record.idle_state.is_some() && record.haul_task.is_none() {
            return Some(entity);
        }
        i = i + 1;
    }
    None
}

/// Hands the newest open task to a free hauler, which starts loading. The
/// task stays open where no hauler is free, and where one of its ends is
/// unknown.
pub fn find_idle_hauler_for_task(world: &mut Colony) -> (result: Result<(), String>)
    requires
        old(world).wf(),
    ensures
        result is Ok,
        final(world).wf(),
        assignment_step(*old(world), *final(world)),
{
    let found = find_free_hauler(world);
    if let Some(hauler) = found {
        let count: usize = world.open_task_count();
        if count > 0 {
            let last = world.open_task(count - 1).unwrap();
            if last.origin_position.is_some() && last.destination_position.is_some() {
                let haul_task = world.pop_open_task().unwrap();
                let mut record = world.get(hauler).unwrap();
                record.haul_task = Some(haul_task);
                world.set(hauler, record);
                IdleState::change_state_to(world, hauler, VillagerState::Loading);
                assert(world.records() =~= old(world).records().insert(
                    hauler.bits,
                    with_task(old(world).records()[hauler.bits], haul_task),
                ));
                assert(assigned_to(*old(world), *world, hauler.bits));
            }
        }
    }
    Ok(())
}

/// The place of a building that `amount` of `resource` can be fetched from,
/// if the world holds one.
pub fn find_storage_with(world: &Colony, resource: GameResource, amount: i32) -> (origin: Option<
    Position,
>)
    ensures
        is_origin_for(*world, origin, resource, amount as int),
{
    let entities = world.entities();
    let mut i: usize = 0;
    while i < entities.len()
        invariant
            i <= entities.len(),
            lists_records(entities@, world.records()),
            forall|j: int|
                0 <= j < i ==> !is_source(
                    #[trigger] world.records()[entities@[j].bits],
                    resource,
                    amount as int,
                ),
        decreases entities.len() - i,
    {
        let entity = entities[i];
        let record = world.get(entity).unwrap();
        if record.construction_storage.is_none() {
            if let Some(storage) = record.storage_space {
                if let Some(sprite) = record.sprite {
                    if storage_has_required_resource(&storage, resource, amount) {
                        return Some(sprite.position);
                    }
                }
            }
        }
        i = i + 1;
    }
    None
}

/// Looks for the origin of every open task that has none: a storage that has
/// a full load of the task's resource available.
pub fn find_storage_source_for_haul_task(world: &mut Colony)
    ensures
        sourcing_step(*old(world), *final(world)),
        old(world).wf() ==> final(world).wf(),
{
    let count: usize = world.open_task_count();
    let mut i: usize = 0;
    while i < count
        invariant
            i <= count,
            count == old(world).open_tasks().len(),
            world.open_tasks().len() == count,
            world.records() == old(world).records(),
            world.next_id() == old(world).next_id(),
            world.count() == old(world).count(),
            old(world).wf() ==> world.wf(),
            forall|j: int|
                0 <= j < i ==> sourced(
                    *old(world),
                    old(world).open_tasks()[j],
                    #[trigger] world.open_tasks()[j],
                ),
            forall|j: int|
                i <= j < count ==> #[trigger] world.open_tasks()[j] == old(world).open_tasks()[j],
        decreases count - i,
    {
        let task = world.open_task(i).unwrap();
        if task.origin_position.is_none() {
            let origin = find_storage_with(world, task.resource, HAULER_CAPACITY);
            let sourced_task = HaulTask { origin_position: origin, ..task };
            world.replace_open_task(i, sourced_task);
        }
        i = i + 1;
    }
}

} // verus!
