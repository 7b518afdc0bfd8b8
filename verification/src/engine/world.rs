use vstd::prelude::*;
use crate::engine::collision::{BodyCollision, CollisionBox, TriggerCollision};
use crate::engine::datatypes::Sprite;
use crate::engine::enums::VillagerState;
use crate::game::buildings::datatypes::{
    Building, ConstructionPlacement, ConstructionStorage, House, OngoingConstruction, Storage,
    StorageSpace, Warehouse,
};
use crate::game::tasks::{HaulTask, OpenTasks};
use crate::game::villagers::datatypes::{
    Backpack, CarryingState, Hauler, IdleInfo, IdleState, LoadingState, WorkingState,
};

verus! {

/// Handle of an entity of the world.
#[derive(Debug, Clone, Copy, PartialEq, Eq, Hash, Structural)]
pub struct Entity {
    pub bits: u64,
}

/// Everything one entity carries. A component that the entity lacks is `None`.
#[derive(Debug, Clone, Copy, PartialEq, Eq, Structural)]
pub struct Components {
    pub sprite: Option<Sprite>,
    pub collision_box: Option<CollisionBox>,
    pub body_collision: Option<BodyCollision>,
    pub trigger_collision: Option<TriggerCollision>,
    pub hauler: Option<Hauler>,
    pub idle_info: Option<IdleInfo>,
    pub idle_state: Option<IdleState>,
    pub loading_state: Option<LoadingState>,
    pub carrying_state: Option<CarryingState>,
    pub working_state: Option<WorkingState>,
    pub backpack: Option<Backpack>,
    pub haul_task: Option<HaulTask>,
    pub building: Option<Building>,
    pub warehouse: Option<Warehouse>,
    pub house: Option<House>,
    pub storage: Option<Storage>,
    pub storage_space: Option<StorageSpace>,
    pub construction_storage: Option<ConstructionStorage>,
    pub construction_placement: Option<ConstructionPlacement>,
    pub ongoing_construction: Option<OngoingConstruction>,
}

impl Components {
    /// How many of the four state tags the entity carries.
    pub open spec fn state_tags(&self) -> int {
        (if self.idle_state is Some { 1int } else { 0 })
            + (if self.loading_state is Some { 1int } else { 0 })
            + (if self.carrying_state is Some { 1int } else { 0 })
            + (if self.working_state is Some { 1int } else { 0 })
    }

    /// The entity carries at most one state tag.
    pub open spec fn exclusive_state(&self) -> bool {
        self.state_tags() <= 1
    }

    /// The state that the entity's tag stands for.
    pub open spec fn state(&self) -> Option<VillagerState> {
        if self.idle_state is Some {
            Some(VillagerState::Idle)
        } else if self.loading_state is Some {
            Some(VillagerState::Loading)
        } else if self.carrying_state is Some {
            Some(VillagerState::Carrying)
        } else if self.working_state is Some {
            Some(VillagerState::Working)
        } else {
            None
        }
    }

    /// The record of an entity that carries nothing.
    pub open spec fn nothing() -> Components {
        Components {
            sprite: None,
            collision_box: None,
            body_collision: None,
            trigger_collision: None,
            hauler: None,
            idle_info: None,
            idle_state: None,
            loading_state: None,
            carrying_state: None,
            working_state: None,
            backpack: None,
            haul_task: None,
            building: None,
            warehouse: None,
            house: None,
            storage: None,
            storage_space: None,
            construction_storage: None,
            construction_placement: None,
            ongoing_construction: None,
        }
    }

    /// The record of an entity that carries nothing.
    pub fn new() -> (record: Components)
        ensures
            record == Components::nothing(),
    {
        Components {
            sprite: None,
            collision_box: None,
            body_collision: None,
            trigger_collision: None,
            hauler: None,
            idle_info: None,
            idle_state: None,
            loading_state: None,
            carrying_state: None,
            working_state: None,
            backpack: None,
            haul_task: None,
            building: None,
            warehouse: None,
            house: None,
            storage: None,
            storage_space: None,
            construction_storage: None,
            construction_placement: None,
            ongoing_construction: None,
        }
    }

    /// Whether the entity carries at most one state tag.
    pub fn has_exclusive_state(&self) -> (exclusive: bool)
        ensures
            exclusive == self.exclusive_state(),
    {
        let mut tags: u8 = 0;
        if self.idle_state.is_some() {
            tags = tags + 1;
        }
        if self.loading_state.is_some() {
            tags = tags + 1;
        }
        if self.carrying_state.is_some() {
            tags = tags + 1;
        }
        if self.working_state.is_some() {
            tags = tags + 1;
        }
        tags <= 1
    }

    /// The state that the entity's tag stands for.
    pub fn villager_state(&self) -> (state: Option<VillagerState>)
        ensures
            state == self.state(),
    {
        if self.idle_state.is_some() {
            Some(VillagerState::Idle)
        } else if self.loading_state.is_some() {
            Some(VillagerState::Loading)
        } else if self.carrying_state.is_some() {
            Some(VillagerState::Carrying)
        } else if self.working_state.is_some() {
            Some(VillagerState::Working)
        } else {
            None
        }
    }
}

/// `hecs::World`, the store that keeps the records. Its values are carried
/// through; what is known of them is what the functions below state.
#[verifier::external_type_specification]
#[verifier::external_body]
pub struct ExStore(hecs::World);

/// The records that a store holds, each under the bits of its entity's
/// handle, as `hecs::Entity::to_bits` gives them.
pub uninterp spec fn store_view(store: hecs::World) -> Map<u64, Components>;

/// The number of handles that a store has given out and not taken back: its
/// entities, with or without a record, those that are only reserved among
/// them.
pub uninterp spec fn store_count(store: hecs::World) -> nat;

/// A store without any record.
pub open spec fn no_records() -> Map<u64, Components> {
    Map::empty()
}

/// The handles list every record of `records` once, and nothing else.
pub open spec fn lists_records(entities: Seq<Entity>, records: Map<u64, Components>) -> bool {
    &&& forall|i: int| 0 <= i < entities.len() ==> records.contains_key(#[trigger] entities[i].bits)
    &&& forall|i: int, j: int|
        0 <= i < j < entities.len() ==> entities[i].bits != entities[j].bits
    &&& forall|bits: u64| #[trigger]
        records.contains_key(bits) ==> exists|i: int|
            0 <= i < entities.len() && entities[i].bits == bits
}

/// `hecs::World::new`: a new store holds no entity.
#[verifier::external_body]
fn store_new() -> (fresh: hecs::World)
    ensures
        store_view(fresh) == no_records(),
        store_count(fresh) == 0,
{
    hecs::World::new()
}

/// `hecs::World::spawn`, which panics where the store has given out as many
/// handles as a `u32` counts, with `hecs::Entity::to_bits` for the handle: a
/// new entity lives in the store with `record` as its record, under a handle
/// that no record was stored under. Every other record stays as it was.
#[verifier::external_body]
fn store_spawn(store: &mut hecs::World, record: Components) -> (entity: Entity)
    requires
        store_count(*old(store)) < u32::MAX,
    ensures
        !store_view(*old(store)).contains_key(entity.bits),
        store_view(*final(store)) == store_view(*old(store)).insert(entity.bits, record),
        store_count(*final(store)) == store_count(*old(store)) + 1,
{
    Entity { bits: store.spawn((record,)).to_bits().get() }
}

/// `hecs::Entity::from_bits` and `hecs::World::get` for a shared reference:
/// the record that is stored under the handle, if there is one. Bits that
/// are no handle have no record.
#[verifier::external_body]
fn store_get(store: &hecs::World, entity: Entity) -> (record: Option<Components>)
    ensures
        store_view(*store).contains_key(entity.bits) ==> record == Some(
            store_view(*store)[entity.bits],
        ),
        !store_view(*store).contains_key(entity.bits) ==> record is None,
{
    match hecs::Entity::from_bits(entity.bits) {
        Some(handle) => match store.get::<&Components>(handle) {
            Ok(found) => Some(*found),
            Err(_) => None,
        },
        None => None,
    }
}

/// `hecs::Entity::from_bits` and `hecs::World::get` for a unique reference,
/// through which the record is overwritten: where a record is stored under
/// the handle, `record` takes its place; where none is, nothing changes. No
/// entity comes or goes.
#[verifier::external_body]
fn store_put(store: &mut hecs::World, entity: Entity, record: Components) -> (done: bool)
    ensures
        done == store_view(*old(store)).contains_key(entity.bits),
        done ==> store_view(*final(store)) == store_view(*old(store)).insert(entity.bits, record),
        !done ==> store_view(*final(store)) == store_view(*old(store)),
        store_count(*final(store)) == store_count(*old(store)),
{
    match hecs::Entity::from_bits(entity.bits) {
        Some(handle) => match store.get::<&mut Components>(handle) {
            Ok(mut found) => {
                *found = record;
                true
            },
            Err(_) => false,
        },
        None => false,
    }
}

/// `hecs::World::query`, walked once, with `hecs::Entity::to_bits` for each
/// handle: the handles of all entities with a record, each once, in an order
/// that the store chooses.
#[verifier::external_body]
fn store_entities(store: &hecs::World) -> (entities: Vec<Entity>)
    ensures
        lists_records(entities@, store_view(*store)),
{
    store.query::<&Components>().iter().map(|(handle, _)| Entity { bits: handle.to_bits().get() }).collect()
}

/// The world of a colony: its entities with their records, and the tasks that
/// wait for a hauler.
pub struct Colony {
    store: hecs::World,
    spawned: u32,
    open_tasks: OpenTasks,
    next_id: usize,
}

impl Colony {
    /// The record of every entity that has one, by the bits of its handle.
    pub closed spec fn records(&self) -> Map<u64, Components> {
        store_view(self.store)
    }

    /// The number of entities.
    pub closed spec fn count(&self) -> nat {
        self.spawned as nat
    }

    /// The world has counted every entity of its store.
    pub closed spec fn counted(&self) -> bool {
        self.spawned == store_count(self.store)
    }

    /// The open tasks, the oldest first.
    pub closed spec fn open_tasks(&self) -> Seq<HaulTask> {
        self.open_tasks@
    }

    /// The identifier that the next task gets.
    pub closed spec fn next_id(&self) -> usize {
        self.next_id
    }

    /// There are finitely many records, each entity is counted, and no
    /// entity carries two state tags.
    pub open spec fn wf(&self) -> bool {
        &&& self.records().dom().finite()
        &&& self.counted()
        &&& forall|bits: u64|
            self.records().contains_key(bits) ==> (#[trigger] self.records()[bits]).exclusive_state()
    }

    /// Whether the entity has a record.
    pub open spec fn has(&self, entity: Entity) -> bool {
        self.records().contains_key(entity.bits)
    }

    /// The record of an entity that has one.
    pub open spec fn record(&self, entity: Entity) -> Components {
        self.records()[entity.bits]
    }

    /// The two worlds hold the same open tasks and give the same identifier
    /// to the next one.
    pub open spec fn same_tasks(&self, other: Colony) -> bool {
        self.open_tasks() == other.open_tasks() && self.next_id() == other.next_id()
    }

    /// A world without entities or tasks.
    pub fn new() -> (world: Colony)
        ensures
            world.wf(),
            world.records() == no_records(),
            world.count() == 0,
            world.open_tasks() == Seq::<HaulTask>::empty(),
            world.next_id() == 0,
    {
        Colony {
            store: store_new(),
            spawned: 0,
            open_tasks: OpenTasks { haul_list: Vec::new() },
            next_id: 0,
        }
    }

    /// The number of entities.
    pub fn len(&self) -> (len: u32)
        ensures
            len == self.count(),
    {
        self.spawned
    }

    /// Creates an entity with `record` as its record. There is no new entity
    /// where the record carries two state tags, nor where the world is full.
    pub fn spawn(&mut self, record: Components) -> (spawned: Option<Entity>)
        requires
            old(self).wf(),
        ensures
            spawned is Some <==> record.exclusive_state() && old(self).count() < u32::MAX,
            spawned is Some ==> !old(self).has(spawned.unwrap()),
            spawned is Some ==> final(self).records() == old(self).records().insert(
                spawned.unwrap().bits,
                record,
            ),
            spawned is Some ==> final(self).count() == old(self).count() + 1,
            spawned is None ==> final(self).records() == old(self).records(),
            spawned is None ==> final(self).count() == old(self).count(),
            final(self).same_tasks(*old(self)),
            final(self).wf(),
    {
        if record.has_exclusive_state() && self.spawned < u32::MAX {
            let entity = store_spawn(&mut self.store, record);
            self.spawned = self.spawned + 1;
            Some(entity)
        } else {
            None
        }
    }

    /// The record of an entity, if it has one.
    pub fn get(&self, entity: Entity) -> (record: Option<Components>)
        ensures
            self.has(entity) ==> record == Some(self.record(entity)),
            !self.has(entity) ==> record is None,
            self.wf() && record is Some ==> record.unwrap().exclusive_state(),
    {
        store_get(&self.store, entity)
    }

    /// Replaces the record of an entity. Nothing changes where the entity has
    /// no record, nor where the new record carries two state tags.
    pub fn set(&mut self, entity: Entity, record: Components) -> (done: bool)
        ensures
            done == (old(self).has(entity) && record.exclusive_state()),
            done ==> final(self).records() == old(self).records().insert(entity.bits, record),
            !done ==> final(self).records() == old(self).records(),
            final(self).count() == old(self).count(),
            final(self).same_tasks(*old(self)),
            old(self).wf() ==> final(self).wf(),
    {
        if record.has_exclusive_state() {
            store_put(&mut self.store, entity, record)
        } else {
            false
        }
    }

    /// The handles of all entities that have a record, each once, in no
    /// particular order.
    pub fn entities(&self) -> (entities: Vec<Entity>)
        ensures
            lists_records(entities@, self.records()),
    {
        store_entities(&self.store)
    }

    /// The number of open tasks.
    pub fn open_task_count(&self) -> (count: usize)
        ensures
            count == self.open_tasks().len(),
    {
        self.open_tasks.haul_list.len()
    }

    /// The open task at `index`, counted from the oldest.
    pub fn open_task(&self, index: usize) -> (task: Option<HaulTask>)
        ensures
            index < self.open_tasks().len() ==> task == Some(self.open_tasks()[index as int]),
            index >= self.open_tasks().len() ==> task is None,
    {
        if index < self.open_tasks.haul_list.len() {
            Some(self.open_tasks.haul_list[index])
        } else {
            None
        }
    }

    /// Puts a task behind all open tasks: it is the next to be handed out.
    pub fn push_open_task(&mut self, task: HaulTask)
        ensures
            final(self).open_tasks() == old(self).open_tasks().push(task),
            final(self).next_id() == old(self).next_id(),
            final(self).records() == old(self).records(),
            final(self).count() == old(self).count(),
            old(self).wf() ==> final(self).wf(),
    {
        self.open_tasks.haul_list.push(task);
    }

    /// Takes the newest open task out, if there is any.
    pub fn pop_open_task(&mut self) -> (task: Option<HaulTask>)
        ensures
            old(self).open_tasks().len() == 0 ==> task is None && final(self).open_tasks() == old(
                self,
            ).open_tasks(),
            old(self).open_tasks().len() > 0 ==> task == Some(old(self).open_tasks().last())
                && final(self).open_tasks() == old(self).open_tasks().drop_last(),
            final(self).next_id() == old(self).next_id(),
            final(self).records() == old(self).records(),
            final(self).count() == old(self).count(),
            old(self).wf() ==> final(self).wf(),
    {
        self.open_tasks.haul_list.pop()
    }

    /// Replaces the open task at `index`. Nothing changes where there is no
    /// such task.
    pub fn replace_open_task(&mut self, index: usize, task: HaulTask) -> (done: bool)
        ensures
            done == (index < old(self).open_tasks().len()),
            done ==> final(self).open_tasks() == old(self).open_tasks().update(index as int, task),
            !done ==> final(self).open_tasks() == old(self).open_tasks(),
            final(self).next_id() == old(self).next_id(),
            final(self).records() == old(self).records(),
            final(self).count() == old(self).count(),
            old(self).wf() ==> final(self).wf(),
    {
        if index < self.open_tasks.haul_list.len() {
            self.open_tasks.haul_list[index] = task;
            true
        } else {
            false
        }
    }

    /// Hands out the identifier of the next task. After the greatest
    /// identifier the count starts again at zero.
    pub fn take_task_id(&mut self) -> (id: usize)
        ensures
            id == old(self).next_id(),
            final(self).next_id() == following_id(old(self).next_id()),
            final(self).open_tasks() == old(self).open_tasks(),
            final(self).records() == old(self).records(),
            final(self).count() == old(self).count(),
            old(self).wf() ==> final(self).wf(),
    {
        let id: usize = self.next_id;
        self.next_id = if id == usize::MAX {
            0
        } else {
            id + 1
        };
        id
    }
}

/// The identifier that follows `id`.
pub open spec fn following_id(id: usize) -> usize {
    if id == usize::MAX {
        0
    } else {
        (id + 1) as usize
    }
}

/// Every record of `after` is what `change` makes of the record that
/// `before` holds under the same handle; no record came or went.
pub open spec fn each_record_changed(
    before: Map<u64, Components>,
    after: Map<u64, Components>,
    change: spec_fn(Components) -> Components,
) -> bool {
    &&& after.dom() == before.dom()
    &&& forall|bits: u64| #[trigger]
        before.contains_key(bits) ==> after[bits] == change(before[bits])
}

/// Every record of `after` is related by `relation` to the record that
/// `before` holds under the same handle; no record came or went.
pub open spec fn each_record_related(
    before: Map<u64, Components>,
    after: Map<u64, Components>,
    relation: spec_fn(Components, Components) -> bool,
) -> bool {
    &&& after.dom() == before.dom()
    &&& forall|bits: u64| #[trigger]
        before.contains_key(bits) ==> relation(before[bits], after[bits])
}

/// What holds of every listed record holds of every record.
pub proof fn lemma_listed_records_changed(
    entities: Seq<Entity>,
    before: Map<u64, Components>,
    after: Map<u64, Components>,
    change: spec_fn(Components) -> Components,
)
    requires
        lists_records(entities, before),
        after.dom() =~= before.dom(),
        forall|i: int|
            0 <= i < entities.len() ==> after[#[trigger] entities[i].bits] == change(
                before[entities[i].bits],
            ),
    ensures
        each_record_changed(before, after, change),
{
    assert forall|bits: u64| #[trigger] before.contains_key(bits) implies after[bits] == change(
        before[bits],
    ) by {
        let i = choose|i: int| 0 <= i < entities.len() && entities[i].bits == bits;
        assert(after[entities[i].bits] == change(before[entities[i].bits]));
    }
}

/// What holds of every listed record holds of every record.
pub proof fn lemma_listed_records_related(
    entities: Seq<Entity>,
    before: Map<u64, Components>,
    after: Map<u64, Components>,
    relation: spec_fn(Components, Components) -> bool,
)
    requires
        lists_records(entities, before),
        after.dom() =~= before.dom(),
        forall|i: int|
            0 <= i < entities.len() ==> relation(
                before[#[trigger] entities[i].bits],
                after[entities[i].bits],
            ),
    ensures
        each_record_related(before, after, relation),
{
    assert forall|bits: u64| #[trigger] before.contains_key(bits) implies relation(
        before[bits],
        after[bits],
    ) by {
        let i = choose|i: int| 0 <= i < entities.len() && entities[i].bits == bits;
        assert(relation(before[entities[i].bits], after[entities[i].bits]));
    }
}

/// No entity of a well-formed world is in two states at once.
pub proof fn lemma_states_exclusive(world: Colony, entity: Entity)
    requires
        world.wf(),
        world.has(entity),
    ensures
        !(world.record(entity).idle_state is Some && world.record(entity).loading_state is Some),
        !(world.record(entity).idle_state is Some && world.record(entity).carrying_state is Some),
        !(world.record(entity).idle_state is Some && world.record(entity).working_state is Some),
        !(world.record(entity).loading_state is Some && world.record(entity).carrying_state
            is Some),
        !(world.record(entity).loading_state is Some && world.record(entity).working_state is Some),
        !(world.record(entity).carrying_state is Some && world.record(entity).working_state
            is Some),
{
    assert(world.records()[entity.bits].exclusive_state());
}

} // verus!
