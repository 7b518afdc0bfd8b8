use vstd::prelude::*;
use crate::engine::datatypes::Position;
use crate::engine::enums::{GameResource, VillagerState};
use crate::engine::world::{
    following_id, each_record_changed, lemma_listed_records_changed, lists_records, Colony, Components, Entity,
};
use crate::game::buildings::datatypes::{
    ConstructionStorage, ItemList, OngoingConstruction, StorageSpace,
};
use crate::game::constants::{CONSTRUCTION_WORK, HAULER_CAPACITY};
use crate::game::tasks::{
    find_storage_with, generate_haul_task, has_source, is_origin_in, is_source, HaulTask,
};
use crate::game::villagers::datatypes::GameItem;
use crate::game::villagers::hauler::{deliver_resource, delivered, receive_resource, received};

verus! {

/// Whether `amount` of `resource` can be taken from the storage without
/// touching what is promised.
pub fn storage_has_required_resource(
    storage: &StorageSpace,
    resource: GameResource,
    amount: i32,
) -> (available: bool)
    ensures
        available == storage.has_available(resource, amount as int),
{
    match storage.item_list.get(resource) {
        Some(on_hand) => {
            let reserved: i64 = match storage.reserved_item_list.get(resource) {
                Some(promised) => promised as i64,
                None => 0,
            };
            on_hand as i64 - reserved >= amount as i64
        },
        None => false,
    }
}

/// Whether a list asks for nothing: its quantities sum to zero or less.
pub fn is_storage_empty(list: &ItemList) -> (empty: bool)
    ensures
        empty == (list.total() <= 0),
{
    list.sum() <= 0
}

/// The record of a building after `item` was taken out of its storage; the
/// same record where it has no storage or the withdrawal is rejected.
pub open spec fn withdrawn(record: Components, item: GameItem) -> Components {
    match record.storage_space {
        Some(storage) => Components {
            storage_space: Some(storage.after_withdraw(item.resource, item.amount as int)),
            ..record
        },
        None => record,
    }
}

/// The record of a building after `item` was put into its storage; the same
/// record where it has no storage or the deposit is rejected.
pub open spec fn deposited(record: Components, item: GameItem) -> Components {
    match record.storage_space {
        Some(storage) => Components {
            storage_space: Some(storage.after_deposit(item.resource, item.amount as int)),
            ..record
        },
        None => record,
    }
}

/// The record of a site after `item` was delivered to it; the same record
/// where it is no site.
pub open spec fn supplied(record: Components, item: GameItem) -> Components {
    match record.construction_storage {
        Some(construction) => Components {
            construction_storage: Some(
                construction.after_delivery(item.resource, item.amount as int),
            ),
            ..record
        },
        None => record,
    }
}

/// Takes `item` out of the storage of a building. It is rejected, and
/// nothing changes, where the building has no storage, and where the storage
/// has not that much available.
pub fn remove_from_storage(world: &mut Colony, building: Entity, item: GameItem) -> (done: bool)
    requires
        old(world).wf(),
    ensures
        done == (old(world).has(building) && old(world).record(building).storage_space is Some
            && old(world).record(building).storage_space.unwrap().can_withdraw(
            item.resource,
            item.amount as int,
        )),
        done ==> final(world).records() == old(world).records().insert(
            building.bits,
            withdrawn(old(world).record(building), item),
        ),
        !done ==> final(world).records() == old(world).records(),
        final(world).same_tasks(*old(world)),
        final(world).count() == old(world).count(),
        final(world).wf(),
{
    if let Some(record) = world.get(building) {
        if let Some(storage) = record.storage_space {
            let mut storage = storage;
            if storage.withdraw(item.resource, item.amount) {
                let mut record = record;
                record.storage_space = Some(storage);
                world.set(building, record);
                return true;
            }
        }
    }
    false
}

/// Puts `item` into the storage of a building. It is rejected, and nothing
/// changes, where the building has no storage, and where the new quantity
/// cannot be written down.
pub fn add_to_storage(world: &mut Colony, building: Entity, item: GameItem) -> (done: bool)
    requires
        old(world).wf(),
    ensures
        done == (old(world).has(building) && old(world).record(building).storage_space is Some
            && old(world).record(building).storage_space.unwrap().can_deposit(
            item.resource,
            item.amount as int,
        )),
        done ==> final(world).records() == old(world).records().insert(
            building.bits,
            deposited(old(world).record(building), item),
        ),
        !done ==> final(world).records() == old(world).records(),
        final(world).same_tasks(*old(world)),
        final(world).count() == old(world).count(),
        final(world).wf(),
{
    if let Some(record) = world.get(building) {
        if let Some(storage) = record.storage_space {
            let mut storage = storage;
            if storage.deposit(item.resource, item.amount) {
                let mut record = record;
                record.storage_space = Some(storage);
                world.set(building, record);
                return true;
            }
        }
    }
    false
}

/// Takes `item` off what a site still needs. Nothing changes where the
/// building is no site.
pub fn place_construction_resource(world: &mut Colony, building: Entity, item: GameItem)
    requires
        old(world).wf(),
    ensures
        old(world).has(building) ==> final(world).records() == old(world).records().insert(
            building.bits,
            supplied(old(world).record(building), item),
        ),
        !old(world).has(building) ==> final(world).records() == old(world).records(),
        final(world).same_tasks(*old(world)),
        final(world).count() == old(world).count(),
        final(world).wf(),
{
    if let Some(record) = world.get(building) {
        if let Some(construction) = record.construction_storage {
            let mut construction = construction;
            construction.place(item.resource, item.amount);
            let mut record = record;
            record.construction_storage = Some(construction);
            world.set(building, record);
        } else {
            assert(world.records() =~= old(world).records().insert(building.bits, record));
        }
    }
}

/// Where a building stands. A building without a sprite stands nowhere.
pub open spec fn place_of(record: Components) -> Option<Position> {
    match record.sprite {
        Some(sprite) => Some(sprite.position),
        None => None,
    }
}

/// What a hauler moves in one trip.
pub open spec fn full_load(resource: GameResource) -> GameItem {
    GameItem { resource, amount: HAULER_CAPACITY }
}

/// The hauler stands at the origin of its task, ready to load, and the
/// building has a full load of the task's resource available. A building
/// that stands nowhere is the origin of no task.
pub open spec fn can_pick_up(building: Components, hauler: Components) -> bool {
    &&& hauler.loading_state is Some
    &&& hauler.backpack is Some
    &&& hauler.haul_task is Some
    &&& place_of(building) is Some
    &&& hauler.haul_task.unwrap().origin_position == place_of(building)
    &&& building.storage_space is Some
    &&& building.storage_space.unwrap().can_withdraw(
        hauler.haul_task.unwrap().resource,
        HAULER_CAPACITY as int,
    )
}

/// The hauler stands, loaded, at the destination of its task. A building
/// that stands nowhere is the destination of no task.
pub open spec fn can_drop_off(building: Components, hauler: Components) -> bool {
    &&& hauler.carrying_state is Some
    &&& hauler.backpack is Some
    &&& hauler.haul_task is Some
    &&& place_of(building) is Some
    &&& hauler.haul_task.unwrap().destination_position == place_of(building)
}

/// The records after a hauler in `state` met a storage building. A loading
/// hauler at its origin picks a full load up, which leaves the storage; a
/// carrying hauler at its destination hands its load over, which enters the
/// storage. Nothing happens else, nor where one of the two has no record, nor
/// between an entity and itself.
pub open spec fn storage_resolved(
    records: Map<u64, Components>,
    building: Entity,
    hauler: Entity,
    state: VillagerState,
) -> Map<u64, Components> {
    if !records.contains_key(building.bits) || !records.contains_key(hauler.bits) || building.bits
        == hauler.bits {
        records
    } else if state == VillagerState::Loading && can_pick_up(
        records[building.bits],
        records[hauler.bits],
    ) {
        records.insert(hauler.bits, received(records[hauler.bits])).insert(
            building.bits,
            withdrawn(
                records[building.bits],
                full_load(records[hauler.bits].haul_task.unwrap().resource),
            ),
        )
    } else if state == VillagerState::Carrying && can_drop_off(
        records[building.bits],
        records[hauler.bits],
    ) {
        records.insert(hauler.bits, delivered(records[hauler.bits])).insert(
            building.bits,
            deposited(
                records[building.bits],
                full_load(records[hauler.bits].haul_task.unwrap().resource),
            ),
        )
    } else {
        records
    }
}

/// A site that needs nothing any more.
pub open spec fn is_supplied_site(record: Components) -> bool {
    record.construction_storage is Some && record.construction_storage.unwrap().is_complete()
}

/// The record of a site that needs nothing any more: it stops being a site
/// and waits for work. Any other record stays as it is.
pub open spec fn finished(record: Components) -> Components {
    if is_supplied_site(record) {
        Components {
            construction_storage: None,
            ongoing_construction: Some(OngoingConstruction { work_required: CONSTRUCTION_WORK }),
            ..record
        }
    } else {
        record
    }
}

/// The records after a hauler in `state` met a construction site. A site
/// that needs nothing any more is finished. At any other building a carrying
/// hauler at its destination hands its load over, which is taken off what
/// the site needs.
pub open spec fn construction_resolved(
    records: Map<u64, Components>,
    building: Entity,
    hauler: Entity,
    state: VillagerState,
) -> Map<u64, Components> {
    if !records.contains_key(building.bits) {
        records
    } else if is_supplied_site(records[building.bits]) {
        records.insert(building.bits, finished(records[building.bits]))
    } else if !records.contains_key(hauler.bits) || building.bits == hauler.bits {
        records
    } else if state == VillagerState::Carrying && can_drop_off(
        records[building.bits],
        records[hauler.bits],
    ) {
        records.insert(hauler.bits, delivered(records[hauler.bits])).insert(
            building.bits,
            supplied(
                records[building.bits],
                full_load(records[hauler.bits].haul_task.unwrap().resource),
            ),
        )
    } else {
        records
    }
}

/// Whether the task of a hauler starts where the building stands.
fn starts_at(hauler: &Components, building: &Components) -> (starts: bool)
    ensures
        starts == (hauler.haul_task is Some && place_of(*building) is Some
            && hauler.haul_task.unwrap().origin_position == place_of(*building)),
{
    match hauler.haul_task {
        Some(task) => match task.origin_position {
            Some(origin) => match building.sprite {
                Some(sprite) => origin.x == sprite.position.x && origin.y == sprite.position.y,
                None => false,
            },
            None => false,
        },
        None => false,
    }
}

/// Whether the task of a hauler ends where the building stands.
fn ends_at(hauler: &Components, building: &Components) -> (ends: bool)
    ensures
        ends == (hauler.haul_task is Some && place_of(*building) is Some
            && hauler.haul_task.unwrap().destination_position == place_of(*building)),
{
    match hauler.haul_task {
        Some(task) => match task.destination_position {
            Some(destination) => match building.sprite {
                Some(sprite) => destination.x == sprite.position.x && destination.y
                    == sprite.position.y,
                None => false,
            },
            None => false,
        },
        None => false,
    }
}

/// Whether a full load of `resource` can leave the storage of a building.
fn has_full_load(record: &Components, resource: GameResource) -> (available: bool)
    ensures
        available == (record.storage_space is Some && record.storage_space.unwrap().can_withdraw(
            resource,
            HAULER_CAPACITY as int,
        )),
{
    match record.storage_space {
        Some(storage) => {
            let mut probe = storage;
            probe.withdraw(resource, HAULER_CAPACITY)
        },
        None => false,
    }
}

/// Lets a hauler in `state` and a storage building that it met trade: a
/// loading hauler at the origin of its task picks its load up, a carrying
/// hauler at the destination of its task hands it over.
pub fn storage_handle_hauler(
    world: &mut Colony,
    building: Entity,
    hauler: Entity,
    state: VillagerState,
)
    requires
        old(world).wf(),
    ensures
        final(world).records() == storage_resolved(old(world).records(), building, hauler, state),
        final(world).same_tasks(*old(world)),
        final(world).count() == old(world).count(),
        final(world).wf(),
{
    if building.bits == hauler.bits {
        return ;
    }
    let building_record = match world.get(building) {
        Some(record) => record,
        None => {
            return ;
        },
    };
    let hauler_record = match world.get(hauler) {
        Some(record) => record,
        None => {
            return ;
        },
    };
    let is_hauler_origin = starts_at(&hauler_record, &building_record);
    let is_hauler_destination = ends_at(&hauler_record, &building_record);
    match state {
        VillagerState::Loading => {
            if is_hauler_origin && hauler_record.loading_state.is_some()
                && hauler_record.backpack.is_some() && has_full_load(
                &building_record,
                hauler_record.haul_task.unwrap().resource,
            ) {
                let m_item = receive_resource(world, hauler);
                if let Some(item) = m_item {
                    remove_from_storage(world, building, item);
                }
            }
        },
        VillagerState::Carrying => {
            if is_hauler_destination && hauler_record.carrying_state.is_some()
                && hauler_record.backpack.is_some() {
                let m_item = deliver_resource(world, hauler);
                if let Some(item) = m_item {
                    let done = add_to_storage(world, building, item);
                    if !done {
                        assert(deposited(building_record, item) == building_record);
                        assert(world.records() =~= world.records().insert(
                            building.bits,
                            building_record,
                        ));
                    }
                }
            }
        },
        _ => {},
    }
}

/// Lets a hauler in `state` and a construction site that it met trade. A
/// site that needs nothing any more is finished instead; else a carrying
/// hauler at the destination of its task hands its load over.
pub fn construction_handle_hauler(
    world: &mut Colony,
    building: Entity,
    hauler: Entity,
    state: VillagerState,
)
    requires
        old(world).wf(),
    ensures
        final(world).records() == construction_resolved(
            old(world).records(),
            building,
            hauler,
            state,
        ),
        final(world).same_tasks(*old(world)),
        final(world).count() == old(world).count(),
        final(world).wf(),
{
    let building_record = match world.get(building) {
        Some(record) => record,
        None => {
            return ;
        },
    };
    if let Some(construction) = building_record.construction_storage {
        if is_storage_empty(&construction.required_item_list) {
            let mut record = building_record;
            record.construction_storage = None;
            record.ongoing_construction = Some(
                OngoingConstruction { work_required: CONSTRUCTION_WORK },
            );
            world.set(building, record);
            return ;
        }
    }
    if building.bits == hauler.bits {
        return ;
    }
    let hauler_record = match world.get(hauler) {
        Some(record) => record,
        None => {
            return ;
        },
    };
    let is_hauler_destination = ends_at(&hauler_record, &building_record);
    match state {
        VillagerState::Carrying => {
            if is_hauler_destination && hauler_record.carrying_state.is_some()
                && hauler_record.backpack.is_some() {
                let m_item = deliver_resource(world, hauler);
                if let Some(item) = m_item {
                    place_construction_resource(world, building, item);
                }
            }
        },
        _ => {},
    }
}

/// The entity that an entity's sensor reports, if it reports one.
pub open spec fn visitor(record: Components) -> Option<Entity> {
    match record.trigger_collision {
        Some(trigger) => if trigger.colliding {
            trigger.other_trigger
        } else {
            None
        },
        None => None,
    }
}

/// The records after the storage building `building` dealt with the villager
/// at its door. Nothing changes where `building` is no building or a
/// construction site, where nobody is at its door, and where the visitor has
/// no state.
pub open spec fn storage_door(records: Map<u64, Components>, building: Entity) -> Map<
    u64,
    Components,
> {
    if records.contains_key(building.bits) && records[building.bits].building is Some
        && records[building.bits].construction_storage is None && visitor(records[building.bits])
        is Some && records.contains_key(visitor(records[building.bits]).unwrap().bits)
        && records[visitor(records[building.bits]).unwrap().bits].state() is Some {
        storage_resolved(
            records,
            building,
            visitor(records[building.bits]).unwrap(),
            records[visitor(records[building.bits]).unwrap().bits].state().unwrap(),
        )
    } else {
        records
    }
}

/// The records after the construction site `building` dealt with the
/// villager at its door. Nothing changes where `building` is no site, where
/// nobody is at its door, and where the visitor has no state.
pub open spec fn construction_door(records: Map<u64, Components>, building: Entity) -> Map<
    u64,
    Components,
> {
    if records.contains_key(building.bits) && records[building.bits].building is Some
        && records[building.bits].construction_storage is Some && visitor(records[building.bits])
        is Some && records.contains_key(visitor(records[building.bits]).unwrap().bits)
        && records[visitor(records[building.bits]).unwrap().bits].state() is Some {
        construction_resolved(
            records,
            building,
            visitor(records[building.bits]).unwrap(),
            records[visitor(records[building.bits]).unwrap().bits].state().unwrap(),
        )
    } else {
        records
    }
}

/// The records after the storage buildings of `order` dealt, one after the
/// other, with the villagers at their doors.
pub open spec fn storage_doors_along(records: Map<u64, Components>, order: Seq<Entity>) -> Map<
    u64,
    Components,
>
    decreases order.len(),
{
    if order.len() == 0 {
        records
    } else {
        storage_door(storage_doors_along(records, order.drop_last()), order.last())
    }
}

/// The records after the construction sites of `order` dealt, one after the
/// other, with the villagers at their doors.
pub open spec fn construction_doors_along(
    records: Map<u64, Components>,
    order: Seq<Entity>,
) -> Map<u64, Components>
    decreases order.len(),
{
    if order.len() == 0 {
        records
    } else {
        construction_door(construction_doors_along(records, order.drop_last()), order.last())
    }
}

/// Lets one storage building deal with the villager at its door.
pub fn storage_door_step(world: &mut Colony, building: Entity)
    requires
        old(world).wf(),
    ensures
        final(world).records() == storage_door(old(world).records(), building),
        final(world).same_tasks(*old(world)),
        final(world).count() == old(world).count(),
        final(world).wf(),
{
    if let Some(record) = world.get(building) {
        if record.building.is_some() && record.construction_storage.is_none() {
            if let Some(trigger) = record.trigger_collision {
                if trigger.colliding {
                    if let Some(villager) = trigger.other_trigger {
                        if let Some(villager_record) = world.get(villager) {
                            if let Some(state) = villager_record.villager_state() {
                                storage_handle_hauler(world, building, villager, state);
                            }
                        }
                    }
                }
            }
        }
    }
}

/// Lets one construction site deal with the villager at its door.
pub fn construction_door_step(world: &mut Colony, building: Entity)
    requires
        old(world).wf(),
    ensures
        final(world).records() == construction_door(old(world).records(), building),
        final(world).same_tasks(*old(world)),
        final(world).count() == old(world).count(),
        final(world).wf(),
{
    if let Some(record) = world.get(building) {
        if record.building.is_some() && record.construction_storage.is_some() {
            if let Some(trigger) = record.trigger_collision {
                if trigger.colliding {
                    if let Some(villager) = trigger.other_trigger {
                        if let Some(villager_record) = world.get(villager) {
                            if let Some(state) = villager_record.villager_state() {
                                construction_handle_hauler(world, building, villager, state);
                            }
                        }
                    }
                }
            }
        }
    }
}

/// Lets every storage building deal with the villager at its door, one
/// building after the other, in an order that the world chooses.
pub fn check_storage_collided_with_entity(world: &mut Colony)
    requires
        old(world).wf(),
    ensures
        storage_pass(*old(world), *final(world)),
        final(world).wf(),
{
    let entities = world.entities();
    let mut i: usize = 0;
    while i < entities.len()
        invariant
            i <= entities.len(),
            world.wf(),
            world.records() == storage_doors_along(old(world).records(), entities@.take(i as int)),
            world.same_tasks(*old(world)),
            world.count() == old(world).count(),
        decreases entities.len() - i,
    {
        storage_door_step(world, entities[i]);
        proof {
            assert(entities@.take(i + 1).drop_last() =~= entities@.take(i as int));
        }
        i = i + 1;
    }
    assert(entities@.take(entities.len() as int) =~= entities@);
}

/// Lets every construction site deal with the villager at its door, one site
/// after the other, in an order that the world chooses.
pub fn check_construction_collided_with_entity(world: &mut Colony)
    requires
        old(world).wf(),
    ensures
        construction_pass(*old(world), *final(world)),
        final(world).wf(),
{
    let entities = world.entities();
    let mut i: usize = 0;
    while i < entities.len()
        invariant
            i <= entities.len(),
            world.wf(),
            world.records() == construction_doors_along(
                old(world).records(),
                entities@.take(i as int),
            ),
            world.same_tasks(*old(world)),
            world.count() == old(world).count(),
        decreases entities.len() - i,
    {
        construction_door_step(world, entities[i]);
        proof {
            assert(entities@.take(i + 1).drop_last() =~= entities@.take(i as int));
        }
        i = i + 1;
    }
    assert(entities@.take(entities.len() as int) =~= entities@);
}

/// Finishes every site that needs nothing any more: it stops being a site
/// and waits for work.
pub fn check_construction_resources(world: &mut Colony) -> (result: Result<(), String>)
    requires
        old(world).wf(),
    ensures
        result is Ok,
        finishing_step(*old(world), *final(world)),
        final(world).wf(),
{
    let entities = world.entities();
    let mut i: usize = 0;
    while i < entities.len()
        invariant
            i <= entities.len(),
            lists_records(entities@, old(world).records()),
            world.wf(),
            world.records().dom() =~= old(world).records().dom(),
            forall|j: int|
                0 <= j < i ==> world.records()[#[trigger] entities@[j].bits] == finished(
                    old(world).records()[entities@[j].bits],
                ),
            forall|j: int|
                i <= j < entities.len() ==> world.records()[#[trigger] entities@[j].bits] == old(
                    world,
                ).records()[entities@[j].bits],
            world.same_tasks(*old(world)),
            world.count() == old(world).count(),
        decreases entities.len() - i,
    {
        let entity = entities[i];
        let mut record = world.get(entity).unwrap();
        if let Some(construction) = record.construction_storage {
            if is_storage_empty(&construction.required_item_list) {
                record.construction_storage = None;
                record.ongoing_construction = Some(
                    OngoingConstruction { work_required: CONSTRUCTION_WORK },
                );
                world.set(entity, record);
            }
        }
        i = i + 1;
    }
    proof {
        lemma_listed_records_changed(
            entities@,
            old(world).records(),
            world.records(),
            |record: Components| finished(record),
        );
    }
    Ok(())
}

/// The number of trips that bring `amount` to a site: one for each full
/// load; what is left over gets none.
pub open spec fn task_count(amount: int) -> int {
    if amount <= 0 {
        0
    } else {
        amount / (HAULER_CAPACITY as int)
    }
}

/// The identifier that is handed out `count` identifiers after `id`.
pub open spec fn id_after(id: usize, count: nat) -> usize
    decreases count,
{
    if count == 0 {
        id
    } else {
        following_id(id_after(id, (count - 1) as nat))
    }
}

/// The trips that bring `amount` of `resource` to `position`: for each, its
/// destination and its resource.
pub open spec fn planned(position: Position, resource: GameResource, amount: int) -> Seq<
    (Position, GameResource),
> {
    Seq::new(task_count(amount) as nat, |i: int| (position, resource))
}

/// A site whose tasks are still to be generated: it has a place, is not
/// being placed any more, and has not been seen before.
pub open spec fn is_pending_site(record: Components) -> bool {
    &&& record.construction_storage is Some
    &&& record.sprite is Some
    &&& record.construction_placement is None
    &&& !record.construction_storage.unwrap().tasks_generated
}

/// What a list asks of a resource; nothing where it has no entry.
pub open spec fn quantity(list: ItemList, resource: GameResource) -> int {
    match list.entry(resource) {
        Some(amount) => amount as int,
        None => 0,
    }
}

/// The trips that a pending site asks for: those for wood, then those for
/// stone.
pub open spec fn site_plan(record: Components) -> Seq<(Position, GameResource)> {
    planned(
        record.sprite.unwrap().position,
        GameResource::Wood,
        quantity(record.construction_storage.unwrap().required_item_list, GameResource::Wood),
    ) + planned(
        record.sprite.unwrap().position,
        GameResource::Stone,
        quantity(record.construction_storage.unwrap().required_item_list, GameResource::Stone),
    )
}

/// The trips that the pending sites among `order` ask for, site after site.
pub open spec fn plan_along(records: Map<u64, Components>, order: Seq<Entity>) -> Seq<
    (Position, GameResource),
>
    decreases order.len(),
{
    if order.len() == 0 {
        Seq::empty()
    } else if records.contains_key(order.last().bits) && is_pending_site(
        records[order.last().bits],
    ) {
        plan_along(records, order.drop_last()) + site_plan(records[order.last().bits])
    } else {
        plan_along(records, order.drop_last())
    }
}

/// The record of a pending site after its tasks were generated: it is marked
/// as seen. Any other record stays as it is.
pub open spec fn announced(record: Components) -> Components {
    if is_pending_site(record) {
        Components {
            construction_storage: Some(
                ConstructionStorage {
                    tasks_generated: true,
                    ..record.construction_storage.unwrap()
                },
            ),
            ..record
        }
    } else {
        record
    }
}

/// `task` is the task for the trip `trip`: to its destination, for its
/// resource, from a source of a full load among `records` if there is one.
pub open spec fn is_task_for(
    records: Map<u64, Components>,
    task: HaulTask,
    trip: (Position, GameResource),
) -> bool {
    &&& task.destination_position == Some(trip.0)
    &&& task.resource == trip.1
    &&& is_origin_in(records, task.origin_position, trip.1, HAULER_CAPACITY as int)
}

/// `after` is `before` with one new task for each trip of `plan`, in that
/// order, with the identifiers from `first_id` on.
pub open spec fn follows_plan(
    records: Map<u64, Components>,
    before: Seq<HaulTask>,
    after: Seq<HaulTask>,
    plan: Seq<(Position, GameResource)>,
    first_id: usize,
) -> bool {
    &&& after.len() == before.len() + plan.len()
    &&& forall|i: int| 0 <= i < before.len() ==> #[trigger] after[i] == before[i]
    &&& forall|i: int|
        before.len() <= i < after.len() ==> (#[trigger] after[i]).id == id_after(
            first_id,
            (i - before.len()) as nat,
        ) && is_task_for(records, after[i], plan[i - before.len()])
}

/// Counting identifiers on in two steps is counting on in one.
pub proof fn lemma_id_after_adds(id: usize, first: nat, second: nat)
    ensures
        id_after(id_after(id, first), second) == id_after(id, first + second),
    decreases second,
{
    if second > 0 {
        lemma_id_after_adds(id, first, (second - 1) as nat);
    }
}

/// Tasks that follow one plan, and then a second one, follow the two plans
/// put together.
pub proof fn lemma_follows_plan_joins(
    records: Map<u64, Components>,
    before: Seq<HaulTask>,
    between: Seq<HaulTask>,
    after: Seq<HaulTask>,
    first: Seq<(Position, GameResource)>,
    second: Seq<(Position, GameResource)>,
    first_id: usize,
)
    requires
        follows_plan(records, before, between, first, first_id),
        follows_plan(records, between, after, second, id_after(first_id, first.len())),
    ensures
        follows_plan(records, before, after, first + second, first_id),
{
    let plan = first + second;
    assert forall|i: int| 0 <= i < before.len() implies #[trigger] after[i] == before[i] by {
        assert(after[i] == between[i]);
    }
    assert forall|i: int| before.len() <= i < after.len() implies (#[trigger] after[i]).id
        == id_after(first_id, (i - before.len()) as nat) && is_task_for(
        records,
        after[i],
        plan[i - before.len()],
    ) by {
        if i < between.len() {
            assert(after[i] == between[i]);
        } else {
            lemma_id_after_adds(first_id, first.len(), (i - between.len()) as nat);
        }
    }
}

/// Marking sites as seen changes nothing about where a resource can be
/// fetched from.
pub proof fn lemma_sources_stay(
    before: Map<u64, Components>,
    after: Map<u64, Components>,
    origin: Option<Position>,
    resource: GameResource,
    amount: int,
)
    requires
        after.dom() == before.dom(),
        forall|bits: u64| #[trigger]
            before.contains_key(bits) ==> after[bits] == before[bits] || after[bits] == announced(
                before[bits],
            ),
    ensures
        is_origin_in(after, origin, resource, amount) == is_origin_in(
            before,
            origin,
            resource,
            amount,
        ),
{
    assert forall|bits: u64| #[trigger] before.contains_key(bits) implies (is_source(
        after[bits],
        resource,
        amount,
    ) == is_source(before[bits], resource, amount) && (is_source(before[bits], resource, amount)
        ==> after[bits].sprite == before[bits].sprite)) by {}
    if is_origin_in(before, origin, resource, amount) {
        if origin is Some {
            let bits = choose|bits: u64|
                before.contains_key(bits) && is_source(#[trigger] before[bits], resource, amount)
                    && before[bits].sprite.unwrap().position == origin.unwrap();
            assert(after.contains_key(bits) && is_source(after[bits], resource, amount));
        } else {
            if has_source(after, resource, amount) {
                let bits = choose|bits: u64|
                    after.contains_key(bits) && is_source(#[trigger] after[bits], resource, amount);
                assert(before.contains_key(bits) && is_source(before[bits], resource, amount));
            }
        }
    }
    if is_origin_in(after, origin, resource, amount) {
        if origin is Some {
            let bits = choose|bits: u64|
                after.contains_key(bits) && is_source(#[trigger] after[bits], resource, amount)
                    && after[bits].sprite.unwrap().position == origin.unwrap();
            assert(before.contains_key(bits) && is_source(before[bits], resource, amount));
        } else {
            if has_source(before, resource, amount) {
                let bits = choose|bits: u64|
                    before.contains_key(bits) && is_source(
                        #[trigger] before[bits],
                        resource,
                        amount,
                    );
                assert(after.contains_key(bits) && is_source(after[bits], resource, amount));
            }
        }
    }
}

/// Enqueues the tasks that bring `amount` of `resource` to `destination`:
/// one for each full load.
pub fn generate_resource_haul_tasks(
    world: &mut Colony,
    destination: Position,
    resource: GameResource,
    amount: i32,
)
    ensures
        follows_plan(
            old(world).records(),
            old(world).open_tasks(),
            final(world).open_tasks(),
            planned(destination, resource, amount as int),
            old(world).next_id(),
        ),
        final(world).next_id() == id_after(old(world).next_id(), task_count(amount as int) as nat),
        final(world).records() == old(world).records(),
        final(world).count() == old(world).count(),
        old(world).wf() ==> final(world).wf(),
{
    let count: i32 = if amount <= 0 {
        0
    } else {
        amount / HAULER_CAPACITY
    };
    let mut k: i32 = 0;
    while k < count
        invariant
            0 <= k <= count,
            count == task_count(amount as int),
            world.records() == old(world).records(),
            world.count() == old(world).count(),
            old(world).wf() ==> world.wf(),
            world.next_id() == id_after(old(world).next_id(), k as nat),
            world.open_tasks().len() == old(world).open_tasks().len() + k,
            forall|i: int|
                0 <= i < old(world).open_tasks().len() ==> #[trigger] world.open_tasks()[i] == old(
                    world,
                ).open_tasks()[i],
            forall|i: int|
                old(world).open_tasks().len() <= i < world.open_tasks().len() ==> (
                #[trigger] world.open_tasks()[i]).id == id_after(
                    old(world).next_id(),
                    (i - old(world).open_tasks().len()) as nat,
                ) && is_task_for(old(world).records(), world.open_tasks()[i], (destination, resource)),
        decreases count - k,
    {
        let origin = find_storage_with(world, resource, HAULER_CAPACITY);
        generate_haul_task(world, origin, destination, resource);
        k = k + 1;
    }
}

/// `after` is `before` with some of its pending sites marked as seen.
pub open spec fn partly_announced(
    before: Map<u64, Components>,
    after: Map<u64, Components>,
) -> bool {
    &&& after.dom() == before.dom()
    &&& forall|bits: u64| #[trigger]
        before.contains_key(bits) ==> after[bits] == before[bits] || after[bits] == announced(
            before[bits],
        )
}

/// Tasks that follow a plan among records follow it among the same records
/// with some sites marked as seen.
pub proof fn lemma_follows_plan_after_marking(
    marked: Map<u64, Components>,
    records: Map<u64, Components>,
    before: Seq<HaulTask>,
    after: Seq<HaulTask>,
    plan: Seq<(Position, GameResource)>,
    first_id: usize,
)
    requires
        partly_announced(records, marked),
        follows_plan(marked, before, after, plan, first_id),
    ensures
        follows_plan(records, before, after, plan, first_id),
{
    assert forall|i: int| before.len() <= i < after.len() implies (#[trigger] after[i]).id
        == id_after(first_id, (i - before.len()) as nat) && is_task_for(
        records,
        after[i],
        plan[i - before.len()],
    ) by {
        lemma_sources_stay(
            records,
            marked,
            after[i].origin_position,
            plan[i - before.len()].1,
            HAULER_CAPACITY as int,
        );
    }
}

/// Enqueues the tasks that bring what `required` lists to `destination`:
/// those for wood, then those for stone.
pub fn generate_site_haul_tasks(world: &mut Colony, destination: Position, required: &ItemList)
    ensures
        follows_plan(
            old(world).records(),
            old(world).open_tasks(),
            final(world).open_tasks(),
            planned(destination, GameResource::Wood, quantity(*required, GameResource::Wood))
                + planned(destination, GameResource::Stone, quantity(*required, GameResource::Stone)),
            old(world).next_id(),
        ),
        final(world).next_id() == id_after(
            old(world).next_id(),
            (task_count(quantity(*required, GameResource::Wood)) + task_count(
                quantity(*required, GameResource::Stone),
            )) as nat,
        ),
        final(world).records() == old(world).records(),
        final(world).count() == old(world).count(),
        old(world).wf() ==> final(world).wf(),
{
    let wood: i32 = match required.get(GameResource::Wood) {
        Some(amount) => amount,
        None => 0,
    };
    let stone: i32 = match required.get(GameResource::Stone) {
        Some(amount) => amount,
        None => 0,
    };
    generate_resource_haul_tasks(world, destination, GameResource::Wood, wood);
    let ghost between = world.open_tasks();
    generate_resource_haul_tasks(world, destination, GameResource::Stone, stone);
    proof {
        lemma_follows_plan_joins(
            old(world).records(),
            old(world).open_tasks(),
            between,
            world.open_tasks(),
            planned(destination, GameResource::Wood, wood as int),
            planned(destination, GameResource::Stone, stone as int),
            old(world).next_id(),
        );
        lemma_id_after_adds(
            old(world).next_id(),
            task_count(wood as int) as nat,
            task_count(stone as int) as nat,
        );
    }
}

/// Generates the tasks of every pending construction site, once: the site
/// is marked as seen, and for each full load that it needs of a resource a
/// task is enqueued, from a storage that has a full load available if there
/// is one.
pub fn generate_construction_haul_tasks(world: &mut Colony)
    requires
        old(world).wf(),
    ensures
        final(world).wf(),
        generation_step(*old(world), *final(world)),
{
    let entities = world.entities();
    let mut i: usize = 0;
    while i < entities.len()
        invariant
            i <= entities.len(),
            lists_records(entities@, old(world).records()),
            world.wf(),
            world.count() == old(world).count(),
            world.records().dom() =~= old(world).records().dom(),
            forall|j: int|
                0 <= j < i ==> world.records()[#[trigger] entities@[j].bits] == announced(
                    old(world).records()[entities@[j].bits],
                ),
            forall|j: int|
                i <= j < entities.len() ==> world.records()[#[trigger] entities@[j].bits] == old(
                    world,
                ).records()[entities@[j].bits],
            follows_plan(
                old(world).records(),
                old(world).open_tasks(),
                world.open_tasks(),
                plan_along(old(world).records(), entities@.take(i as int)),
                old(world).next_id(),
            ),
            world.next_id() == id_after(
                old(world).next_id(),
                plan_along(old(world).records(), entities@.take(i as int)).len(),
            ),
        decreases entities.len() - i,
    {
        let entity = entities[i];
        let record = world.get(entity).unwrap();
        proof {
            assert(entities@.take(i + 1).drop_last() =~= entities@.take(i as int));
            assert(entities@.take(i + 1).last() == entity);
        }
        if record.construction_placement.is_none() {
            if let Some(construction) = record.construction_storage {
                if let Some(sprite) = record.sprite {
                    if !construction.tasks_generated {
                        let mut marked = record;
                        marked.construction_storage = Some(
                            ConstructionStorage {
                                tasks_generated: true,
                                required_item_list: construction.required_item_list,
                            },
                        );
                        world.set(entity, marked);
                        let ghost between = world.open_tasks();
                        let ghost between_id = world.next_id();
                        let ghost marked_records = world.records();
                        generate_site_haul_tasks(
                            world,
                            sprite.position,
                            &construction.required_item_list,
                        );
                        proof {
                            assert(partly_announced(old(world).records(), marked_records)) by {
                                assert forall|bits: u64| #[trigger]
                                    old(world).records().contains_key(bits) implies marked_records[bits]
                                    == old(world).records()[bits] || marked_records[bits]
                                    == announced(old(world).records()[bits]) by {
                                    let j = choose|j: int|
                                        0 <= j < entities@.len() && entities@[j].bits == bits;
                                    if j == i {
                                        assert(marked_records[bits] == marked);
                                        assert(marked == announced(record));
                                    } else {
                                        assert(entities@[j].bits != entities@[i as int].bits);
                                    }
                                }
                                assert(marked_records.dom() =~= old(world).records().dom());
                            }
                            lemma_follows_plan_after_marking(
                                marked_records,
                                old(world).records(),
                                between,
                                world.open_tasks(),
                                site_plan(record),
                                between_id,
                            );
                            lemma_follows_plan_joins(
                                old(world).records(),
                                old(world).open_tasks(),
                                between,
                                world.open_tasks(),
                                plan_along(old(world).records(), entities@.take(i as int)),
                                site_plan(record),
                                old(world).next_id(),
                            );
                            lemma_id_after_adds(
                                old(world).next_id(),
                                plan_along(old(world).records(), entities@.take(i as int)).len(),
                                site_plan(record).len(),
                            );
                        }
                    }
                }
            }
        }
        i = i + 1;
    }
    proof {
        assert(entities@.take(entities.len() as int) =~= entities@);
        lemma_listed_records_changed(
            entities@,
            old(world).records(),
            world.records(),
            |record: Components| announced(record),
        );
    }
}

/// What generating tasks does: every pending site is marked as seen, and
/// the tasks that the pending sites ask for are enqueued, site after site in
/// an order that the world chooses.
pub open spec fn generation_step(before: Colony, after: Colony) -> bool {
    &&& after.count() == before.count()
    &&& each_record_changed(
        before.records(),
        after.records(),
        |record: Components| announced(record),
    )
    &&& exists|order: Seq<Entity>|
        {
            &&& lists_records(order, before.records())
            &&& #[trigger] follows_plan(
                before.records(),
                before.open_tasks(),
                after.open_tasks(),
                plan_along(before.records(), order),
                before.next_id(),
            )
            &&& after.next_id() == id_after(
                before.next_id(),
                plan_along(before.records(), order).len(),
            )
        }
}

/// What the pass over the storage buildings does: each deals with the
/// villager at its door, one building after the other in an order that the
/// world chooses.
pub open spec fn storage_pass(before: Colony, after: Colony) -> bool {
    &&& after.same_tasks(before)
    &&& after.count() == before.count()
    &&& exists|order: Seq<Entity>|
        lists_records(order, before.records()) && after.records()
            == #[trigger] storage_doors_along(before.records(), order)
}

/// What the pass over the construction sites does: each deals with the
/// villager at its door, one site after the other in an order that the
/// world chooses.
pub open spec fn construction_pass(before: Colony, after: Colony) -> bool {
    &&& after.same_tasks(before)
    &&& after.count() == before.count()
    &&& exists|order: Seq<Entity>|
        lists_records(order, before.records()) && after.records()
            == #[trigger] construction_doors_along(before.records(), order)
}

/// What finishing does: every site that needs nothing any more stops being
/// a site and waits for work.
pub open spec fn finishing_step(before: Colony, after: Colony) -> bool {
    &&& after.same_tasks(before)
    &&& after.count() == before.count()
    &&& each_record_changed(before.records(), after.records(), |record: Components| finished(record))
}

/// What one tick does to the buildings, step by step: pending sites get
/// their tasks, storage buildings and then construction sites deal with the
/// villagers at their doors, and sites that need nothing any more are
/// finished.
pub open spec fn buildings_step(before: Colony, after: Colony) -> bool {
    exists|announced: Colony, stored: Colony, supplied: Colony|
        #![trigger storage_pass(announced, stored), construction_pass(stored, supplied)]
        {
            &&& generation_step(before, announced)
            &&& storage_pass(announced, stored)
            &&& construction_pass(stored, supplied)
            &&& finishing_step(supplied, after)
        }
}

/// Advances the buildings by one tick.
pub fn update_buildings(world: &mut Colony) -> (result: Result<(), String>)
    requires
        old(world).wf(),
    ensures
        result is Ok,
        final(world).wf(),
        buildings_step(*old(world), *final(world)),
{
    generate_construction_haul_tasks(world);
    let ghost announced = *world;
    check_storage_collided_with_entity(world);
    let ghost stored = *world;
    check_construction_collided_with_entity(world);
    let ghost supplied = *world;
    let result = check_construction_resources(world);
    assert(generation_step(*old(world), announced));
    assert(storage_pass(announced, stored));
    assert(construction_pass(stored, supplied));
    assert(finishing_step(supplied, *world));
    result
}

} // verus!
