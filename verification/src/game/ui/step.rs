use vstd::prelude::*;
use crate::engine::enums::GameResource;
use crate::engine::world::{lists_records, Colony, Components, Entity};
use crate::game::buildings::datatypes::ItemList;
use crate::game::invariants::active_tasks;
use crate::game::ui::datatypes::GlobalStorage;

verus! {

/// What a record has on hand of a resource; nothing where it has no storage.
pub open spec fn stock_of(record: Components, resource: GameResource) -> int {
    match record.storage_space {
        Some(storage) => storage.on_hand(resource),
        None => 0,
    }
}

/// Whether the storage of a record lists a resource.
pub open spec fn lists_stock(record: Components, resource: GameResource) -> bool {
    record.storage_space is Some && record.storage_space.unwrap().item_list@.contains_key(resource)
}

/// What the storages of `order` have on hand of a resource, together.
pub open spec fn stock_along(
    records: Map<u64, Components>,
    order: Seq<Entity>,
    resource: GameResource,
) -> int
    decreases order.len(),
{
    if order.len() == 0 {
        0
    } else {
        stock_along(records, order.drop_last(), resource) + stock_of(
            records[order.last().bits],
            resource,
        )
    }
}

/// Whether a storage among `order` lists a resource.
pub open spec fn stock_listed_along(
    records: Map<u64, Components>,
    order: Seq<Entity>,
    resource: GameResource,
) -> bool
    decreases order.len(),
{
    if order.len() == 0 {
        false
    } else {
        stock_listed_along(records, order.drop_last(), resource) || lists_stock(
            records[order.last().bits],
            resource,
        )
    }
}

/// A sum as it is shown: brought into the range that can be written down.
pub open spec fn shown(sum: int) -> int {
    if sum < i32::MIN {
        i32::MIN as int
    } else if sum > i32::MAX {
        i32::MAX as int
    } else {
        sum
    }
}

/// The entry of a resource in the sum over `order`: the sum of what the
/// storages have on hand, where one of them lists the resource.
pub open spec fn summed_entry(
    records: Map<u64, Components>,
    order: Seq<Entity>,
    resource: GameResource,
) -> Option<i32> {
    if stock_listed_along(records, order, resource) {
        Some(shown(stock_along(records, order, resource)) as i32)
    } else {
        None
    }
}

/// The number of entities among `order` that work on a task.
pub open spec fn busy_along(records: Map<u64, Components>, order: Seq<Entity>) -> nat
    decreases order.len(),
{
    if order.len() == 0 {
        0
    } else {
        busy_along(records, order.drop_last()) + if records[order.last().bits].haul_task is Some {
            1nat
        } else {
            0nat
        }
    }
}

/// The entities among `order` that work on a task.
pub open spec fn busy_among(records: Map<u64, Components>, order: Seq<Entity>) -> Set<u64> {
    Set::new(
        |bits: u64|
            exists|i: int|
                0 <= i < order.len() && #[trigger] order[i].bits == bits
                    && records[bits].haul_task is Some,
    )
}

/// Counting along a list without repetition counts the entities that work
/// on a task.
pub proof fn lemma_busy_along_counts(records: Map<u64, Components>, order: Seq<Entity>)
    requires
        forall|i: int, j: int| 0 <= i < j < order.len() ==> order[i].bits != order[j].bits,
    ensures
        busy_among(records, order).finite(),
        busy_along(records, order) == busy_among(records, order).len(),
    decreases order.len(),
{
    if order.len() == 0 {
        assert(busy_among(records, order) =~= Set::<u64>::empty());
    } else {
        let earlier = order.drop_last();
        lemma_busy_along_counts(records, earlier);
        let last = order.last().bits;
        if records[last].haul_task is Some {
            assert(busy_among(records, order) =~= busy_among(records, earlier).insert(last)) by {
                assert forall|bits: u64|
                    busy_among(records, order).contains(bits) implies busy_among(
                    records,
                    earlier,
                ).insert(last).contains(bits) by {
                    let i = choose|i: int|
                        0 <= i < order.len() && #[trigger] order[i].bits == bits
                            && records[bits].haul_task is Some;
                    if i < order.len() - 1 {
                        assert(earlier[i].bits == bits);
                    }
                }
                assert forall|bits: u64|
                    busy_among(records, earlier).insert(last).contains(
                        bits,
                    ) implies busy_among(records, order).contains(bits) by {
                    if bits == last {
                        assert(order[order.len() - 1].bits == bits);
                    } else {
                        let i = choose|i: int|
                            0 <= i < earlier.len() && #[trigger] earlier[i].bits == bits
                                && records[bits].haul_task is Some;
                        assert(order[i].bits == bits);
                    }
                }
            }
            assert(!busy_among(records, earlier).contains(last)) by {
                if busy_among(records, earlier).contains(last) {
                    let i = choose|i: int|
                        0 <= i < earlier.len() && #[trigger] earlier[i].bits == last
                            && records[last].haul_task is Some;
                    assert(order[i].bits != order[order.len() - 1].bits);
                }
            }
        } else {
            assert(busy_among(records, order) =~= busy_among(records, earlier)) by {
                assert forall|bits: u64|
                    busy_among(records, order).contains(bits) implies busy_among(
                    records,
                    earlier,
                ).contains(bits) by {
                    let i = choose|i: int|
                        0 <= i < order.len() && #[trigger] order[i].bits == bits
                            && records[bits].haul_task is Some;
                    assert(earlier[i].bits == bits);
                }
                assert forall|bits: u64|
                    busy_among(records, earlier).contains(bits) implies busy_among(
                    records,
                    order,
                ).contains(bits) by {
                    let i = choose|i: int|
                        0 <= i < earlier.len() && #[trigger] earlier[i].bits == bits
                            && records[bits].haul_task is Some;
                    assert(order[i].bits == bits);
                }
            }
        }
    }
}

/// The tasks that wait for a hauler, counted.
pub fn update_idle_haul_task_count(world: &Colony) -> (count: usize)
    ensures
        count == world.open_tasks().len(),
{
    world.open_task_count()
}

/// The tasks that haulers work on, counted.
pub fn update_active_haul_task_count(world: &Colony) -> (count: usize)
    ensures
        count == active_tasks(world.records()).len(),
{
    let entities = world.entities();
    let mut count: usize = 0;
    let mut i: usize = 0;
    while i < entities.len()
        invariant
            i <= entities.len(),
            lists_records(entities@, world.records()),
            count == busy_along(world.records(), entities@.take(i as int)),
            count <= i,
        decreases entities.len() - i,
    {
        let record = world.get(entities[i]).unwrap();
        proof {
            assert(entities@.take(i + 1).drop_last() =~= entities@.take(i as int));
        }
        if record.haul_task.is_some() {
            count = count + 1;
        }
        i = i + 1;
    }
    proof {
        assert(entities@.take(entities.len() as int) =~= entities@);
        lemma_busy_along_counts(world.records(), entities@);
        assert(busy_among(world.records(), entities@) =~= active_tasks(world.records())) by {
            assert forall|bits: u64|
                active_tasks(world.records()).contains(bits) implies busy_among(
                world.records(),
                entities@,
            ).contains(bits) by {
                assert(world.records().contains_key(bits));
                let i = choose|i: int| 0 <= i < entities@.len() && entities@[i].bits == bits;
                assert(entities@[i].bits == bits);
            }
        }
    }
    count
}

/// What all storages hold together: for each resource that a storage lists,
/// the sum of what the storages have on hand of it, as far as it can be
/// written down.
pub fn update_global_storage(world: &Colony) -> (global: GlobalStorage)
    ensures
        exists|order: Seq<Entity>|
            {
                &&& lists_records(order, world.records())
                &&& global.resource_list.wood == #[trigger] summed_entry(
                    world.records(),
                    order,
                    GameResource::Wood,
                )
                &&& global.resource_list.stone == summed_entry(
                    world.records(),
                    order,
                    GameResource::Stone,
                )
            },
{
    let entities = world.entities();
    let mut wood: i128 = 0;
    let mut stone: i128 = 0;
    let mut wood_listed = false;
    let mut stone_listed = false;
    let mut i: usize = 0;
    while i < entities.len()
        invariant
            i <= entities.len(),
            lists_records(entities@, world.records()),
            wood == stock_along(world.records(), entities@.take(i as int), GameResource::Wood),
            stone == stock_along(world.records(), entities@.take(i as int), GameResource::Stone),
            wood_listed == stock_listed_along(
                world.records(),
                entities@.take(i as int),
                GameResource::Wood,
            ),
            stone_listed == stock_listed_along(
                world.records(),
                entities@.take(i as int),
                GameResource::Stone,
            ),
            -0x8000_0000 * i <= wood <= 0x8000_0000 * i,
            -0x8000_0000 * i <= stone <= 0x8000_0000 * i,
        decreases entities.len() - i,
    {
        let record = world.get(entities[i]).unwrap();
        proof {
            assert(entities@.take(i + 1).drop_last() =~= entities@.take(i as int));
        }
        if let Some(storage) = record.storage_space {
            if let Some(amount) = storage.item_list.get(GameResource::Wood) {
                wood = wood + amount as i128;
                wood_listed = true;
            }
            if let Some(amount) = storage.item_list.get(GameResource::Stone) {
                stone = stone + amount as i128;
                stone_listed = true;
            }
        }
        i = i + 1;
    }
    proof {
        assert(entities@.take(entities.len() as int) =~= entities@);
    }
    let mut resource_list = ItemList::new();
    if wood_listed {
        resource_list.insert(GameResource::Wood, shown_sum(wood));
    }
    if stone_listed {
        resource_list.insert(GameResource::Stone, shown_sum(stone));
    }
    assert(resource_list.wood == summed_entry(world.records(), entities@, GameResource::Wood));
    assert(resource_list.stone == summed_entry(world.records(), entities@, GameResource::Stone));
    GlobalStorage { resource_list }
}

/// A sum as it is shown.
fn shown_sum(sum: i128) -> (amount: i32)
    ensures
        amount == shown(sum as int),
{
    if sum < i32::MIN as i128 {
        i32::MIN
    } else if sum > i32::MAX as i128 {
        i32::MAX
    } else {
        sum as i32
    }
}

} // verus!
