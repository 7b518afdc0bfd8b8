use vstd::prelude::*;
use crate::engine::collision::collisions_detected;
use crate::engine::enums::VillagerState;
use crate::engine::world::{lists_records, Colony, Components, Entity};
use crate::game::constants::HAULER_CAPACITY;
use crate::game::villagers::datatypes::{Backpack, GameItem};
use crate::game::buildings::datatypes::{lemma_deposit_keeps_wf, lemma_withdraw_keeps_wf};
use crate::engine::enums::GameResource;
use crate::game::buildings::step::{
    is_task_for, planned, quantity, site_plan, task_count, can_pick_up, place_of, storage_resolved, visitor, buildings_step, construction_door, construction_doors_along, construction_pass,
    finishing_step, follows_plan, generation_step, is_pending_site, plan_along, storage_door,
    storage_doors_along, storage_pass,
};
use crate::game::scenes::test_map_scene::{detection_step, tick_step};
use crate::game::tasks::{
    assigned_to, assignment_step, can_assign, sourcing_step, tasks_step, HaulTask,
};
use crate::engine::datatypes::Position;
use crate::engine::math::lemma_step_stays_between;
use crate::game::villagers::datatypes::IdleInfo;
use crate::game::villagers::step::{
    boxes_synced, can_retarget, carrying_walked, far_apart, idle_stepped, idle_walked, idles,
    loading_walked, ticked, villagers_step, walk, within_reach,
};

verus! {

/// The entities that work on a task.
pub open spec fn active_tasks(records: Map<u64, Components>) -> Set<u64> {
    records.dom().filter(|bits: u64| records[bits].haul_task is Some)
}

/// All tasks of the world: those that wait for a hauler and those that a
/// hauler works on.
pub open spec fn task_total(world: Colony) -> int {
    (world.open_tasks().len() + active_tasks(world.records()).len()) as int
}

/// No entity of `after` works on a task that it did not work on in `before`.
pub open spec fn no_new_task(before: Map<u64, Components>, after: Map<u64, Components>) -> bool {
    &&& after.dom() == before.dom()
    &&& forall|bits: u64| #[trigger]
        before.contains_key(bits) ==> (after[bits].haul_task is Some
            ==> before[bits].haul_task is Some)
}

/// Every entity of `after` works on a task exactly if it did in `before`.
pub open spec fn same_workers(before: Map<u64, Components>, after: Map<u64, Components>) -> bool {
    &&& after.dom() == before.dom()
    &&& forall|bits: u64| #[trigger]
        before.contains_key(bits) ==> (after[bits].haul_task is Some
            <==> before[bits].haul_task is Some)
}

/// Where no entity took up a task, no more entities work on one than before.
pub proof fn lemma_no_new_task_counts(before: Map<u64, Components>, after: Map<u64, Components>)
    requires
        before.dom().finite(),
        no_new_task(before, after),
    ensures
        active_tasks(after).len() <= active_tasks(before).len(),
        active_tasks(after).subset_of(active_tasks(before)),
{
    before.dom().lemma_len_filter(|bits: u64| before[bits].haul_task is Some);
    assert(active_tasks(before).finite()) by {
        vstd::set_lib::lemma_len_subset(active_tasks(before), before.dom());
    }
    assert(active_tasks(after).subset_of(active_tasks(before)));
    vstd::set_lib::lemma_len_subset(active_tasks(after), active_tasks(before));
}

/// Where every entity kept or dropped its task alike, as many work on one
/// as before.
pub proof fn lemma_same_workers_counts(before: Map<u64, Components>, after: Map<u64, Components>)
    requires
        same_workers(before, after),
    ensures
        active_tasks(after) == active_tasks(before),
{
    assert(active_tasks(after) =~= active_tasks(before));
}

/// A round of assignment hands a task over: it makes no task and loses none.
pub proof fn lemma_assignment_conserves_tasks(before: Colony, after: Colony)
    requires
        before.records().dom().finite(),
        assignment_step(before, after),
    ensures
        task_total(after) == task_total(before),
{
    if can_assign(before) {
        let bits = choose|bits: u64| #[trigger] assigned_to(before, after, bits);
        let task = before.open_tasks().last();
        assert(active_tasks(after.records()) =~= active_tasks(before.records()).insert(bits));
        assert(!active_tasks(before.records()).contains(bits));
        assert(active_tasks(before.records()).finite()) by {
            vstd::set_lib::lemma_len_subset(active_tasks(before.records()), before.records().dom());
        }
    }
}

/// A round of sourcing makes no task and loses none.
pub proof fn lemma_sourcing_conserves_tasks(before: Colony, after: Colony)
    requires
        sourcing_step(before, after),
    ensures
        task_total(after) == task_total(before),
{
}

/// What one tick does to the tasks makes no task and loses none.
pub proof fn lemma_tasks_step_conserves_tasks(before: Colony, after: Colony)
    requires
        before.records().dom().finite(),
        tasks_step(before, after),
    ensures
        task_total(after) == task_total(before),
{
    let between = choose|between: Colony|
        assignment_step(before, between) && #[trigger] sourcing_step(between, after);
    lemma_assignment_conserves_tasks(before, between);
    lemma_sourcing_conserves_tasks(between, after);
}

/// Moving the villagers makes no task and loses none.
pub proof fn lemma_villagers_step_conserves_tasks(before: Colony, after: Colony, delta: u32)
    requires
        villagers_step(before, after, delta),
    ensures
        task_total(after) == task_total(before),
        same_workers(before.records(), after.records()),
{
    let (synced, idled, loaded) = choose|
        synced: Map<u64, Components>,
        idled: Map<u64, Components>,
        loaded: Map<u64, Components>,
    |
        #![trigger idle_walked(synced, idled, delta), loading_walked(idled, loaded, delta)]
        {
            &&& boxes_synced(before.records(), synced)
            &&& idle_walked(synced, idled, delta)
            &&& loading_walked(idled, loaded, delta)
            &&& carrying_walked(loaded, after.records(), delta)
        };
    assert(same_workers(before.records(), synced));
    assert(same_workers(synced, idled));
    assert(same_workers(idled, loaded));
    assert(same_workers(loaded, after.records()));
    assert(same_workers(before.records(), after.records()));
    lemma_same_workers_counts(before.records(), after.records());
}

/// Detecting collisions makes no task and loses none.
pub proof fn lemma_detection_conserves_tasks(before: Colony, after: Colony)
    requires
        detection_step(before, after),
    ensures
        task_total(after) == task_total(before),
        same_workers(before.records(), after.records()),
{
    let bodies = choose|bodies: Map<u64, Components>|
        collisions_detected(before.records(), bodies, true) && #[trigger] collisions_detected(
            bodies,
            after.records(),
            false,
        );
    assert(same_workers(before.records(), bodies));
    assert(same_workers(bodies, after.records()));
    assert(same_workers(before.records(), after.records()));
    lemma_same_workers_counts(before.records(), after.records());
}

/// At the door of a storage building no villager takes up a task.
pub proof fn lemma_storage_doors_make_no_task(records: Map<u64, Components>, order: Seq<Entity>)
    ensures
        no_new_task(records, storage_doors_along(records, order)),
    decreases order.len(),
{
    if order.len() > 0 {
        lemma_storage_doors_make_no_task(records, order.drop_last());
        let earlier = storage_doors_along(records, order.drop_last());
        let later = storage_door(earlier, order.last());
        assert(later.dom() =~= earlier.dom());
        assert(no_new_task(earlier, later));
    }
}

/// At the door of a construction site no villager takes up a task.
pub proof fn lemma_construction_doors_make_no_task(
    records: Map<u64, Components>,
    order: Seq<Entity>,
)
    ensures
        no_new_task(records, construction_doors_along(records, order)),
    decreases order.len(),
{
    if order.len() > 0 {
        lemma_construction_doors_make_no_task(records, order.drop_last());
        let earlier = construction_doors_along(records, order.drop_last());
        let later = construction_door(earlier, order.last());
        assert(later.dom() =~= earlier.dom());
        assert(no_new_task(earlier, later));
    }
}

/// Where no site is pending, nothing is planned.
pub proof fn lemma_nothing_pending_nothing_planned(
    records: Map<u64, Components>,
    order: Seq<Entity>,
)
    requires
        forall|bits: u64| #[trigger]
            records.contains_key(bits) ==> !is_pending_site(records[bits]),
    ensures
        plan_along(records, order).len() == 0,
    decreases order.len(),
{
    if order.len() > 0 {
        lemma_nothing_pending_nothing_planned(records, order.drop_last());
    }
}

/// Generating tasks adds as many tasks as the pending sites ask for, and
/// takes none from a villager.
pub proof fn lemma_generation_counts(before: Colony, after: Colony)
    requires
        generation_step(before, after),
    ensures
        same_workers(before.records(), after.records()),
        exists|order: Seq<Entity>|
            lists_records(order, before.records()) && task_total(after) == task_total(before)
                + (#[trigger] plan_along(before.records(), order)).len(),
{
    let order = choose|order: Seq<Entity>|
        {
            &&& lists_records(order, before.records())
            &&& #[trigger] follows_plan(
                before.records(),
                before.open_tasks(),
                after.open_tasks(),
                plan_along(before.records(), order),
                before.next_id(),
            )
            &&& after.next_id() == crate::game::buildings::step::id_after(
                before.next_id(),
                plan_along(before.records(), order).len(),
            )
        };
    assert(same_workers(before.records(), after.records()));
    lemma_same_workers_counts(before.records(), after.records());
    assert(task_total(after) == task_total(before) + plan_along(before.records(), order).len());
}

/// What one tick does to the buildings makes tasks only for pending sites:
/// where none is pending, there are no more tasks after it than before.
pub proof fn lemma_buildings_step_makes_no_task(before: Colony, after: Colony)
    requires
        before.records().dom().finite(),
        buildings_step(before, after),
        forall|bits: u64| #[trigger]
            before.records().contains_key(bits) ==> !is_pending_site(before.records()[bits]),
    ensures
        task_total(after) <= task_total(before),
{
    let (announced, stored, supplied) = choose|announced: Colony, stored: Colony, supplied: Colony|
        #![trigger storage_pass(announced, stored), construction_pass(stored, supplied)]
        {
            &&& generation_step(before, announced)
            &&& storage_pass(announced, stored)
            &&& construction_pass(stored, supplied)
            &&& finishing_step(supplied, after)
        };
    lemma_generation_counts(before, announced);
    let planned = choose|order: Seq<Entity>|
        lists_records(order, before.records()) && task_total(announced) == task_total(before) + (
        #[trigger] plan_along(before.records(), order)).len();
    lemma_nothing_pending_nothing_planned(before.records(), planned);
    assert(task_total(announced) == task_total(before));
    let storage_order = choose|order: Seq<Entity>|
        lists_records(order, announced.records()) && stored.records()
            == #[trigger] storage_doors_along(announced.records(), order);
    lemma_storage_doors_make_no_task(announced.records(), storage_order);
    lemma_no_new_task_counts(announced.records(), stored.records());
    let construction_order = choose|order: Seq<Entity>|
        lists_records(order, stored.records()) && supplied.records()
            == #[trigger] construction_doors_along(stored.records(), order);
    lemma_construction_doors_make_no_task(stored.records(), construction_order);
    lemma_no_new_task_counts(stored.records(), supplied.records());
    assert(same_workers(supplied.records(), after.records()));
    lemma_same_workers_counts(supplied.records(), after.records());
}

/// The pending sites of `after` are those of `before`.
pub open spec fn same_pending_sites(
    before: Map<u64, Components>,
    after: Map<u64, Components>,
) -> bool {
    &&& after.dom() == before.dom()
    &&& forall|bits: u64| #[trigger]
        before.contains_key(bits) ==> is_pending_site(after[bits]) == is_pending_site(before[bits])
}

/// Tasks are made for pending sites only: over a tick that starts without a
/// pending site, the open tasks and the tasks that haulers work on are,
/// together, no more after it than before.
pub proof fn lemma_tick_makes_no_task(before: Colony, after: Colony, delta: u32)
    requires
        before.wf(),
        tick_step(before, after, delta),
        forall|bits: u64| #[trigger]
            before.records().contains_key(bits) ==> !is_pending_site(before.records()[bits]),
    ensures
        task_total(after) <= task_total(before),
{
    let (tasked, moved, detected) = choose|tasked: Colony, moved: Colony, detected: Colony|
        #![trigger villagers_step(tasked, moved, delta), detection_step(moved, detected)]
        {
            &&& tasks_step(before, tasked)
            &&& villagers_step(tasked, moved, delta)
            &&& detection_step(moved, detected)
            &&& buildings_step(detected, after)
        };
    lemma_tasks_step_conserves_tasks(before, tasked);
    lemma_tasks_step_keeps_sites(before, tasked);
    lemma_villagers_step_conserves_tasks(tasked, moved, delta);
    lemma_villagers_step_keeps_sites(tasked, moved, delta);
    lemma_detection_conserves_tasks(moved, detected);
    lemma_detection_keeps_sites(moved, detected);
    lemma_buildings_step_makes_no_task(detected, after);
}

/// Handing out and sourcing tasks makes no site pending and none seen.
pub proof fn lemma_tasks_step_keeps_sites(before: Colony, after: Colony)
    requires
        tasks_step(before, after),
    ensures
        same_pending_sites(before.records(), after.records()),
{
    let between = choose|between: Colony|
        assignment_step(before, between) && #[trigger] sourcing_step(between, after);
    if can_assign(before) {
        let bits = choose|bits: u64| #[trigger] assigned_to(before, between, bits);
        assert(between.records().dom() =~= before.records().dom());
    }
    assert(same_pending_sites(before.records(), between.records()));
}

/// Moving the villagers makes no site pending and none seen.
pub proof fn lemma_villagers_step_keeps_sites(before: Colony, after: Colony, delta: u32)
    requires
        villagers_step(before, after, delta),
    ensures
        same_pending_sites(before.records(), after.records()),
{
    let (synced, idled, loaded) = choose|
        synced: Map<u64, Components>,
        idled: Map<u64, Components>,
        loaded: Map<u64, Components>,
    |
        #![trigger idle_walked(synced, idled, delta), loading_walked(idled, loaded, delta)]
        {
            &&& boxes_synced(before.records(), synced)
            &&& idle_walked(synced, idled, delta)
            &&& loading_walked(idled, loaded, delta)
            &&& carrying_walked(loaded, after.records(), delta)
        };
    assert(same_pending_sites(before.records(), synced));
    assert(same_pending_sites(synced, idled));
    assert(same_pending_sites(idled, loaded));
    assert(same_pending_sites(loaded, after.records()));
}

/// Detecting collisions makes no site pending and none seen.
pub proof fn lemma_detection_keeps_sites(before: Colony, after: Colony)
    requires
        detection_step(before, after),
    ensures
        same_pending_sites(before.records(), after.records()),
{
    let bodies = choose|bodies: Map<u64, Components>|
        collisions_detected(before.records(), bodies, true) && #[trigger] collisions_detected(
            bodies,
            after.records(),
            false,
        );
    assert(same_pending_sites(before.records(), bodies));
    assert(same_pending_sites(bodies, after.records()));
}

/// Every storage of the world is well-formed: nothing promised is negative
/// or more than what is on hand, so nothing on hand is negative.
pub open spec fn stocked(records: Map<u64, Components>) -> bool {
    forall|bits: u64| #[trigger]
        records.contains_key(bits) ==> (records[bits].storage_space is Some
            ==> records[bits].storage_space.unwrap().wf())
}

/// The storages of `after` are those of `before`.
pub open spec fn same_storages(before: Map<u64, Components>, after: Map<u64, Components>) -> bool {
    &&& after.dom() == before.dom()
    &&& forall|bits: u64| #[trigger]
        before.contains_key(bits) ==> after[bits].storage_space == before[bits].storage_space
}

/// At the doors of storage buildings no storage stops being well-formed:
/// what leaves was available, and what enters is a full load.
pub proof fn lemma_storage_doors_keep_stock(records: Map<u64, Components>, order: Seq<Entity>)
    requires
        stocked(records),
    ensures
        stocked(storage_doors_along(records, order)),
    decreases order.len(),
{
    if order.len() > 0 {
        lemma_storage_doors_keep_stock(records, order.drop_last());
        let earlier = storage_doors_along(records, order.drop_last());
        let building = order.last();
        let later = storage_door(earlier, building);
        assert forall|bits: u64|
            #[trigger] later.contains_key(bits) && later[bits].storage_space
                is Some implies later[bits].storage_space.unwrap().wf() by {
            {
                if earlier.contains_key(bits) && earlier[bits].storage_space is Some {
                    let storage = earlier[bits].storage_space.unwrap();
                    assert(storage.wf());
                    if earlier.contains_key(building.bits) && visitor(earlier[building.bits])
                        is Some {
                        let hauler = visitor(earlier[building.bits]).unwrap();
                        if earlier.contains_key(hauler.bits) && earlier[hauler.bits].haul_task
                            is Some {
                            let resource = earlier[hauler.bits].haul_task.unwrap().resource;
                            lemma_withdraw_keeps_wf(storage, resource, HAULER_CAPACITY as int);
                            lemma_deposit_keeps_wf(storage, resource, HAULER_CAPACITY as int);
                        }
                    }
                }
            }
        }
    }
}

/// At the doors of construction sites no storage changes.
pub proof fn lemma_construction_doors_keep_storages(
    records: Map<u64, Components>,
    order: Seq<Entity>,
)
    ensures
        same_storages(records, construction_doors_along(records, order)),
    decreases order.len(),
{
    if order.len() > 0 {
        lemma_construction_doors_keep_storages(records, order.drop_last());
        let earlier = construction_doors_along(records, order.drop_last());
        let later = construction_door(earlier, order.last());
        assert(later.dom() =~= earlier.dom());
        assert(same_storages(earlier, later));
    }
}

/// No tick takes from a storage what it has not available: where every
/// storage is well-formed before a tick, every storage is after it, and no
/// quantity on hand is below zero.
pub proof fn lemma_tick_keeps_stock(before: Colony, after: Colony, delta: u32)
    requires
        stocked(before.records()),
        tick_step(before, after, delta),
    ensures
        stocked(after.records()),
        forall|bits: u64, resource: crate::engine::enums::GameResource|
            after.records().contains_key(bits) && after.records()[bits].storage_space is Some
                ==> (#[trigger] after.records()[bits].storage_space.unwrap().on_hand(resource))
                >= 0,
{
    lemma_tick_keeps_storages_well_formed(before, after, delta);
    assert forall|bits: u64, resource: crate::engine::enums::GameResource|
        after.records().contains_key(bits) && after.records()[bits].storage_space is Some implies (
    #[trigger] after.records()[bits].storage_space.unwrap().on_hand(resource)) >= 0 by {
        let storage = after.records()[bits].storage_space.unwrap();
        assert(0 <= storage.reserved(resource) <= storage.on_hand(resource));
    }
}

/// Where every storage is well-formed before a tick, every storage is after
/// it.
pub proof fn lemma_tick_keeps_storages_well_formed(before: Colony, after: Colony, delta: u32)
    requires
        stocked(before.records()),
        tick_step(before, after, delta),
    ensures
        stocked(after.records()),
{
    let (tasked, moved, detected) = choose|tasked: Colony, moved: Colony, detected: Colony|
        #![trigger villagers_step(tasked, moved, delta), detection_step(moved, detected)]
        {
            &&& tasks_step(before, tasked)
            &&& villagers_step(tasked, moved, delta)
            &&& detection_step(moved, detected)
            &&& buildings_step(detected, after)
        };
    let between = choose|between: Colony|
        assignment_step(before, between) && #[trigger] sourcing_step(between, tasked);
    if can_assign(before) {
        let bits = choose|bits: u64| #[trigger] assigned_to(before, between, bits);
        assert(between.records().dom() =~= before.records().dom());
    }
    assert(same_storages(before.records(), tasked.records()));
    let (synced, idled, loaded) = choose|
        synced: Map<u64, Components>,
        idled: Map<u64, Components>,
        loaded: Map<u64, Components>,
    |
        #![trigger idle_walked(synced, idled, delta), loading_walked(idled, loaded, delta)]
        {
            &&& boxes_synced(tasked.records(), synced)
            &&& idle_walked(synced, idled, delta)
            &&& loading_walked(idled, loaded, delta)
            &&& carrying_walked(loaded, moved.records(), delta)
        };
    assert(same_storages(tasked.records(), synced));
    assert(same_storages(synced, idled));
    assert(same_storages(idled, loaded));
    assert(same_storages(loaded, moved.records()));
    let bodies = choose|bodies: Map<u64, Components>|
        collisions_detected(moved.records(), bodies, true) && #[trigger] collisions_detected(
            bodies,
            detected.records(),
            false,
        );
    assert(same_storages(moved.records(), bodies));
    assert(same_storages(bodies, detected.records()));
    assert(same_storages(before.records(), detected.records()));
    assert(stocked(detected.records()));
    let (announced, stored, supplied) = choose|announced: Colony, stored: Colony, supplied: Colony|
        #![trigger storage_pass(announced, stored), construction_pass(stored, supplied)]
        {
            &&& generation_step(detected, announced)
            &&& storage_pass(announced, stored)
            &&& construction_pass(stored, supplied)
            &&& finishing_step(supplied, after)
        };
    assert(same_storages(detected.records(), announced.records()));
    assert(stocked(announced.records()));
    let storage_order = choose|order: Seq<Entity>|
        lists_records(order, announced.records()) && stored.records()
            == #[trigger] storage_doors_along(announced.records(), order);
    lemma_storage_doors_keep_stock(announced.records(), storage_order);
    let construction_order = choose|order: Seq<Entity>|
        lists_records(order, stored.records()) && supplied.records()
            == #[trigger] construction_doors_along(stored.records(), order);
    lemma_construction_doors_keep_storages(stored.records(), construction_order);
    assert(stocked(supplied.records()));
    assert(same_storages(supplied.records(), after.records()));
}

/// A loading hauler at the door of the storage building that its task
/// starts at, where a full load of the task's resource is available, picks
/// it up: a full load leaves the storage, the hauler has it in its backpack,
/// and the hauler is carrying.
pub proof fn lemma_pickup(records: Map<u64, Components>, building: Entity, hauler: Entity)
    requires
        records.contains_key(building.bits),
        records.contains_key(hauler.bits),
        building.bits != hauler.bits,
        records[building.bits].building is Some,
        records[building.bits].construction_storage is None,
        visitor(records[building.bits]) == Some(hauler),
        records[hauler.bits].exclusive_state(),
        records[hauler.bits].loading_state is Some,
        records[hauler.bits].backpack is Some,
        records[hauler.bits].haul_task is Some,
        place_of(records[building.bits]) is Some,
        records[hauler.bits].haul_task.unwrap().origin_position == place_of(
            records[building.bits],
        ),
        records[building.bits].storage_space is Some,
        records[building.bits].storage_space.unwrap().has_available(
            records[hauler.bits].haul_task.unwrap().resource,
            HAULER_CAPACITY as int,
        ),
    ensures
        ({
            let resource = records[hauler.bits].haul_task.unwrap().resource;
            let after = storage_door(records, building);
            &&& after[building.bits].storage_space is Some
            &&& after[building.bits].storage_space.unwrap().on_hand(resource)
                == records[building.bits].storage_space.unwrap().on_hand(resource)
                - HAULER_CAPACITY
            &&& after[hauler.bits].backpack == Some(
                Backpack { item: Some(GameItem { resource, amount: HAULER_CAPACITY }) },
            )
            &&& after[hauler.bits].state() == Some(VillagerState::Carrying)
            &&& after[hauler.bits].exclusive_state()
        }),
{
    let resource = records[hauler.bits].haul_task.unwrap().resource;
    assert(records[hauler.bits].state() == Some(VillagerState::Loading));
    assert(can_pick_up(records[building.bits], records[hauler.bits]));
    assert(storage_door(records, building) == storage_resolved(
        records,
        building,
        hauler,
        VillagerState::Loading,
    ));
}

/// The point lies in the square around the idle point, or up to `slack`
/// units outside of it.
pub open spec fn within_range(info: IdleInfo, point: Position, slack: int) -> bool {
    &&& info.idle_point.x - info.radius - slack <= point.x <= info.idle_point.x + info.radius
        + slack
    &&& info.idle_point.y - info.radius - slack <= point.y <= info.idle_point.y + info.radius
        + slack
}

/// An idle villager that is about its idle point stays about it: where it
/// is no further outside of the square around its idle point than the
/// longest step it takes, and its target lies in the square or is about to
/// be drawn anew, the same holds after it idled for `delta` milliseconds.
pub proof fn lemma_idle_wander_bound(before: Components, after: Components, delta: u32, slack: int)
    requires
        idles(before),
        idle_stepped(before, after, delta),
        can_retarget(before.idle_info.unwrap()),
        before.idle_info.unwrap().idle_timer <= 0 || within_reach(
            before.idle_info.unwrap(),
            before.idle_info.unwrap().target_position,
        ),
        within_range(before.idle_info.unwrap(), before.sprite.unwrap().position, slack),
        walk(delta) <= slack,
    ensures
        idles(after),
        can_retarget(after.idle_info.unwrap()),
        within_reach(after.idle_info.unwrap(), after.idle_info.unwrap().target_position),
        within_range(after.idle_info.unwrap(), after.sprite.unwrap().position, slack),
{
    let info = before.idle_info.unwrap();
    let later = after.idle_info.unwrap();
    let from = before.sprite.unwrap().position;
    let target = later.target_position;
    assert(ticked(info, delta).idle_timer <= 0 || ticked(info, delta).target_position
        == info.target_position);
    assert(within_reach(later, target));
    assert(0 <= walk(delta)) by (nonlinear_arith)
        requires
            walk(delta) == crate::game::constants::VILLAGER_SPEED * delta,
            crate::game::constants::VILLAGER_SPEED == 50,
            0 <= delta,
    ;
    if far_apart(from, target) {
        lemma_step_stays_between(from, target, walk(delta));
    }
}

/// Every entity that carried exactly one state tag in `before` carries
/// exactly one in `after`.
pub open spec fn keeps_one_state(before: Map<u64, Components>, after: Map<u64, Components>) -> bool {
    &&& after.dom() == before.dom()
    &&& forall|bits: u64| #[trigger]
        before.contains_key(bits) ==> (before[bits].state_tags() == 1 ==> after[bits].state_tags()
            == 1)
}

/// At the doors of storage buildings a villager changes one state tag for
/// another.
pub proof fn lemma_storage_doors_keep_states(records: Map<u64, Components>, order: Seq<Entity>)
    ensures
        keeps_one_state(records, storage_doors_along(records, order)),
    decreases order.len(),
{
    if order.len() > 0 {
        lemma_storage_doors_keep_states(records, order.drop_last());
        let earlier = storage_doors_along(records, order.drop_last());
        let later = storage_door(earlier, order.last());
        assert(later.dom() =~= earlier.dom());
        assert(keeps_one_state(earlier, later));
    }
}

/// At the doors of construction sites a villager changes one state tag for
/// another.
pub proof fn lemma_construction_doors_keep_states(
    records: Map<u64, Components>,
    order: Seq<Entity>,
)
    ensures
        keeps_one_state(records, construction_doors_along(records, order)),
    decreases order.len(),
{
    if order.len() > 0 {
        lemma_construction_doors_keep_states(records, order.drop_last());
        let earlier = construction_doors_along(records, order.drop_last());
        let later = construction_door(earlier, order.last());
        assert(later.dom() =~= earlier.dom());
        assert(keeps_one_state(earlier, later));
    }
}

/// Handing out and sourcing tasks leaves every villager in one state: the
/// hauler that takes a task changes from idle to loading.
pub proof fn lemma_tasks_step_keeps_states(before: Colony, after: Colony)
    requires
        tasks_step(before, after),
    ensures
        keeps_one_state(before.records(), after.records()),
{
    let between = choose|between: Colony|
        assignment_step(before, between) && #[trigger] sourcing_step(between, after);
    if can_assign(before) {
        let bits = choose|bits: u64| #[trigger] assigned_to(before, between, bits);
        assert(between.records().dom() =~= before.records().dom());
    }
    assert(keeps_one_state(before.records(), between.records()));
}

/// Moving the villagers changes no state.
pub proof fn lemma_villagers_step_keeps_states(before: Colony, after: Colony, delta: u32)
    requires
        villagers_step(before, after, delta),
    ensures
        keeps_one_state(before.records(), after.records()),
{
    let (synced, idled, loaded) = choose|
        synced: Map<u64, Components>,
        idled: Map<u64, Components>,
        loaded: Map<u64, Components>,
    |
        #![trigger idle_walked(synced, idled, delta), loading_walked(idled, loaded, delta)]
        {
            &&& boxes_synced(before.records(), synced)
            &&& idle_walked(synced, idled, delta)
            &&& loading_walked(idled, loaded, delta)
            &&& carrying_walked(loaded, after.records(), delta)
        };
    assert(keeps_one_state(before.records(), synced));
    assert(keeps_one_state(synced, idled));
    assert(keeps_one_state(idled, loaded));
    assert(keeps_one_state(loaded, after.records()));
}

/// Detecting collisions changes no state.
pub proof fn lemma_detection_keeps_states(before: Colony, after: Colony)
    requires
        detection_step(before, after),
    ensures
        keeps_one_state(before.records(), after.records()),
{
    let bodies = choose|bodies: Map<u64, Components>|
        collisions_detected(before.records(), bodies, true) && #[trigger] collisions_detected(
            bodies,
            after.records(),
            false,
        );
    assert(keeps_one_state(before.records(), bodies));
    assert(keeps_one_state(bodies, after.records()));
}

/// What one tick does to the buildings leaves every villager in one state:
/// a hauler that picks up changes from loading to carrying, one that hands
/// over from carrying to idle.
pub proof fn lemma_buildings_step_keeps_states(before: Colony, after: Colony)
    requires
        buildings_step(before, after),
    ensures
        keeps_one_state(before.records(), after.records()),
{
    let (announced, stored, supplied) = choose|announced: Colony, stored: Colony, supplied: Colony|
        #![trigger storage_pass(announced, stored), construction_pass(stored, supplied)]
        {
            &&& generation_step(before, announced)
            &&& storage_pass(announced, stored)
            &&& construction_pass(stored, supplied)
            &&& finishing_step(supplied, after)
        };
    assert(keeps_one_state(before.records(), announced.records()));
    let storage_order = choose|order: Seq<Entity>|
        lists_records(order, announced.records()) && stored.records()
            == #[trigger] storage_doors_along(announced.records(), order);
    lemma_storage_doors_keep_states(announced.records(), storage_order);
    let construction_order = choose|order: Seq<Entity>|
        lists_records(order, stored.records()) && supplied.records()
            == #[trigger] construction_doors_along(stored.records(), order);
    lemma_construction_doors_keep_states(stored.records(), construction_order);
    assert(keeps_one_state(supplied.records(), after.records()));
}

/// A villager is in one state at any time: an entity that carries exactly
/// one state tag before a tick carries exactly one after each of its steps,
/// and so after the tick.
pub proof fn lemma_tick_keeps_states(before: Colony, after: Colony, delta: u32)
    requires
        tick_step(before, after, delta),
    ensures
        keeps_one_state(before.records(), after.records()),
        exists|tasked: Colony, moved: Colony, detected: Colony|
            #![trigger villagers_step(tasked, moved, delta), detection_step(moved, detected)]
            {
                &&& tasks_step(before, tasked)
                &&& villagers_step(tasked, moved, delta)
                &&& detection_step(moved, detected)
                &&& buildings_step(detected, after)
                &&& keeps_one_state(before.records(), tasked.records())
                &&& keeps_one_state(before.records(), moved.records())
                &&& keeps_one_state(before.records(), detected.records())
            },
{
    let (tasked, moved, detected) = choose|tasked: Colony, moved: Colony, detected: Colony|
        #![trigger villagers_step(tasked, moved, delta), detection_step(moved, detected)]
        {
            &&& tasks_step(before, tasked)
            &&& villagers_step(tasked, moved, delta)
            &&& detection_step(moved, detected)
            &&& buildings_step(detected, after)
        };
    lemma_tasks_step_keeps_states(before, tasked);
    lemma_villagers_step_keeps_states(tasked, moved, delta);
    lemma_detection_keeps_states(moved, detected);
    lemma_buildings_step_keeps_states(detected, after);
    assert(keeps_one_state(before.records(), moved.records()));
    assert(keeps_one_state(before.records(), detected.records()));
}

/// The tasks of a queue that bring `resource` to `destination`, counted.
pub open spec fn count_tasks(
    tasks: Seq<HaulTask>,
    destination: Position,
    resource: GameResource,
) -> int
    decreases tasks.len(),
{
    if tasks.len() == 0 {
        0
    } else {
        count_tasks(tasks.drop_last(), destination, resource) + if tasks.last().destination_position
            == Some(destination) && tasks.last().resource == resource {
            1int
        } else {
            0int
        }
    }
}

/// The trips of a plan that bring `resource` to `destination`, counted.
pub open spec fn count_trips(
    plan: Seq<(Position, GameResource)>,
    destination: Position,
    resource: GameResource,
) -> int
    decreases plan.len(),
{
    if plan.len() == 0 {
        0
    } else {
        count_trips(plan.drop_last(), destination, resource) + if plan.last() == (
            destination,
            resource,
        ) {
            1int
        } else {
            0int
        }
    }
}

/// The trips with `resource` to `destination` that a record asks for: one
/// for each full load that it needs, if it is a pending site that stands at
/// `destination`; none else.
pub open spec fn asked_of(record: Components, destination: Position, resource: GameResource) -> int {
    if is_pending_site(record) && record.sprite.unwrap().position == destination {
        task_count(quantity(record.construction_storage.unwrap().required_item_list, resource))
    } else {
        0
    }
}

/// The trips with `resource` to `destination` that the entities of `order`
/// ask for, together.
pub open spec fn asked_along(
    records: Map<u64, Components>,
    order: Seq<Entity>,
    destination: Position,
    resource: GameResource,
) -> int
    decreases order.len(),
{
    if order.len() == 0 {
        0
    } else if records.contains_key(order.last().bits) {
        asked_along(records, order.drop_last(), destination, resource) + asked_of(
            records[order.last().bits],
            destination,
            resource,
        )
    } else {
        asked_along(records, order.drop_last(), destination, resource)
    }
}

/// All trips that a record asks for: one for each full load that it needs
/// of each resource, if it is a pending site; none else.
pub open spec fn needed_by(record: Components) -> int {
    if is_pending_site(record) {
        task_count(
            quantity(record.construction_storage.unwrap().required_item_list, GameResource::Wood),
        ) + task_count(
            quantity(record.construction_storage.unwrap().required_item_list, GameResource::Stone),
        )
    } else {
        0
    }
}

/// All trips that the entities of `order` ask for, together.
pub open spec fn needed_along(records: Map<u64, Components>, order: Seq<Entity>) -> int
    decreases order.len(),
{
    if order.len() == 0 {
        0
    } else if records.contains_key(order.last().bits) {
        needed_along(records, order.drop_last()) + needed_by(records[order.last().bits])
    } else {
        needed_along(records, order.drop_last())
    }
}

/// A plan that repeats one trip holds it as often as it is long.
pub proof fn lemma_count_trips_planned(
    position: Position,
    planned_resource: GameResource,
    amount: int,
    destination: Position,
    resource: GameResource,
)
    ensures
        planned(position, planned_resource, amount).len() == task_count(amount),
        count_trips(planned(position, planned_resource, amount), destination, resource) == if position
            == destination && planned_resource == resource {
            task_count(amount)
        } else {
            0
        },
    decreases task_count(amount),
{
    let plan = planned(position, planned_resource, amount);
    assert(task_count(amount) >= 0) by (nonlinear_arith)
        requires
            task_count(amount) == if amount <= 0 {
                0
            } else {
                amount / 10
            },
    ;
    if task_count(amount) > 0 {
        let less = amount - 10;
        assert(task_count(less) == task_count(amount) - 1) by (nonlinear_arith)
            requires
                amount > 0,
                less == amount - 10,
                task_count(amount) == amount / 10,
                task_count(amount) > 0,
                task_count(less) == if less <= 0 {
                    0
                } else {
                    less / 10
                },
        ;
        lemma_count_trips_planned(position, planned_resource, less, destination, resource);
        assert(plan.drop_last() =~= planned(position, planned_resource, less));
        assert(plan.last() == (position, planned_resource));
    }
}

/// Counting the trips of two plans put together is counting each and adding
/// up.
pub proof fn lemma_count_trips_joins(
    first: Seq<(Position, GameResource)>,
    second: Seq<(Position, GameResource)>,
    destination: Position,
    resource: GameResource,
)
    ensures
        count_trips(first + second, destination, resource) == count_trips(
            first,
            destination,
            resource,
        ) + count_trips(second, destination, resource),
    decreases second.len(),
{
    if second.len() == 0 {
        assert(first + second =~= first);
    } else {
        lemma_count_trips_joins(first, second.drop_last(), destination, resource);
        assert((first + second).drop_last() =~= first + second.drop_last());
        assert((first + second).last() == second.last());
    }
}

/// A pending site plans as many trips with a resource to its place as it
/// needs full loads of it, and no trip to any other place.
pub proof fn lemma_count_trips_site(
    record: Components,
    destination: Position,
    resource: GameResource,
)
    requires
        is_pending_site(record),
    ensures
        count_trips(site_plan(record), destination, resource) == asked_of(
            record,
            destination,
            resource,
        ),
        site_plan(record).len() == needed_by(record),
{
    let position = record.sprite.unwrap().position;
    let required = record.construction_storage.unwrap().required_item_list;
    let wood = planned(position, GameResource::Wood, quantity(required, GameResource::Wood));
    let stone = planned(position, GameResource::Stone, quantity(required, GameResource::Stone));
    lemma_count_trips_planned(
        position,
        GameResource::Wood,
        quantity(required, GameResource::Wood),
        destination,
        resource,
    );
    lemma_count_trips_planned(
        position,
        GameResource::Stone,
        quantity(required, GameResource::Stone),
        destination,
        resource,
    );
    lemma_count_trips_joins(wood, stone, destination, resource);
}

/// The plan along a list holds, for each place and resource, as many trips
/// as the pending sites of the list ask for, and as many trips in all as
/// they need.
pub proof fn lemma_count_trips_along(
    records: Map<u64, Components>,
    order: Seq<Entity>,
    destination: Position,
    resource: GameResource,
)
    ensures
        count_trips(plan_along(records, order), destination, resource) == asked_along(
            records,
            order,
            destination,
            resource,
        ),
        plan_along(records, order).len() == needed_along(records, order),
    decreases order.len(),
{
    if order.len() > 0 {
        lemma_count_trips_along(records, order.drop_last(), destination, resource);
        if records.contains_key(order.last().bits) && is_pending_site(records[order.last().bits]) {
            lemma_count_trips_site(records[order.last().bits], destination, resource);
            lemma_count_trips_joins(
                plan_along(records, order.drop_last()),
                site_plan(records[order.last().bits]),
                destination,
                resource,
            );
        }
    }
}

/// A queue that follows a plan holds, for each place and resource, the tasks
/// that it held and one more for each such trip of the plan.
pub proof fn lemma_follows_plan_counts(
    records: Map<u64, Components>,
    before: Seq<HaulTask>,
    after: Seq<HaulTask>,
    plan: Seq<(Position, GameResource)>,
    first_id: usize,
    destination: Position,
    resource: GameResource,
)
    requires
        follows_plan(records, before, after, plan, first_id),
    ensures
        count_tasks(after, destination, resource) == count_tasks(before, destination, resource)
            + count_trips(plan, destination, resource),
    decreases plan.len(),
{
    if plan.len() == 0 {
        assert(after =~= before);
    } else {
        let earlier = after.drop_last();
        assert(follows_plan(records, before, earlier, plan.drop_last(), first_id)) by {
            assert forall|i: int| before.len() <= i < earlier.len() implies (
            #[trigger] earlier[i]).id == crate::game::buildings::step::id_after(
                first_id,
                (i - before.len()) as nat,
            ) && is_task_for(records, earlier[i], plan.drop_last()[i - before.len()]) by {
                assert(earlier[i] == after[i]);
            }
            assert forall|i: int| 0 <= i < before.len() implies #[trigger] earlier[i]
                == before[i] by {
                assert(earlier[i] == after[i]);
            }
        }
        lemma_follows_plan_counts(
            records,
            before,
            earlier,
            plan.drop_last(),
            first_id,
            destination,
            resource,
        );
        let last = after[after.len() - 1];
        assert(is_task_for(records, last, plan[after.len() - 1 - before.len()]));
        assert(plan.last() == plan[plan.len() - 1]);
    }
}

/// Generating tasks enqueues, for each place and each resource, exactly as
/// many tasks as the pending sites at that place need full loads of the
/// resource, and in all exactly as many tasks as the pending sites need full
/// loads.
pub proof fn lemma_generation_counts_by_destination(
    before: Colony,
    after: Colony,
    destination: Position,
    resource: GameResource,
)
    requires
        generation_step(before, after),
    ensures
        exists|order: Seq<Entity>|
            {
                &&& lists_records(order, before.records())
                &&& count_tasks(after.open_tasks(), destination, resource) == count_tasks(
                    before.open_tasks(),
                    destination,
                    resource,
                ) + #[trigger] asked_along(before.records(), order, destination, resource)
                &&& after.open_tasks().len() == before.open_tasks().len() + needed_along(
                    before.records(),
                    order,
                )
            },
{
    let order = choose|order: Seq<Entity>|
        {
            &&& lists_records(order, before.records())
            &&& #[trigger] follows_plan(
                before.records(),
                before.open_tasks(),
                after.open_tasks(),
                plan_along(before.records(), order),
                before.next_id(),
            )
            &&& after.next_id() == crate::game::buildings::step::id_after(
                before.next_id(),
                plan_along(before.records(), order).len(),
            )
        };
    lemma_follows_plan_counts(
        before.records(),
        before.open_tasks(),
        after.open_tasks(),
        plan_along(before.records(), order),
        before.next_id(),
        destination,
        resource,
    );
    lemma_count_trips_along(before.records(), order, destination, resource);
    assert(count_tasks(after.open_tasks(), destination, resource) == count_tasks(
        before.open_tasks(),
        destination,
        resource,
    ) + asked_along(before.records(), order, destination, resource));
}

/// Whether an entity is among those of a list.
pub open spec fn occurs(order: Seq<Entity>, bits: u64) -> bool {
    exists|i: int| 0 <= i < order.len() && #[trigger] order[i].bits == bits
}

/// Where one pending site alone stands at a place, a list without
/// repetition asks for the trips to that place that this site asks for, if
/// the site is on the list, and for none else.
pub proof fn lemma_asked_along_of_one_site(
    records: Map<u64, Components>,
    order: Seq<Entity>,
    site: u64,
    destination: Position,
    resource: GameResource,
)
    requires
        forall|i: int, j: int| 0 <= i < j < order.len() ==> order[i].bits != order[j].bits,
        records.contains_key(site),
        forall|bits: u64| #[trigger]
            records.contains_key(bits) && is_pending_site(records[bits])
                && records[bits].sprite.unwrap().position == destination ==> bits == site,
    ensures
        asked_along(records, order, destination, resource) == if occurs(order, site) {
            asked_of(records[site], destination, resource)
        } else {
            0
        },
    decreases order.len(),
{
    if order.len() > 0 {
        let earlier = order.drop_last();
        lemma_asked_along_of_one_site(records, earlier, site, destination, resource);
        let last = order.last().bits;
        if last == site {
            assert(order[order.len() - 1].bits == site);
            assert(!occurs(earlier, site)) by {
                if occurs(earlier, site) {
                    let i = choose|i: int| 0 <= i < earlier.len() && #[trigger] earlier[i].bits == site;
                    assert(order[i].bits != order[order.len() - 1].bits);
                }
            }
        } else {
            if records.contains_key(last) {
                assert(asked_of(records[last], destination, resource) == 0);
            }
            assert(occurs(order, site) == occurs(earlier, site)) by {
                if occurs(order, site) {
                    let i = choose|i: int| 0 <= i < order.len() && #[trigger] order[i].bits == site;
                    assert(earlier[i].bits == site);
                }
                if occurs(earlier, site) {
                    let i = choose|i: int| 0 <= i < earlier.len() && #[trigger] earlier[i].bits == site;
                    assert(order[i].bits == site);
                }
            }
        }
    }
}

/// A construction requirement of an amount makes exactly one task for each
/// full load: where a pending site alone stands at its place, generating
/// tasks adds to the tasks with a resource to that place exactly as many as
/// the site needs full loads of the resource.
pub proof fn lemma_generation_counts_for_site(
    before: Colony,
    after: Colony,
    site: Entity,
    resource: GameResource,
)
    requires
        generation_step(before, after),
        before.has(site),
        is_pending_site(before.record(site)),
        forall|bits: u64| #[trigger]
            before.records().contains_key(bits) && is_pending_site(before.records()[bits])
                && before.records()[bits].sprite.unwrap().position == before.record(
                site,
            ).sprite.unwrap().position ==> bits == site.bits,
    ensures
        count_tasks(
            after.open_tasks(),
            before.record(site).sprite.unwrap().position,
            resource,
        ) == count_tasks(
            before.open_tasks(),
            before.record(site).sprite.unwrap().position,
            resource,
        ) + task_count(
            quantity(before.record(site).construction_storage.unwrap().required_item_list, resource),
        ),
{
    let destination = before.record(site).sprite.unwrap().position;
    lemma_generation_counts_by_destination(before, after, destination, resource);
    let order = choose|order: Seq<Entity>|
        {
            &&& lists_records(order, before.records())
            &&& count_tasks(after.open_tasks(), destination, resource) == count_tasks(
                before.open_tasks(),
                destination,
                resource,
            ) + #[trigger] asked_along(before.records(), order, destination, resource)
            &&& after.open_tasks().len() == before.open_tasks().len() + needed_along(
                before.records(),
                order,
            )
        };
    lemma_asked_along_of_one_site(before.records(), order, site.bits, destination, resource);
    assert(occurs(order, site.bits)) by {
        let i = choose|i: int| 0 <= i < order.len() && order[i].bits == site.bits;
        assert(order[i].bits == site.bits);
    }
}

} // verus!
