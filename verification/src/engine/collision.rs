use vstd::prelude::*;
use crate::engine::datatypes::{Position, Rectangle};
use crate::engine::world::{lists_records, Colony, Components, Entity};

verus! {

/// Tag of the one entity whose presence switches the drawing of boxes on.
#[derive(Debug, Clone, Copy, PartialEq, Eq, Structural)]
pub struct DrawCollisions;

/// Whether the entity's box runs into another solid box, and into whose.
#[derive(Debug, Clone, Copy, PartialEq, Eq, Structural)]
pub struct BodyCollision {
    pub colliding: bool,
    pub other_body: Option<Entity>,
}

impl Default for BodyCollision {
    fn default() -> (collision: BodyCollision)
        ensures
            collision == (BodyCollision { colliding: false, other_body: None }),
    {
        BodyCollision { colliding: false, other_body: None }
    }
}

/// Whether the entity's box overlaps another sensor box, and whose.
#[derive(Debug, Clone, Copy, PartialEq, Eq, Structural)]
pub struct TriggerCollision {
    pub colliding: bool,
    pub other_trigger: Option<Entity>,
}

impl TriggerCollision {
    /// A sensor that reports nothing.
    pub fn new() -> (collision: TriggerCollision)
        ensures
            collision == (TriggerCollision { colliding: false, other_trigger: None }),
    {
        TriggerCollision { colliding: false, other_trigger: None }
    }
}

/// The box of an entity. It follows the entity's sprite.
#[derive(Debug, Clone, Copy, PartialEq, Eq, Structural)]
pub struct CollisionBox {
    pub rect: Rectangle,
}

/// A point lies in a box when it lies on or between its first and its last
/// pixel, along both axes.
pub open spec fn point_inside_box(point: Position, col_box: Rectangle) -> bool {
    &&& point.x >= col_box.x
    &&& point.x <= col_box.x + col_box.width - 1000
    &&& point.y >= col_box.y
    &&& point.y <= col_box.y + col_box.height - 1000
}

/// Two boxes collide when, along both axes, the last pixel of each lies at or
/// past the first pixel of the other.
pub open spec fn boxes_colliding(box1: Rectangle, box2: Rectangle) -> bool {
    &&& box1.x + box1.width - 1000 >= box2.x
    &&& box1.x <= box2.x + box2.width - 1000
    &&& box1.y + box1.height - 1000 >= box2.y
    &&& box1.y <= box2.y + box2.height - 1000
}

/// Whether a point lies in a box.
pub fn is_point_inside_box(point: &Position, col_box: &Rectangle) -> (inside: bool)
    ensures
        inside == point_inside_box(*point, *col_box),
{
    let right: i64 = col_box.x as i64 + col_box.width as i64 - 1000;
    let bottom: i64 = col_box.y as i64 + col_box.height as i64 - 1000;
    point.x >= col_box.x && point.x as i64 <= right && point.y >= col_box.y && point.y as i64
        <= bottom
}

/// Whether two boxes collide.
pub fn are_boxes_colliding(box1: &Rectangle, box2: &Rectangle) -> (colliding: bool)
    ensures
        colliding == boxes_colliding(*box1, *box2),
{
    let right1: i64 = box1.x as i64 + box1.width as i64 - 1000;
    let right2: i64 = box2.x as i64 + box2.width as i64 - 1000;
    let bottom1: i64 = box1.y as i64 + box1.height as i64 - 1000;
    let bottom2: i64 = box2.y as i64 + box2.height as i64 - 1000;
    right1 >= box2.x as i64 && box1.x as i64 <= right2 && bottom1 >= box2.y as i64 && box1.y as i64
        <= bottom2
}

/// Whether an entity takes part in the collisions of one family: it has a
/// box, and the component of that family, the solid bodies or the sensors.
pub open spec fn takes_part(record: Components, body: bool) -> bool {
    record.collision_box is Some && if body {
        record.body_collision is Some
    } else {
        record.trigger_collision is Some
    }
}

/// Whether the component of one family is on the record.
pub open spec fn reports(record: Components, body: bool) -> bool {
    if body {
        record.body_collision is Some
    } else {
        record.trigger_collision is Some
    }
}

/// Two different entities that take part overlap.
pub open spec fn overlaps(records: Map<u64, Components>, one: u64, other: u64, body: bool) -> bool {
    &&& one != other
    &&& records.contains_key(one)
    &&& records.contains_key(other)
    &&& takes_part(records[one], body)
    &&& takes_part(records[other], body)
    &&& boxes_colliding(
        records[one].collision_box.unwrap().rect,
        records[other].collision_box.unwrap().rect,
    )
}

/// The record with what one family of collisions reports about it.
pub open spec fn with_report(
    record: Components,
    body: bool,
    colliding: bool,
    other: Option<Entity>,
) -> Components {
    if body {
        Components {
            body_collision: Some(BodyCollision { colliding, other_body: other }),
            ..record
        }
    } else {
        Components {
            trigger_collision: Some(TriggerCollision { colliding, other_trigger: other }),
            ..record
        }
    }
}

/// `after` is what detection makes of the record of `one`: an entity that
/// overlaps another is reported as colliding, with one of those that it
/// overlaps; an entity that overlaps none is reported as free. A record
/// without the component of the family stays as it is.
pub open spec fn detected(
    records: Map<u64, Components>,
    one: u64,
    after: Components,
    body: bool,
) -> bool {
    if !reports(records[one], body) {
        after == records[one]
    } else if exists|other: u64| overlaps(records, one, other, body) {
        exists|other: u64| #[trigger]
            overlaps(records, one, other, body) && after == with_report(
                records[one],
                body,
                true,
                Some(Entity { bits: other }),
            )
    } else {
        after == with_report(records[one], body, false, None)
    }
}

/// Every record of `after` is what detection makes of the record that
/// `before` holds under the same handle.
pub open spec fn collisions_detected(
    before: Map<u64, Components>,
    after: Map<u64, Components>,
    body: bool,
) -> bool {
    &&& after.dom() == before.dom()
    &&& forall|bits: u64| #[trigger]
        before.contains_key(bits) ==> detected(before, bits, after[bits], body)
}

/// Whether a record takes part in the collisions of one family.
fn is_taking_part(record: &Components, body: bool) -> (taking: bool)
    ensures
        taking == takes_part(*record, body),
{
    record.collision_box.is_some() && if body {
        record.body_collision.is_some()
    } else {
        record.trigger_collision.is_some()
    }
}

/// The first of the listed entities, other than the one at `index`, that
/// overlaps it.
fn find_partner(records: &Vec<Components>, index: usize, body: bool) -> (found: Option<usize>)
    requires
        index < records.len(),
        takes_part(records@[index as int], body),
    ensures
        found is Some ==> found.unwrap() < records.len() && found.unwrap() != index && takes_part(
            records@[found.unwrap() as int],
            body,
        ) && boxes_colliding(
            records@[index as int].collision_box.unwrap().rect,
            records@[found.unwrap() as int].collision_box.unwrap().rect,
        ),
        found is None ==> forall|j: int|
            0 <= j < records.len() && j != index && takes_part(#[trigger] records@[j], body)
                ==> !boxes_colliding(
                records@[index as int].collision_box.unwrap().rect,
                records@[j].collision_box.unwrap().rect,
            ),
{
    let own = records[index].collision_box.unwrap().rect;
    let mut j: usize = 0;
    while j < records.len()
        invariant
            j <= records.len(),
            index < records.len(),
            takes_part(records@[index as int], body),
            own == records@[index as int].collision_box.unwrap().rect,
            forall|k: int|
                0 <= k < j && k != index && takes_part(#[trigger] records@[k], body)
                    ==> !boxes_colliding(own, records@[k].collision_box.unwrap().rect),
        decreases records.len() - j,
    {
        if j != index && is_taking_part(&records[j], body) {
            let other = records[j].collision_box.unwrap().rect;
            if are_boxes_colliding(&own, &other) {
                return Some(j);
            }
        }
        j = j + 1;
    }
    None
}

/// The records of the listed entities, in the order of the list.
fn snapshot(world: &Colony, entities: &Vec<Entity>) -> (records: Vec<Components>)
    requires
        lists_records(entities@, world.records()),
    ensures
        records@.len() == entities@.len(),
        forall|j: int|
            0 <= j < entities@.len() ==> #[trigger] records@[j] == world.records()[entities@[j].bits],
{
    let mut records: Vec<Components> = Vec::new();
    let mut k: usize = 0;
    while k < entities.len()
        invariant
            k <= entities.len(),
            records@.len() == k,
            lists_records(entities@, world.records()),
            forall|j: int|
                0 <= j < k ==> #[trigger] records@[j] == world.records()[entities@[j].bits],
        decreases entities.len() - k,
    {
        let record = world.get(entities[k]).unwrap();
        records.push(record);
        k = k + 1;
    }
    records
}

/// What the found partner says about the entity at `index`.
proof fn lemma_partner_decides(
    entities: Seq<Entity>,
    before: Map<u64, Components>,
    records: Seq<Components>,
    index: int,
    found: Option<usize>,
    body: bool,
)
    requires
        lists_records(entities, before),
        records.len() == entities.len(),
        forall|j: int| 0 <= j < entities.len() ==> #[trigger] records[j] == before[entities[j].bits],
        0 <= index < entities.len(),
        takes_part(records[index], body),
        found is Some ==> found.unwrap() < records.len() && found.unwrap() != index && takes_part(
            records[found.unwrap() as int],
            body,
        ) && boxes_colliding(
            records[index].collision_box.unwrap().rect,
            records[found.unwrap() as int].collision_box.unwrap().rect,
        ),
        found is None ==> forall|j: int|
            0 <= j < records.len() && j != index && takes_part(#[trigger] records[j], body)
                ==> !boxes_colliding(
                records[index].collision_box.unwrap().rect,
                records[j].collision_box.unwrap().rect,
            ),
    ensures
        found is Some ==> overlaps(
            before,
            entities[index].bits,
            entities[found.unwrap() as int].bits,
            body,
        ),
        found is None ==> !exists|other: u64| overlaps(before, entities[index].bits, other, body),
{
    if found is Some {
        let j = found.unwrap() as int;
        assert(records[j] == before[entities[j].bits]);
        assert(records[index] == before[entities[index].bits]);
        if index < j {
            assert(entities[index].bits != entities[j].bits);
        } else {
            assert(entities[j].bits != entities[index].bits);
        }
    } else {
        assert forall|other: u64| !overlaps(before, entities[index].bits, other, body) by {
            if overlaps(before, entities[index].bits, other, body) {
                let j = choose|j: int| 0 <= j < entities.len() && entities[j].bits == other;
                assert(records[j] == before[entities[j].bits]);
                assert(records[index] == before[entities[index].bits]);
                assert(j != index);
                assert(takes_part(records[j], body));
            }
        }
    }
}

/// Detection for one family of collisions.
fn detect_collisions(world: &mut Colony, body: bool)
    requires
        old(world).wf(),
    ensures
        collisions_detected(old(world).records(), final(world).records(), body),
        final(world).same_tasks(*old(world)),
        final(world).count() == old(world).count(),
        final(world).wf(),
{
    let entities = world.entities();
    let records = snapshot(world, &entities);
    let mut i: usize = 0;
    while i < entities.len()
        invariant
            i <= entities.len(),
            lists_records(entities@, old(world).records()),
            records@.len() == entities@.len(),
            forall|j: int|
                0 <= j < entities@.len() ==> #[trigger] records@[j] == old(world).records()[entities@[j].bits],
            world.wf(),
            world.records().dom() =~= old(world).records().dom(),
            forall|j: int|
                0 <= j < i ==> detected(
                    old(world).records(),
                    #[trigger] entities@[j].bits,
                    world.records()[entities@[j].bits],
                    body,
                ),
            forall|j: int|
                i <= j < entities.len() ==> world.records()[#[trigger] entities@[j].bits] == old(
                    world,
                ).records()[entities@[j].bits],
            world.same_tasks(*old(world)),
            world.count() == old(world).count(),
        decreases entities.len() - i,
    {
        let entity = entities[i];
        let mut record = records[i];
        assert(record == old(world).records()[entities@[i as int].bits]);
        let has_report = if body {
            record.body_collision.is_some()
        } else {
            record.trigger_collision.is_some()
        };
        if has_report {
            let mut found: Option<usize> = None;
            if is_taking_part(&record, body) {
                found = find_partner(&records, i, body);
                proof {
                    lemma_partner_decides(
                        entities@,
                        old(world).records(),
                        records@,
                        i as int,
                        found,
                        body,
                    );
                }
            }
            let other: Option<Entity> = match found {
                Some(j) => Some(entities[j]),
                None => None,
            };
            let colliding = found.is_some();
            if body {
                record.body_collision = Some(BodyCollision { colliding, other_body: other });
            } else {
                record.trigger_collision = Some(
                    TriggerCollision { colliding, other_trigger: other },
                );
            }
            world.set(entity, record);
            proof {
                if found is Some {
                    let partner = entities@[found.unwrap() as int];
                    assert(partner == Entity { bits: partner.bits });
                    assert(overlaps(old(world).records(), entity.bits, partner.bits, body));
                }
            }
        }
        i = i + 1;
    }
    proof {
        assert forall|bits: u64| #[trigger] old(world).records().contains_key(bits) implies detected(
            old(world).records(),
            bits,
            world.records()[bits],
            body,
        ) by {
            let j = choose|j: int| 0 <= j < entities@.len() && entities@[j].bits == bits;
            assert(detected(
                old(world).records(),
                entities@[j].bits,
                world.records()[entities@[j].bits],
                body,
            ));
        }
    }
}

/// Reports, for every solid body, whether its box runs into the box of
/// another solid body, and into whose.
pub fn detect_body_collisions(world: &mut Colony)
    requires
        old(world).wf(),
    ensures
        collisions_detected(old(world).records(), final(world).records(), true),
        final(world).same_tasks(*old(world)),
        final(world).count() == old(world).count(),
        final(world).wf(),
{
    detect_collisions(world, true);
}

/// Reports, for every sensor, whether its box overlaps the box of another
/// sensor, and whose.
pub fn detect_trigger_collisions(world: &mut Colony)
    requires
        old(world).wf(),
    ensures
        collisions_detected(old(world).records(), final(world).records(), false),
        final(world).same_tasks(*old(world)),
        final(world).count() == old(world).count(),
        final(world).wf(),
{
    detect_collisions(world, false);
}

} // verus!
