use vstd::prelude::*;
use crate::engine::collision::CollisionBox;
use crate::engine::datatypes::{Position, Rectangle, Sprite};
use crate::engine::world::{
    each_record_changed, lemma_listed_records_changed, lists_records, Colony, Components, Entity,
};
use crate::game::buildings::datatypes::ConstructionPlacement;
use crate::game::constants::TILE_SIZE;

verus! {

/// The corner of the tile that a coordinate snaps to. From the origin on it
/// is the tile that the coordinate lies in. Before the origin it is the tile
/// before the one that the coordinate, rounded towards the origin, falls on.
pub open spec fn snapped(coordinate: int) -> int {
    if coordinate >= 0 {
        (coordinate / (TILE_SIZE as int)) * TILE_SIZE
    } else {
        (-((-coordinate) / (TILE_SIZE as int)) - 1) * TILE_SIZE
    }
}

/// Whether a coordinate is far enough from the least one for its tile to be
/// written down.
pub open spec fn can_snap(coordinate: int) -> bool {
    i32::MIN + 2 * TILE_SIZE <= coordinate
}

/// The corner of the tile that a coordinate snaps to.
pub fn snap_to_tile(coordinate: i32) -> (corner: i32)
    requires
        can_snap(coordinate as int),
    ensures
        corner == snapped(coordinate as int),
{
    if coordinate >= 0 {
        let tile: i32 = coordinate / TILE_SIZE;
        assert(0 <= tile * TILE_SIZE <= coordinate) by (nonlinear_arith)
            requires
                tile == coordinate / TILE_SIZE,
                TILE_SIZE == 16000,
                0 <= coordinate,
        ;
        tile * TILE_SIZE
    } else {
        let magnitude: i64 = -(coordinate as i64);
        let tile: i64 = magnitude / (TILE_SIZE as i64);
        assert(0 <= tile * TILE_SIZE <= magnitude) by (nonlinear_arith)
            requires
                tile == (magnitude as int) / (TILE_SIZE as int),
                TILE_SIZE == 16000,
                0 <= magnitude,
        ;
        let corner: i64 = (-tile - 1) * (TILE_SIZE as i64);
        assert(corner == (-tile - 1) * TILE_SIZE && corner >= -magnitude - TILE_SIZE)
            by (nonlinear_arith)
            requires
                corner == (-tile - 1) * (TILE_SIZE as i64),
                tile * TILE_SIZE <= magnitude,
                TILE_SIZE == 16000,
        ;
        corner as i32
    }
}

/// The record of a site that is being placed, moved to the tile under
/// `mouse_pos`: placement, box and sprite stand at the tile's corner. Any
/// other record stays as it is.
pub open spec fn hovering(record: Components, mouse_pos: Position) -> Components {
    if record.construction_placement is Some && record.collision_box is Some && record.sprite
        is Some {
        let corner = Position {
            x: snapped(mouse_pos.x as int) as i32,
            y: snapped(mouse_pos.y as int) as i32,
        };
        Components {
            construction_placement: Some(
                ConstructionPlacement { position: corner, ..record.construction_placement.unwrap() },
            ),
            collision_box: Some(
                CollisionBox {
                    rect: Rectangle {
                        x: corner.x,
                        y: corner.y,
                        ..record.collision_box.unwrap().rect
                    },
                },
            ),
            sprite: Some(Sprite { position: corner, ..record.sprite.unwrap() }),
            ..record
        }
    } else {
        record
    }
}

/// Moves every site that is being placed to the tile under `mouse_pos`, a
/// point of the world.
pub fn update_construction_hover(world: &mut Colony, mouse_pos: Position)
    requires
        old(world).wf(),
        can_snap(mouse_pos.x as int),
        can_snap(mouse_pos.y as int),
    ensures
        final(world).wf(),
        each_record_changed(
            old(world).records(),
            final(world).records(),
            |record: Components| hovering(record, mouse_pos),
        ),
        final(world).same_tasks(*old(world)),
        final(world).count() == old(world).count(),
{
    let corner = Position { x: snap_to_tile(mouse_pos.x), y: snap_to_tile(mouse_pos.y) };
    let entities = world.entities();
    let mut i: usize = 0;
    while i < entities.len()
        invariant
            i <= entities.len(),
            lists_records(entities@, old(world).records()),
            corner.x == snapped(mouse_pos.x as int),
            corner.y == snapped(mouse_pos.y as int),
            world.wf(),
            world.records().dom() =~= old(world).records().dom(),
            forall|j: int|
                0 <= j < i ==> world.records()[#[trigger] entities@[j].bits] == hovering(
                    old(world).records()[entities@[j].bits],
                    mouse_pos,
                ),
            forall|j: int|
                i <= j < entities.len() ==> world.records()[#[trigger] entities@[j].bits] == old(
                    world,
                ).records()[entities@[j].bits],
            world.same_tasks(*old(world)),
            world.count() == old(world).count(),
        decreases entities.len() - i,
    {
        let entity = entities[i];
        let mut record = world.get(entity).unwrap();
        if let Some(placement) = record.construction_placement {
            if let Some(col_box) = record.collision_box {
                if let Some(sprite) = record.sprite {
                    record.construction_placement = Some(
                        ConstructionPlacement {
                            position: corner,
                            building_rect: placement.building_rect,
                        },
                    );
                    record.collision_box = Some(
                        CollisionBox {
                            rect: Rectangle {
                                x: corner.x,
                                y: corner.y,
                                width: col_box.rect.width,
                                height: col_box.rect.height,
                            },
                        },
                    );
                    record.sprite = Some(Sprite { position: corner, rect: sprite.rect });
                    world.set(entity, record);
                }
            }
        }
        i = i + 1;
    }
    proof {
        lemma_listed_records_changed(
            entities@,
            old(world).records(),
            world.records(),
            |record: Components| hovering(record, mouse_pos),
        );
    }
}

/// A site that can be put down where it hovers: it is being placed, and its
/// sensor reports nothing in its way.
pub open spec fn is_placeable(record: Components) -> bool {
    &&& record.construction_placement is Some
    &&& record.trigger_collision is Some
    &&& record.sprite is Some
    &&& !record.trigger_collision.unwrap().colliding
}

/// The record of a placeable site with its sprite where it hovers. Any other
/// record stays as it is.
pub open spec fn settled(record: Components) -> Components {
    if is_placeable(record) {
        Components {
            sprite: Some(
                Sprite {
                    position: record.construction_placement.unwrap().position,
                    ..record.sprite.unwrap()
                },
            ),
            ..record
        }
    } else {
        record
    }
}

/// The record of the site that is put down: its sprite stands where it
/// hovered, and it is not being placed any more.
pub open spec fn put_down(record: Components) -> Components {
    Components { construction_placement: None, ..settled(record) }
}

/// What releasing the mouse button does: the sprite of every placeable site
/// settles where the site hovers, and one placeable site, if there is any,
/// is put down.
pub open spec fn placement_step(
    before: Map<u64, Components>,
    after: Map<u64, Components>,
) -> bool {
    &&& after.dom() == before.dom()
    &&& if exists|bits: u64| before.contains_key(bits) && is_placeable(#[trigger] before[bits]) {
        exists|chosen: u64|
            {
                &&& before.contains_key(chosen)
                &&& is_placeable(before[chosen])
                &&& #[trigger] after[chosen] == put_down(before[chosen])
                &&& forall|bits: u64|
                    before.contains_key(bits) && bits != chosen ==> #[trigger] after[bits]
                        == settled(before[bits])
            }
    } else {
        after == before
    }
}

/// Puts a site down where it hovers, once the mouse button was released and
/// nothing is in the site's way.
pub fn place_hovering_building(world: &mut Colony, released: bool) -> (result: Result<(), String>)
    requires
        old(world).wf(),
    ensures
        result is Ok,
        final(world).wf(),
        final(world).same_tasks(*old(world)),
        final(world).count() == old(world).count(),
        released ==> placement_step(old(world).records(), final(world).records()),
        !released ==> final(world).records() == old(world).records(),
{
    if !released {
        return Ok(());
    }
    let entities = world.entities();
    let mut m_building: Option<Entity> = None;
    let mut i: usize = 0;
    while i < entities.len()
        invariant
            i <= entities.len(),
            lists_records(entities@, old(world).records()),
            world.wf(),
            world.records().dom() =~= old(world).records().dom(),
            forall|j: int|
                0 <= j < i ==> world.records()[#[trigger] entities@[j].bits] == settled(
                    old(world).records()[entities@[j].bits],
                ),
            forall|j: int|
                i <= j < entities.len() ==> world.records()[#[trigger] entities@[j].bits] == old(
                    world,
                ).records()[entities@[j].bits],
            m_building is Some ==> old(world).has(m_building.unwrap()) && is_placeable(
                old(world).record(m_building.unwrap()),
            ),
            m_building is None ==> forall|j: int|
                0 <= j < i ==> !is_placeable(old(world).records()[#[trigger] entities@[j].bits]),
            world.same_tasks(*old(world)),
            world.count() == old(world).count(),
        decreases entities.len() - i,
    {
        let entity = entities[i];
        let mut record = world.get(entity).unwrap();
        if let Some(placement) = record.construction_placement {
            if let Some(trigger) = record.trigger_collision {
                if let Some(sprite) = record.sprite {
                    if !trigger.colliding {
                        record.sprite = Some(
                            Sprite { position: placement.position, rect: sprite.rect },
                        );
                        world.set(entity, record);
                        m_building = Some(entity);
                    }
                }
            }
        }
        i = i + 1;
    }
    proof {
        lemma_listed_records_changed(
            entities@,
            old(world).records(),
            world.records(),
            |record: Components| settled(record),
        );
    }
    if let Some(building) = m_building {
        let mut record = world.get(building).unwrap();
        record.construction_placement = None;
        world.set(building, record);
        proof {
            let chosen = building.bits;
            assert(world.records()[chosen] == put_down(old(world).records()[chosen]));
            assert(world.records().dom() =~= old(world).records().dom());
        }
    } else {
        proof {
            assert forall|bits: u64| old(world).records().contains_key(bits) implies !is_placeable(
                #[trigger] old(world).records()[bits],
            ) by {
                let j = choose|j: int| 0 <= j < entities@.len() && entities@[j].bits == bits;
                assert(!is_placeable(old(world).records()[entities@[j].bits]));
            }
            assert(world.records() =~= old(world).records());
        }
    }
    Ok(())
}

} // verus!
