use vstd::prelude::*;
use crate::engine::enums::{BuildingType, GameResource};
use crate::game::buildings::datatypes::ItemList;

verus! {

/// What a building of each type costs: a warehouse 70 wood and 30 stone, a
/// house 50 wood.
pub open spec fn construction_cost(building_type: BuildingType) -> ItemList {
    match building_type {
        BuildingType::Warehouse => ItemList { wood: Some(70), stone: Some(30) },
        BuildingType::House => ItemList { wood: Some(50), stone: None },
    }
}

/// What a building of this type costs.
pub fn get_building_construction_cost(building_type: BuildingType) -> (cost: ItemList)
    ensures
        cost == construction_cost(building_type),
        building_type == BuildingType::Warehouse ==> cost@ == Map::<GameResource, int>::empty().insert(
            GameResource::Wood,
            70,
        ).insert(GameResource::Stone, 30),
        building_type == BuildingType::House ==> cost@ == Map::<GameResource, int>::empty().insert(
            GameResource::Wood,
            50,
        ),
{
    let mut cost = ItemList::new();
    match building_type {
        BuildingType::Warehouse => {
            cost.insert(GameResource::Wood, 70);
            cost.insert(GameResource::Stone, 30);
        },
        BuildingType::House => {
            cost.insert(GameResource::Wood, 50);
        },
    }
    cost
}

} // verus!
