use colony_sim::engine::enums::{BuildingType, GameResource};
use colony_sim::game::buildings::datatypes::{ConstructionStorage, ItemList, StorageSpace};
use colony_sim::game::buildings::step::{is_storage_empty, storage_has_required_resource};
use colony_sim::game::buildings::utils::get_building_construction_cost;

fn wood(amount: i32) -> ItemList {
    let mut list = ItemList::new();
    list.insert(GameResource::Wood, amount);
    list
}

#[test]
fn new_list_has_no_entry() {
    let list = ItemList::new();
    assert_eq!(list.get(GameResource::Wood), None);
    assert_eq!(list.get(GameResource::Stone), None);
    assert!(!list.contains_key(GameResource::Wood));
    assert_eq!(list.sum(), 0);
}

#[test]
fn insert_sets_one_entry_and_keeps_the_other() {
    let mut list = wood(7);
    list.insert(GameResource::Stone, 3);
    list.insert(GameResource::Wood, 9);
    assert_eq!(list.get(GameResource::Wood), Some(9));
    assert_eq!(list.get(GameResource::Stone), Some(3));
    assert_eq!(list.sum(), 12);
}

#[test]
fn resource_without_entry_is_never_available() {
    let storage = StorageSpace::new(ItemList::new());
    assert!(!storage_has_required_resource(&storage, GameResource::Wood, 0));
    assert!(!storage_has_required_resource(&storage, GameResource::Wood, -5));
}

#[test]
fn availability_is_what_is_on_hand_less_what_is_promised() {
    let mut storage = StorageSpace::new(wood(25));
    assert!(storage_has_required_resource(&storage, GameResource::Wood, 25));
    assert!(!storage_has_required_resource(&storage, GameResource::Wood, 26));
    storage.reserved_item_list.insert(GameResource::Wood, 20);
    assert!(storage_has_required_resource(&storage, GameResource::Wood, 5));
    assert!(!storage_has_required_resource(&storage, GameResource::Wood, 6));
    assert!(!storage_has_required_resource(&storage, GameResource::Stone, 1));
}

#[test]
fn withdrawal_beyond_stock_is_rejected() {
    let mut storage = StorageSpace::new(wood(15));
    assert!(storage.withdraw(GameResource::Wood, 10));
    assert_eq!(storage.item_list.get(GameResource::Wood), Some(5));
    assert!(!storage.withdraw(GameResource::Wood, 10));
    assert_eq!(storage.item_list.get(GameResource::Wood), Some(5));
}

#[test]
fn withdrawal_leaves_what_is_promised() {
    let mut storage = StorageSpace::new(wood(30));
    storage.reserved_item_list.insert(GameResource::Wood, 25);
    assert!(!storage.withdraw(GameResource::Wood, 10));
    assert_eq!(storage.item_list.get(GameResource::Wood), Some(30));
    assert!(storage.withdraw(GameResource::Wood, 5));
    assert_eq!(storage.item_list.get(GameResource::Wood), Some(25));
}

#[test]
fn withdrawal_of_a_resource_without_entry_is_rejected() {
    let mut storage = StorageSpace::new(wood(30));
    assert!(!storage.withdraw(GameResource::Stone, 1));
    assert_eq!(storage.item_list.get(GameResource::Stone), None);
    assert_eq!(storage.item_list.get(GameResource::Wood), Some(30));
}

#[test]
fn no_row_of_withdrawals_brings_stock_below_zero() {
    let mut storage = StorageSpace::new(wood(35));
    let requests = [10, 10, 10, 10, 3, 2, 1, 10];
    let mut done = Vec::new();
    for amount in requests {
        done.push(storage.withdraw(GameResource::Wood, amount));
        assert!(storage.item_list.get(GameResource::Wood).unwrap() >= 0);
    }
    assert_eq!(done, vec![true, true, true, false, true, true, false, false]);
    assert_eq!(storage.item_list.get(GameResource::Wood), Some(0));
}

#[test]
fn deposit_adds_and_makes_an_entry_where_there_was_none() {
    let mut storage = StorageSpace::new(wood(5));
    assert!(storage.deposit(GameResource::Wood, 10));
    assert!(storage.deposit(GameResource::Stone, 10));
    assert_eq!(storage.item_list.get(GameResource::Wood), Some(15));
    assert_eq!(storage.item_list.get(GameResource::Stone), Some(10));
}

#[test]
fn deposit_that_cannot_be_written_down_is_rejected() {
    let mut storage = StorageSpace::new(wood(i32::MAX - 3));
    assert!(!storage.deposit(GameResource::Wood, 4));
    assert_eq!(storage.item_list.get(GameResource::Wood), Some(i32::MAX - 3));
    assert!(storage.deposit(GameResource::Wood, 3));
    assert_eq!(storage.item_list.get(GameResource::Wood), Some(i32::MAX));
}

#[test]
fn delivery_is_taken_off_what_a_site_needs() {
    let mut site = ConstructionStorage::new(wood(50));
    site.place(GameResource::Wood, 10);
    assert_eq!(site.required_item_list.get(GameResource::Wood), Some(40));
    assert!(!site.tasks_generated);
}

#[test]
fn what_a_site_needs_never_goes_below_zero() {
    let mut site = ConstructionStorage::new(wood(5));
    site.place(GameResource::Wood, 10);
    assert_eq!(site.required_item_list.get(GameResource::Wood), Some(0));
}

#[test]
fn delivery_of_what_was_not_asked_for_changes_nothing() {
    let mut site = ConstructionStorage::new(wood(50));
    site.place(GameResource::Stone, 10);
    assert_eq!(site.required_item_list.get(GameResource::Stone), None);
    assert_eq!(site.required_item_list.get(GameResource::Wood), Some(50));
}

#[test]
fn a_list_is_empty_when_it_sums_to_zero_or_less() {
    assert!(is_storage_empty(&ItemList::new()));
    assert!(is_storage_empty(&wood(0)));
    assert!(!is_storage_empty(&wood(1)));
    let mut list = wood(5);
    list.insert(GameResource::Stone, -5);
    assert!(is_storage_empty(&list));
}

#[test]
fn a_warehouse_costs_wood_and_stone() {
    let cost = get_building_construction_cost(BuildingType::Warehouse);
    assert_eq!(cost.get(GameResource::Wood), Some(70));
    assert_eq!(cost.get(GameResource::Stone), Some(30));
}

#[test]
fn a_house_costs_wood_only() {
    let cost = get_building_construction_cost(BuildingType::House);
    assert_eq!(cost.get(GameResource::Wood), Some(50));
    assert_eq!(cost.get(GameResource::Stone), None);
}
