use vstd::prelude::*;
use crate::engine::datatypes::{Position, Rectangle};
use crate::engine::enums::GameResource;

verus! {

/// Tag of every building.
#[derive(Debug, Clone, Copy, PartialEq, Eq, Structural)]
pub struct Building;

/// Tag of a warehouse.
#[derive(Debug, Clone, Copy, PartialEq, Eq, Structural)]
pub struct Warehouse;

/// Tag of a house.
#[derive(Debug, Clone, Copy, PartialEq, Eq, Structural)]
pub struct House;

/// Tag of a building that stores resources.
#[derive(Debug, Clone, Copy, PartialEq, Eq, Structural)]
pub struct Storage;

/// Quantities by resource. A resource without an entry is absent from the
/// list, which is not the same as an entry of zero.
#[derive(Debug, Clone, Copy, PartialEq, Eq, Structural)]
pub struct ItemList {
    pub wood: Option<i32>,
    pub stone: Option<i32>,
}

impl View for ItemList {
    type V = Map<GameResource, int>;

    open spec fn view(&self) -> Map<GameResource, int> {
        Map::new(
            |resource: GameResource| self.entry(resource) is Some,
            |resource: GameResource| self.entry(resource).unwrap() as int,
        )
    }
}

impl ItemList {
    /// The entry of a resource, as it is stored.
    pub open spec fn entry(&self, resource: GameResource) -> Option<i32> {
        match resource {
            GameResource::Wood => self.wood,
            GameResource::Stone => self.stone,
        }
    }

    /// The list with the entry of `resource` set to `amount`.
    pub open spec fn with_entry(&self, resource: GameResource, amount: i32) -> ItemList {
        match resource {
            GameResource::Wood => ItemList { wood: Some(amount), stone: self.stone },
            GameResource::Stone => ItemList { wood: self.wood, stone: Some(amount) },
        }
    }

    /// The sum of all entries.
    pub open spec fn total(&self) -> int {
        (if self.wood is Some { self.wood.unwrap() as int } else { 0 })
            + (if self.stone is Some { self.stone.unwrap() as int } else { 0 })
    }

    /// The list without any entry.
    pub fn new() -> (list: ItemList)
        ensures
            list == (ItemList { wood: None, stone: None }),
            list@ == Map::<GameResource, int>::empty(),
    {
        let list = ItemList { wood: None, stone: None };
        assert(list@ =~= Map::<GameResource, int>::empty());
        list
    }

    /// Whether the list has an entry for a resource.
    pub fn contains_key(&self, resource: GameResource) -> (present: bool)
        ensures
            present == self@.contains_key(resource),
    {
        self.get(resource).is_some()
    }

    /// The entry of a resource, if the list has one.
    pub fn get(&self, resource: GameResource) -> (amount: Option<i32>)
        ensures
            amount == self.entry(resource),
            amount is Some <==> self@.contains_key(resource),
            amount is Some ==> amount.unwrap() == self@[resource],
    {
        match resource {
            GameResource::Wood => self.wood,
            GameResource::Stone => self.stone,
        }
    }

    /// Sets the entry of `resource`, whether or not there was one.
    pub fn insert(&mut self, resource: GameResource, amount: i32)
        ensures
            *final(self) == old(self).with_entry(resource, amount),
            final(self)@ == old(self)@.insert(resource, amount as int),
            final(self).entry(resource) == Some(amount),
            forall|other: GameResource| other != resource ==> final(self).entry(other) == old(self).entry(other),
    {
        match resource {
            GameResource::Wood => {
                self.wood = Some(amount);
            },
            GameResource::Stone => {
                self.stone = Some(amount);
            },
        }
        assert(self@ =~= old(self)@.insert(resource, amount as int));
    }

    /// The sum of all entries.
    pub fn sum(&self) -> (sum: i64)
        ensures
            sum == self.total(),
    {
        let wood: i64 = match self.wood {
            Some(amount) => amount as i64,
            None => 0,
        };
        let stone: i64 = match self.stone {
            Some(amount) => amount as i64,
            None => 0,
        };
        wood + stone
    }
}

/// A site that the player is still placing.
#[derive(Debug, Clone, Copy, PartialEq, Eq, Structural)]
pub struct ConstructionPlacement {
    pub position: Position,
    pub building_rect: Rectangle,
}

/// The inventory of a storage building: what is on hand, and how much of it
/// is promised to tasks.
#[derive(Debug, Clone, Copy, PartialEq, Eq, Structural)]
pub struct StorageSpace {
    pub item_list: ItemList,
    pub reserved_item_list: ItemList,
}

/// What a construction site still needs.
#[derive(Debug, Clone, Copy, PartialEq, Eq, Structural)]
pub struct ConstructionStorage {
    pub tasks_generated: bool,
    pub required_item_list: ItemList,
}

/// A site that has all its resources and waits for work.
#[derive(Debug, Clone, Copy, PartialEq, Eq, Structural)]
pub struct OngoingConstruction {
    pub work_required: i32,
}

impl StorageSpace {
    /// What is on hand of a resource; nothing where the list has no entry.
    pub open spec fn on_hand(&self, resource: GameResource) -> int {
        if self.item_list@.contains_key(resource) {
            self.item_list@[resource]
        } else {
            0
        }
    }

    /// What is promised of a resource; nothing where the list has no entry.
    pub open spec fn reserved(&self, resource: GameResource) -> int {
        if self.reserved_item_list@.contains_key(resource) {
            self.reserved_item_list@[resource]
        } else {
            0
        }
    }

    /// No promise is negative, and none exceeds what is on hand.
    pub open spec fn wf(&self) -> bool {
        forall|resource: GameResource|
            0 <= #[trigger] self.reserved(resource) <= self.on_hand(resource)
    }

    /// Whether `amount` of a resource can be taken without touching what is
    /// promised. A resource without an entry is never available.
    pub open spec fn has_available(&self, resource: GameResource, amount: int) -> bool {
        self.item_list@.contains_key(resource) && self.on_hand(resource) - self.reserved(
            resource,
        ) >= amount
    }

    /// Whether a withdrawal is carried out: the amount is available, and what
    /// is left can be written down.
    pub open spec fn can_withdraw(&self, resource: GameResource, amount: int) -> bool {
        self.has_available(resource, amount) && self.on_hand(resource) - amount <= i32::MAX
    }

    /// The inventory after a withdrawal; the same inventory where the
    /// withdrawal is rejected.
    pub open spec fn after_withdraw(&self, resource: GameResource, amount: int) -> StorageSpace {
        if self.can_withdraw(resource, amount) {
            StorageSpace {
                item_list: self.item_list.with_entry(
                    resource,
                    (self.on_hand(resource) - amount) as i32,
                ),
                reserved_item_list: self.reserved_item_list,
            }
        } else {
            *self
        }
    }

    /// Whether a deposit is carried out: the new quantity can be written down.
    pub open spec fn can_deposit(&self, resource: GameResource, amount: int) -> bool {
        i32::MIN <= self.on_hand(resource) + amount <= i32::MAX
    }

    /// The inventory after a deposit; the same inventory where the deposit is
    /// rejected.
    pub open spec fn after_deposit(&self, resource: GameResource, amount: int) -> StorageSpace {
        if self.can_deposit(resource, amount) {
            StorageSpace {
                item_list: self.item_list.with_entry(
                    resource,
                    (self.on_hand(resource) + amount) as i32,
                ),
                reserved_item_list: self.reserved_item_list,
            }
        } else {
            *self
        }
    }

    /// An inventory that holds `item_list` and has promised nothing.
    pub fn new(item_list: ItemList) -> (storage: StorageSpace)
        ensures
            storage.item_list == item_list,
            storage.reserved_item_list@ == Map::<GameResource, int>::empty(),
    {
        StorageSpace { item_list, reserved_item_list: ItemList::new() }
    }

    /// Takes `amount` of a resource out, unless that would touch what is
    /// promised or the resource has no entry: then nothing changes.
    pub fn withdraw(&mut self, resource: GameResource, amount: i32) -> (done: bool)
        ensures
            done == old(self).can_withdraw(resource, amount as int),
            *final(self) == old(self).after_withdraw(resource, amount as int),
            old(self).wf() ==> final(self).wf(),
            old(self).wf() ==> final(self).on_hand(resource) >= 0,
    {
        let reserved: i64 = match self.reserved_item_list.get(resource) {
            Some(promised) => promised as i64,
            None => 0,
        };
        match self.item_list.get(resource) {
            Some(on_hand) => {
                let left: i64 = on_hand as i64 - amount as i64;
                if left >= reserved && left <= i32::MAX as i64 {
                    self.item_list.insert(resource, left as i32);
                    proof {
                        assert(self.item_list == old(self).item_list.with_entry(resource, left as i32));
                        if old(self).wf() {
                            lemma_withdraw_keeps_wf(*old(self), resource, amount as int);
                        }
                    }
                    true
                } else {
                    false
                }
            },
            None => false,
        }
    }

    /// Puts `amount` of a resource in, with a new entry where there was none.
    /// Nothing changes where the new quantity cannot be written down.
    pub fn deposit(&mut self, resource: GameResource, amount: i32) -> (done: bool)
        ensures
            done == old(self).can_deposit(resource, amount as int),
            *final(self) == old(self).after_deposit(resource, amount as int),
    {
        let on_hand: i64 = match self.item_list.get(resource) {
            Some(quantity) => quantity as i64,
            None => 0,
        };
        let sum: i64 = on_hand + amount as i64;
        if sum >= i32::MIN as i64 && sum <= i32::MAX as i64 {
            self.item_list.insert(resource, sum as i32);
            assert(self.item_list == old(self).item_list.with_entry(resource, sum as i32));
            true
        } else {
            false
        }
    }
}

/// A withdrawal, carried out or rejected, leaves a well-formed inventory
/// well-formed, and so leaves no quantity below zero.
pub proof fn lemma_withdraw_keeps_wf(storage: StorageSpace, resource: GameResource, amount: int)
    requires
        storage.wf(),
    ensures
        storage.after_withdraw(resource, amount).wf(),
        forall|other: GameResource| storage.after_withdraw(resource, amount).on_hand(other) >= 0,
{
    let after = storage.after_withdraw(resource, amount);
    assert forall|other: GameResource| 0 <= #[trigger] after.reserved(other) <= after.on_hand(other) by {
        assert(0 <= storage.reserved(other) <= storage.on_hand(other));
    }
    assert forall|other: GameResource| after.on_hand(other) >= 0 by {
        assert(0 <= after.reserved(other) <= after.on_hand(other));
    }
}

/// A quantity still needed after a delivery: never below zero, and never
/// more than can be written down.
pub open spec fn clamp_required(quantity: int) -> int {
    if quantity < 0 {
        0
    } else if quantity > i32::MAX {
        i32::MAX as int
    } else {
        quantity
    }
}

impl ConstructionStorage {
    /// The ledger after `amount` of a resource was delivered. A resource that
    /// the site never asked for changes nothing.
    pub open spec fn after_delivery(&self, resource: GameResource, amount: int) -> ConstructionStorage {
        if self.required_item_list@.contains_key(resource) {
            ConstructionStorage {
                tasks_generated: self.tasks_generated,
                required_item_list: self.required_item_list.with_entry(
                    resource,
                    clamp_required(self.required_item_list@[resource] - amount) as i32,
                ),
            }
        } else {
            *self
        }
    }

    /// Whether nothing is needed any more.
    pub open spec fn is_complete(&self) -> bool {
        self.required_item_list.total() <= 0
    }

    /// The ledger of a new site that needs `required_item_list`.
    pub fn new(required_item_list: ItemList) -> (construction: ConstructionStorage)
        ensures
            construction == (ConstructionStorage { tasks_generated: false, required_item_list }),
    {
        ConstructionStorage { tasks_generated: false, required_item_list }
    }

    /// Takes a delivery off what is needed.
    pub fn place(&mut self, resource: GameResource, amount: i32)
        ensures
            *final(self) == old(self).after_delivery(resource, amount as int),
    {
        match self.required_item_list.get(resource) {
            Some(required) => {
                let left: i64 = required as i64 - amount as i64;
                let clamped: i32 = if left < 0 {
                    0
                } else if left > i32::MAX as i64 {
                    i32::MAX
                } else {
                    left as i32
                };
                self.required_item_list.insert(resource, clamped);
            },
            None => {},
        }
    }
}

/// The inventory after a row of withdrawals, each carried out or rejected
/// as the inventory stands when its turn comes.
pub open spec fn after_withdrawals(
    storage: StorageSpace,
    requests: Seq<(GameResource, int)>,
) -> StorageSpace
    decreases requests.len(),
{
    if requests.len() == 0 {
        storage
    } else {
        after_withdrawals(storage, requests.drop_last()).after_withdraw(
            requests.last().0,
            requests.last().1,
        )
    }
}

/// No row of withdrawals brings a quantity of a well-formed inventory below
/// zero, or below what is promised.
pub proof fn lemma_withdrawals_keep_stock(storage: StorageSpace, requests: Seq<(GameResource, int)>)
    requires
        storage.wf(),
    ensures
        after_withdrawals(storage, requests).wf(),
        forall|resource: GameResource| after_withdrawals(storage, requests).on_hand(resource) >= 0,
    decreases requests.len(),
{
    if requests.len() == 0 {
        assert forall|resource: GameResource| storage.on_hand(resource) >= 0 by {
            assert(0 <= storage.reserved(resource) <= storage.on_hand(resource));
        }
    } else {
        lemma_withdrawals_keep_stock(storage, requests.drop_last());
        lemma_withdraw_keeps_wf(
            after_withdrawals(storage, requests.drop_last()),
            requests.last().0,
            requests.last().1,
        );
    }
}

/// A deposit of nothing or more, carried out or rejected, leaves a
/// well-formed inventory well-formed.
pub proof fn lemma_deposit_keeps_wf(storage: StorageSpace, resource: GameResource, amount: int)
    requires
        storage.wf(),
        0 <= amount,
    ensures
        storage.after_deposit(resource, amount).wf(),
{
    let after = storage.after_deposit(resource, amount);
    assert forall|other: GameResource| 0 <= #[trigger] after.reserved(other) <= after.on_hand(
        other,
    ) by {
        assert(0 <= storage.reserved(other) <= storage.on_hand(other));
    }
}

} // verus!
