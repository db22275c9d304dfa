use vstd::prelude::*;

use crate::resources::{DEFAULT_FOOD_CAPACITY, DEFAULT_WATER_CAPACITY};
use crate::str_map::{quantity_in, StrMap};

verus! {

/// `a + b`, saturating at `u32::MAX`.
pub open spec fn saturating_sum(a: u32, b: u32) -> u32 {
    if a + b > u32::MAX {
        u32::MAX
    } else {
        (a + b) as u32
    }
}

/// The capacity that `capacity` gives a name; a name without one is limited only by
/// `u32::MAX`.
pub open spec fn capacity_in(capacity: Map<Seq<char>, u32>, name: Seq<char>) -> u32 {
    if capacity.contains_key(name) {
        capacity[name]
    } else {
        u32::MAX
    }
}

/// Adding `amount` of `name` to `resources` under `capacity`: the resources after, with
/// whether anything could be added and how much was actually added. The sum saturates
/// at `u32::MAX`, and only what fits below it counts as added; past the capacity the
/// quantity is set to the capacity and the count is what was missing up to it.
pub open spec fn spec_add_resource(
    resources: Map<Seq<char>, u32>,
    capacity: Map<Seq<char>, u32>,
    name: Seq<char>,
    amount: u32,
) -> (Map<Seq<char>, u32>, (bool, u32)) {
    let current = quantity_in(resources, name);
    let cap = capacity_in(capacity, name);
    let new_total = saturating_sum(current, amount);
    if amount == 0 {
        (resources, (true, 0u32))
    } else if new_total > cap {
        let actual: u32 = if cap > current { (cap - current) as u32 } else { 0 };
        (resources.insert(name, cap), (actual > 0, actual))
    } else {
        let actual: u32 = (new_total - current) as u32;
        (resources.insert(name, new_total), (actual > 0, actual))
    }
}

/// Taking `amount` of `name` from `resources`: the resources after, with whether the
/// whole amount was there and how much was taken. Where less is held, all of it is
/// taken; a quantity that reaches zero leaves the inventory.
pub open spec fn spec_remove_resource(resources: Map<Seq<char>, u32>, name: Seq<char>, amount: u32) -> (
    Map<Seq<char>, u32>,
    (bool, u32),
) {
    let current = quantity_in(resources, name);
    if amount == 0 {
        (resources, (true, 0u32))
    } else if current < amount {
        (resources.remove(name), (false, current))
    } else if current == amount {
        (resources.remove(name), (true, amount))
    } else {
        (resources.insert(name, (current - amount) as u32), (true, amount))
    }
}

/// Every quantity held is within its capacity.
pub open spec fn held_within(resources: Map<Seq<char>, u32>, capacity: Map<Seq<char>, u32>) -> bool {
    forall|k: Seq<char>| #[trigger] resources.contains_key(k) ==> resources[k] <= capacity_in(capacity, k)
}

/// Adding changes only the named quantity, and, within capacity and below `u32::MAX`,
/// by exactly the amount reported; taking lowers the named quantity by exactly the
/// amount reported. So taking back what was reported added restores every quantity.
pub proof fn lemma_add_then_remove_restores(
    resources: Map<Seq<char>, u32>,
    capacity: Map<Seq<char>, u32>,
    name: Seq<char>,
    amount: u32,
)
    requires
        held_within(resources, capacity),
        quantity_in(resources, name) + amount <= u32::MAX,
    ensures
        ({
            let (added, (_, actual)) = spec_add_resource(resources, capacity, name, amount);
            let (restored, (ok, taken)) = spec_remove_resource(added, name, actual);
            &&& quantity_in(added, name) == quantity_in(resources, name) + actual
            &&& forall|k: Seq<char>| k != name ==> #[trigger] quantity_in(added, k) == quantity_in(resources, k)
            &&& ok && taken == actual
            &&& forall|k: Seq<char>| #[trigger] quantity_in(restored, k) == quantity_in(resources, k)
        }),
{
    if resources.contains_key(name) {
        assert(resources[name] <= capacity_in(capacity, name));
    }
}

/// Taking lowers the named quantity by exactly the amount reported taken and leaves
/// every other quantity as it was.
pub proof fn lemma_remove_takes_reported(resources: Map<Seq<char>, u32>, name: Seq<char>, amount: u32)
    ensures
        ({
            let (after, (_, taken)) = spec_remove_resource(resources, name, amount);
            &&& quantity_in(after, name) == quantity_in(resources, name) - taken
            &&& forall|k: Seq<char>| k != name ==> #[trigger] quantity_in(after, k) == quantity_in(resources, k)
        }),
{
}

/// An agent's resources, each with an optional capacity.
#[derive(Debug, Clone)]
pub struct AgentInventory {
    pub resources: StrMap<u32>,
    pub capacity: StrMap<u32>,
}

impl AgentInventory {
    /// The quantity held under a name, zero where none is held.
    pub open spec fn spec_quantity(&self, name: Seq<char>) -> u32 {
        quantity_in(self.resources@, name)
    }

    /// The capacity for a name; a name without a capacity is limited only by `u32::MAX`.
    pub open spec fn spec_capacity(&self, name: Seq<char>) -> u32 {
        capacity_in(self.capacity@, name)
    }

    /// No resource is held beyond its capacity.
    pub open spec fn within_capacity(&self) -> bool {
        held_within(self.resources@, self.capacity@)
    }

    pub fn new(capacities: StrMap<u32>) -> (inv: Self)
        ensures
            inv.resources@ == Map::<Seq<char>, u32>::empty(),
            inv.capacity@ == capacities@,
    {
        AgentInventory { resources: StrMap::new(), capacity: capacities }
    }

    /// Adds up to `amount` of `resource`, stopping at its capacity and at `u32::MAX`.
    /// Returns whether anything could be added and how much was actually added.
    pub fn add_resource(&mut self, resource: &str, amount: u32) -> (r: (bool, u32))
        ensures
            final(self).capacity@ == old(self).capacity@,
            (final(self).resources@, r) == spec_add_resource(old(self).resources@, old(self).capacity@, resource@, amount),
            old(self).within_capacity() ==> final(self).within_capacity(),
    {
        if amount == 0 {
            return (true, 0);
        }
        let current = self.resources.quantity(resource);
        let cap = match self.capacity.get(resource) {
            Some(c) => *c,
            None => u32::MAX,
        };
        let new_total = current.saturating_add(amount);
        if new_total > cap {
            let actual = cap.saturating_sub(current);
            self.resources.insert(resource.to_owned(), cap);
            (actual > 0, actual)
        } else {
            let actual = new_total - current;
            self.resources.insert(resource.to_owned(), new_total);
            (actual > 0, actual)
        }
    }

    /// Takes `amount` of `resource`. Where less is held, all of it is taken and the
    /// call reports failure with the quantity that was taken.
    pub fn remove_resource(&mut self, resource: &str, amount: u32) -> (r: (bool, u32))
        ensures
            final(self).capacity@ == old(self).capacity@,
            (final(self).resources@, r) == spec_remove_resource(old(self).resources@, resource@, amount),
            old(self).within_capacity() ==> final(self).within_capacity(),
    {
        if amount == 0 {
            return (true, 0);
        }
        let current = self.resources.quantity(resource);
        if current < amount {
            self.resources.remove(resource);
            return (false, current);
        }
        let new_val = current - amount;
        if new_val == 0 {
            self.resources.remove(resource);
        } else {
            self.resources.insert(resource.to_owned(), new_val);
        }
        (true, amount)
    }

    pub fn has_resource(&self, resource: &str) -> (r: bool)
        ensures
            r == (self.spec_quantity(resource@) > 0),
    {
        self.resources.quantity(resource) > 0
    }

    pub fn resource_quantity(&self, resource: &str) -> (r: u32)
        ensures
            r == self.spec_quantity(resource@),
    {
        self.resources.quantity(resource)
    }
}

/// An empty inventory that holds at most 10 food and 5 water.
pub fn default_inventory() -> (inv: AgentInventory)
    ensures
        inv.resources@ == Map::<Seq<char>, u32>::empty(),
        inv.capacity@ == Map::<Seq<char>, u32>::empty().insert("food"@, DEFAULT_FOOD_CAPACITY).insert(
            "water"@,
            DEFAULT_WATER_CAPACITY,
        ),
{
    let mut caps = StrMap::new();
    caps.insert("food".to_owned(), DEFAULT_FOOD_CAPACITY);
    caps.insert("water".to_owned(), DEFAULT_WATER_CAPACITY);
    AgentInventory::new(caps)
}

} // verus!
