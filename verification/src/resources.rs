use vstd::prelude::*;

use crate::str_map::{quantity_in, same_text, StrMap};
use crate::text::{overflow_message, overflow_text, shortage_message, shortage_text};

verus! {

pub const DEFAULT_FOOD_CAPACITY: u32 = 10;
pub const DEFAULT_WATER_CAPACITY: u32 = 5;

pub const RAW_FOOD_INPUT_PER_CYCLE: u32 = 10;
pub const FOOD_OUTPUT_PER_CYCLE: u32 = 10;
pub const PRODUCTION_COOLDOWN_TICKS: u32 = 1;
pub const MIN_WORKERS_FOR_PRODUCTION: usize = 1;
pub const FOOD_PURCHASE_TARGET_INVENTORY: u32 = 5;

pub const WATER_PURCHASE_TARGET_INVENTORY: u32 = 3;
pub const RAW_WATER_INPUT_PER_CYCLE: u32 = 10;
pub const WATER_OUTPUT_PER_CYCLE: u32 = 10;

pub const SCARCITY_THRESHOLD_FOOD: u32 = 20;
pub const SCARCITY_THRESHOLD_WATER: u32 = 15;
pub const REGENERATION_RATE_FOOD: u32 = 5;
pub const REGENERATION_RATE_WATER: u32 = 3;
pub const RESOURCE_RESERVE_FOOD: u32 = 200;
pub const RESOURCE_RESERVE_WATER: u32 = 150;

/// What an agent is doing.
#[derive(Debug, Clone, Copy, PartialEq, Eq, Structural)]
pub enum AgentStatus {
    Active,
    Working,
    Resting,
    Sleeping,
    Eating,
    Drinking,
    Idle,
    Unemployed,
}

/// The kinds of resource the economy knows by type.
#[derive(Debug, Clone, Copy, PartialEq, Eq, Hash, Structural)]
pub enum ResourceType {
    Food,
    Water,
    RawFood,
}

impl ResourceType {
    /// The name under which inventories hold this resource.
    pub open spec fn spec_name(self) -> Seq<char> {
        match self {
            ResourceType::Food => "food"@,
            ResourceType::Water => "water"@,
            ResourceType::RawFood => "raw_food"@,
        }
    }

    /// The resource type a name stands for, if any.
    pub open spec fn spec_from_name(name: Seq<char>) -> Option<ResourceType> {
        if name == "food"@ {
            Some(ResourceType::Food)
        } else if name == "water"@ {
            Some(ResourceType::Water)
        } else if name == "raw_food"@ {
            Some(ResourceType::RawFood)
        } else {
            None
        }
    }

    pub fn name(&self) -> (r: &'static str)
        ensures
            r@ == self.spec_name(),
    {
        match self {
            ResourceType::Food => "food",
            ResourceType::Water => "water",
            ResourceType::RawFood => "raw_food",
        }
    }

    pub fn from_name(name: &str) -> (r: Option<Self>)
        ensures
            r == Self::spec_from_name(name@),
    {
        if same_text(name, "food") {
            Some(ResourceType::Food)
        } else if same_text(name, "water") {
            Some(ResourceType::Water)
        } else if same_text(name, "raw_food") {
            Some(ResourceType::RawFood)
        } else {
            None
        }
    }
}

/// Every resource type is found again from its name.
pub proof fn lemma_resource_name_round_trip(t: ResourceType)
    ensures
        ResourceType::spec_from_name(t.spec_name()) == Some(t),
{
    reveal_strlit("food");
    reveal_strlit("water");
    reveal_strlit("raw_food");
    assert("water"@[0] != "food"@[0]);
    assert("raw_food"@[0] != "food"@[0]);
    assert("raw_food"@[0] != "water"@[0]);
}

/// `m` with `amount` more of `name`; unchanged where `amount` is zero or the sum would
/// pass `u32::MAX`.
pub open spec fn spec_added(m: Map<Seq<char>, u32>, name: Seq<char>, amount: u32) -> Map<Seq<char>, u32> {
    let current = quantity_in(m, name);
    if amount == 0 || current + amount > u32::MAX {
        m
    } else {
        m.insert(name, (current + amount) as u32)
    }
}

/// `m` with `amount` less of `name`, the name leaving where nothing is left; unchanged
/// where `amount` is zero or more than is held.
pub open spec fn spec_removed(m: Map<Seq<char>, u32>, name: Seq<char>, amount: u32) -> Map<Seq<char>, u32> {
    let current = quantity_in(m, name);
    if amount == 0 || current < amount {
        m
    } else if current == amount {
        m.remove(name)
    } else {
        m.insert(name, (current - amount) as u32)
    }
}

/// Removing what was just added, without overflow, restores every quantity; and
/// restores the map itself unless the name was held with a quantity of zero.
pub proof fn lemma_inventory_add_remove_round_trip(m: Map<Seq<char>, u32>, name: Seq<char>, amount: u32)
    requires
        quantity_in(m, name) + amount <= u32::MAX,
    ensures
        forall|k: Seq<char>| #[trigger] quantity_in(spec_removed(spec_added(m, name, amount), name, amount), k)
            == quantity_in(m, k),
        !(m.contains_key(name) && m[name] == 0) ==> spec_removed(spec_added(m, name, amount), name, amount) == m,
{
    let back = spec_removed(spec_added(m, name, amount), name, amount);
    if !(m.contains_key(name) && m[name] == 0) {
        assert(back =~= m);
    }
}

/// Named quantities of resources, with no capacity limit beyond `u32`.
#[derive(Debug, Clone)]
pub struct ResourceInventory {
    pub quantities: StrMap<u32>,
}

impl ResourceInventory {
    /// The quantity held under a name, zero where none is held.
    pub open spec fn spec_quantity(&self, name: Seq<char>) -> u32 {
        quantity_in(self.quantities@, name)
    }

    pub fn new() -> (inv: Self)
        ensures
            inv.quantities@ == Map::<Seq<char>, u32>::empty(),
    {
        ResourceInventory { quantities: StrMap::new() }
    }

    pub fn with_capacity(resource: ResourceType, amount: u32) -> (inv: Self)
        ensures
            inv.quantities@ == Map::<Seq<char>, u32>::empty().insert(resource.spec_name(), amount),
    {
        let mut inv = Self::new();
        inv.quantities.insert(resource.name().to_owned(), amount);
        inv
    }

    pub fn quantity(&self, resource: ResourceType) -> (r: u32)
        ensures
            r == self.spec_quantity(resource.spec_name()),
    {
        self.quantities.quantity(resource.name())
    }

    pub fn quantity_str(&self, resource: &str) -> (r: u32)
        ensures
            r == self.spec_quantity(resource@),
    {
        self.quantities.quantity(resource)
    }

    pub fn has(&self, resource: ResourceType) -> (r: bool)
        ensures
            r == (self.spec_quantity(resource.spec_name()) > 0),
    {
        self.quantity(resource) > 0
    }

    pub fn has_str(&self, resource: &str) -> (r: bool)
        ensures
            r == (self.spec_quantity(resource@) > 0),
    {
        self.quantity_str(resource) > 0
    }

    /// Adds `amount` under `resource`. An addition past `u32::MAX` is refused and
    /// changes nothing.
    pub fn add(&mut self, resource: ResourceType, amount: u32) -> (r: Result<u32, String>)
        ensures
            ({
                let name = resource.spec_name();
                let current = old(self).spec_quantity(name);
                &&& final(self).quantities@ == spec_added(old(self).quantities@, name, amount)
                &&& if amount == 0 {
                    r == Ok::<u32, String>(0) && final(self).quantities@ == old(self).quantities@
                } else if current + amount <= u32::MAX {
                    r == Ok::<u32, String>(amount) && final(self).quantities@
                        == old(self).quantities@.insert(name, (current + amount) as u32)
                } else {
                    r matches Err(msg) && msg@ == overflow_text(name, current, amount)
                        && final(self).quantities@ == old(self).quantities@
                }
            }),
    {
        self.add_str(resource.name(), amount)
    }

    /// Adds `amount` under the name `resource`. An addition past `u32::MAX` is refused
    /// and changes nothing.
    pub fn add_str(&mut self, resource: &str, amount: u32) -> (r: Result<u32, String>)
        ensures
            ({
                let current = old(self).spec_quantity(resource@);
                &&& final(self).quantities@ == spec_added(old(self).quantities@, resource@, amount)
                &&& if amount == 0 {
                    r == Ok::<u32, String>(0) && final(self).quantities@ == old(self).quantities@
                } else if current + amount <= u32::MAX {
                    r == Ok::<u32, String>(amount) && final(self).quantities@
                        == old(self).quantities@.insert(resource@, (current + amount) as u32)
                } else {
                    r matches Err(msg) && msg@ == overflow_text(resource@, current, amount)
                        && final(self).quantities@ == old(self).quantities@
                }
            }),
    {
        if amount == 0 {
            return Ok(0);
        }
        let current = self.quantities.quantity(resource);
        match current.checked_add(amount) {
            Some(new_val) => {
                self.quantities.insert(resource.to_owned(), new_val);
                Ok(amount)
            },
            None => Err(overflow_message(resource, current, amount)),
        }
    }

    /// Takes `amount` from `resource`. Taking more than is held is refused and changes
    /// nothing; a quantity that reaches zero leaves the inventory.
    pub fn remove(&mut self, resource: ResourceType, amount: u32) -> (r: Result<u32, String>)
        ensures
            ({
                let name = resource.spec_name();
                let current = old(self).spec_quantity(name);
                &&& final(self).quantities@ == spec_removed(old(self).quantities@, name, amount)
                &&& if amount == 0 {
                    r == Ok::<u32, String>(0) && final(self).quantities@ == old(self).quantities@
                } else if current < amount {
                    r matches Err(msg) && msg@ == shortage_text(name, current, amount)
                        && final(self).quantities@ == old(self).quantities@
                } else if current == amount {
                    r == Ok::<u32, String>(amount) && final(self).quantities@ == old(self).quantities@.remove(name)
                } else {
                    r == Ok::<u32, String>(amount) && final(self).quantities@
                        == old(self).quantities@.insert(name, (current - amount) as u32)
                }
            }),
    {
        self.remove_str(resource.name(), amount)
    }

    /// Takes `amount` from the name `resource`. Taking more than is held is refused and
    /// changes nothing; a quantity that reaches zero leaves the inventory.
    pub fn remove_str(&mut self, resource: &str, amount: u32) -> (r: Result<u32, String>)
        ensures
            ({
                let current = old(self).spec_quantity(resource@);
                &&& final(self).quantities@ == spec_removed(old(self).quantities@, resource@, amount)
                &&& if amount == 0 {
                    r == Ok::<u32, String>(0) && final(self).quantities@ == old(self).quantities@
                } else if current < amount {
                    r matches Err(msg) && msg@ == shortage_text(resource@, current, amount)
                        && final(self).quantities@ == old(self).quantities@
                } else if current == amount {
                    r == Ok::<u32, String>(amount) && final(self).quantities@ == old(self).quantities@.remove(resource@)
                } else {
                    r == Ok::<u32, String>(amount) && final(self).quantities@
                        == old(self).quantities@.insert(resource@, (current - amount) as u32)
                }
            }),
    {
        if amount == 0 {
            return Ok(0);
        }
        let current = self.quantities.quantity(resource);
        if current < amount {
            return Err(shortage_message(resource, current, amount));
        }
        let new_val = current - amount;
        if new_val == 0 {
            self.quantities.remove(resource);
        } else {
            self.quantities.insert(resource.to_owned(), new_val);
        }
        Ok(amount)
    }

    /// The sum of all quantities held, which must fit in a `u32`.
    pub fn total(&self) -> (r: u32)
        requires
            self.quantities.spec_total() <= u32::MAX,
        ensures
            r == self.quantities.spec_total(),
    {
        self.quantities.total()
    }
}

} // verus!
