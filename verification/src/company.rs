use vstd::prelude::*;

use crate::clock::TICKS_PER_DAY;
use crate::resources::{REGENERATION_RATE_FOOD, REGENERATION_RATE_WATER};
use crate::str_map::{quantity_in, StrMap};

verus! {

#[derive(Debug, Clone, Copy, PartialEq, Eq, Structural)]
pub enum CompanyStrategy {
    Growth,
    Stability,
    ProfitMaximization,
    Innovation,
}

#[derive(Debug, Clone, Copy, PartialEq, Eq, Structural)]
pub enum CompanyType {
    FoodProducer,
    WaterProducer,
    Retailer,
    Service,
}

#[derive(Debug, Clone, Copy, PartialEq, Eq, Structural)]
pub enum CompanyStatus {
    Operating,
    Understaffed,
    Overstaffed,
    Suspended,
    Insolvent,
}

/// The most raw food a food producer's land regrows to.
pub const RAW_FOOD_REGROWTH_LIMIT: u32 = 500;
/// The most raw water a water producer's source refills to.
pub const RAW_WATER_REGROWTH_LIMIT: u32 = 400;

/// How many of the companies founded at genesis produce food.
pub const GENESIS_FOOD_PRODUCERS: u32 = 3;
/// How many of the companies founded at genesis produce water, after the food producers.
pub const GENESIS_WATER_PRODUCERS: u32 = 2;
/// The raw food a food producer is founded with.
pub const GENESIS_RAW_FOOD: u32 = 500;
/// The food a food producer is founded with.
pub const GENESIS_FOOD: u32 = 50;
/// The raw water a water producer is founded with.
pub const GENESIS_RAW_WATER: u32 = 400;
/// The water a water producer is founded with.
pub const GENESIS_WATER: u32 = 40;

/// The type of the company founded at genesis with the given index.
pub open spec fn spec_genesis_type(index: u32) -> CompanyType {
    if index < GENESIS_FOOD_PRODUCERS {
        CompanyType::FoodProducer
    } else if index < GENESIS_FOOD_PRODUCERS + GENESIS_WATER_PRODUCERS {
        CompanyType::WaterProducer
    } else {
        CompanyType::Service
    }
}

/// The type of the company founded at genesis with the given index: the first three
/// produce food, the next two water, and the rest are services.
pub fn genesis_company_type(index: u32) -> (t: CompanyType)
    ensures
        t == spec_genesis_type(index),
{
    if index < GENESIS_FOOD_PRODUCERS {
        CompanyType::FoodProducer
    } else if index < GENESIS_FOOD_PRODUCERS + GENESIS_WATER_PRODUCERS {
        CompanyType::WaterProducer
    } else {
        CompanyType::Service
    }
}

/// The stock a company of the given type is founded with.
pub open spec fn spec_genesis_inventory(company_type: CompanyType) -> Map<Seq<char>, u32> {
    match company_type {
        CompanyType::FoodProducer => Map::<Seq<char>, u32>::empty().insert("raw_food"@, GENESIS_RAW_FOOD).insert(
            "food"@,
            GENESIS_FOOD,
        ),
        CompanyType::WaterProducer => Map::<Seq<char>, u32>::empty().insert("raw_water"@, GENESIS_RAW_WATER).insert(
            "water"@,
            GENESIS_WATER,
        ),
        _ => Map::<Seq<char>, u32>::empty(),
    }
}

/// The stock a company of the given type is founded with: a food producer 500 raw food
/// and 50 food, a water producer 400 raw water and 40 water, any other company nothing.
pub fn genesis_inventory(company_type: CompanyType) -> (m: StrMap<u32>)
    ensures
        m@ == spec_genesis_inventory(company_type),
{
    let mut m = StrMap::new();
    match company_type {
        CompanyType::FoodProducer => {
            m.insert("raw_food".to_owned(), GENESIS_RAW_FOOD);
            m.insert("food".to_owned(), GENESIS_FOOD);
        },
        CompanyType::WaterProducer => {
            m.insert("raw_water".to_owned(), GENESIS_RAW_WATER);
            m.insert("water".to_owned(), GENESIS_WATER);
        },
        _ => {},
    }
    m
}

/// The name of the recipe a company of the given type runs; only producers run one.
pub fn genesis_recipe_name(company_type: CompanyType) -> (r: Option<&'static str>)
    ensures
        match company_type {
            CompanyType::FoodProducer => r matches Some(n) && n@ == "food_production"@,
            CompanyType::WaterProducer => r matches Some(n) && n@ == "water_production"@,
            _ => r is None,
        },
{
    match company_type {
        CompanyType::FoodProducer => Some("food_production"),
        CompanyType::WaterProducer => Some("water_production"),
        _ => None,
    }
}

/// A stock below `limit` grows by `rate`, but not past `limit`; a stock at or above
/// `limit` stays as it is.
pub open spec fn regrown(current: u32, rate: u32, limit: u32) -> u32 {
    if current >= limit {
        current
    } else if current + rate > limit {
        limit
    } else {
        (current + rate) as u32
    }
}

/// A company's inventory after a day's regrowth: a food producer's raw food, a water
/// producer's raw water; other companies hold no regrowing stock.
pub open spec fn spec_regenerate(company_type: CompanyType, m: Map<Seq<char>, u32>) -> Map<Seq<char>, u32> {
    match company_type {
        CompanyType::FoodProducer => {
            let q = quantity_in(m, "raw_food"@);
            if q < RAW_FOOD_REGROWTH_LIMIT {
                m.insert("raw_food"@, regrown(q, REGENERATION_RATE_FOOD, RAW_FOOD_REGROWTH_LIMIT))
            } else {
                m
            }
        },
        CompanyType::WaterProducer => {
            let q = quantity_in(m, "raw_water"@);
            if q < RAW_WATER_REGROWTH_LIMIT {
                m.insert("raw_water"@, regrown(q, REGENERATION_RATE_WATER, RAW_WATER_REGROWTH_LIMIT))
            } else {
                m
            }
        },
        _ => m,
    }
}

/// Regrows a producer's raw stock once a day, at the ticks that begin a day; at
/// any other tick the inventory is left as it is.
pub fn daily_regeneration(tick: u64, company_type: CompanyType, inventory: &mut StrMap<u32>)
    ensures
        final(inventory)@ == if tick % TICKS_PER_DAY == 0 {
            spec_regenerate(company_type, old(inventory)@)
        } else {
            old(inventory)@
        },
{
    if tick % TICKS_PER_DAY != 0 {
        return;
    }
    match company_type {
        CompanyType::FoodProducer => {
            let raw_food = inventory.quantity("raw_food");
            if raw_food < RAW_FOOD_REGROWTH_LIMIT {
                let grown = raw_food + REGENERATION_RATE_FOOD;
                let new_val = if grown > RAW_FOOD_REGROWTH_LIMIT { RAW_FOOD_REGROWTH_LIMIT } else { grown };
                inventory.insert("raw_food".to_owned(), new_val);
            }
        },
        CompanyType::WaterProducer => {
            let raw_water = inventory.quantity("raw_water");
            if raw_water < RAW_WATER_REGROWTH_LIMIT {
                let grown = raw_water + REGENERATION_RATE_WATER;
                let new_val = if grown > RAW_WATER_REGROWTH_LIMIT { RAW_WATER_REGROWTH_LIMIT } else { grown };
                inventory.insert("raw_water".to_owned(), new_val);
            }
        },
        _ => {},
    }
}

/// A day's regrowth raises a producer's raw stock that is below its limit by its
/// regeneration rate, or up to the limit where the rate would pass it; a stock at or
/// above its limit, and every other resource, stays as it was.
pub proof fn lemma_regeneration_step(company_type: CompanyType, m: Map<Seq<char>, u32>, name: Seq<char>)
    ensures
        ({
            let before = quantity_in(m, name);
            let after = quantity_in(spec_regenerate(company_type, m), name);
            &&& company_type == CompanyType::FoodProducer && name == "raw_food"@ && before < RAW_FOOD_REGROWTH_LIMIT
                ==> after <= before + REGENERATION_RATE_FOOD && after <= RAW_FOOD_REGROWTH_LIMIT && (after == before
                + REGENERATION_RATE_FOOD || after == RAW_FOOD_REGROWTH_LIMIT) && after > before
            &&& company_type == CompanyType::WaterProducer && name == "raw_water"@ && before < RAW_WATER_REGROWTH_LIMIT
                ==> after <= before + REGENERATION_RATE_WATER && after <= RAW_WATER_REGROWTH_LIMIT && (after == before
                + REGENERATION_RATE_WATER || after == RAW_WATER_REGROWTH_LIMIT) && after > before
            &&& !(company_type == CompanyType::FoodProducer && name == "raw_food"@ && before < RAW_FOOD_REGROWTH_LIMIT)
                && !(company_type == CompanyType::WaterProducer && name == "raw_water"@ && before
                < RAW_WATER_REGROWTH_LIMIT) ==> after == before
        }),
{
}

/// Regrowth never lowers a stock, never raises one past its limit, and touches no
/// resource other than the producer's raw stock.
pub proof fn lemma_regeneration_bounded(company_type: CompanyType, m: Map<Seq<char>, u32>, name: Seq<char>)
    ensures
        quantity_in(spec_regenerate(company_type, m), name) >= quantity_in(m, name),
        company_type == CompanyType::FoodProducer && name == "raw_food"@ && quantity_in(m, name)
            <= RAW_FOOD_REGROWTH_LIMIT ==> quantity_in(spec_regenerate(company_type, m), name)
            <= RAW_FOOD_REGROWTH_LIMIT,
        company_type == CompanyType::WaterProducer && name == "raw_water"@ && quantity_in(m, name)
            <= RAW_WATER_REGROWTH_LIMIT ==> quantity_in(spec_regenerate(company_type, m), name)
            <= RAW_WATER_REGROWTH_LIMIT,
        !(company_type == CompanyType::FoodProducer && name == "raw_food"@) && !(company_type
            == CompanyType::WaterProducer && name == "raw_water"@) ==> quantity_in(
            spec_regenerate(company_type, m),
            name,
        ) == quantity_in(m, name),
{
}

} // verus!
