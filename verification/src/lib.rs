pub mod agent;
pub mod clock;
pub mod company;
pub mod employment;
pub mod events;
pub mod market;
pub mod production;
pub mod property;
pub mod resources;
pub mod routine;
pub mod simulation;
pub mod str_map;
pub mod text;

pub use agent::{default_inventory, AgentInventory};
pub use clock::{
    calendar_events, calendar_transitions, weekday_name, CalendarEvent, CalendarTransitions, SimulationClock, DAYS_PER_MONTH, DAYS_PER_WEEK,
    HOURS_PER_DAY, MONTHS_PER_YEAR, TICKS_PER_DAY, TICKS_PER_HOUR, TICKS_PER_YEAR,
};
pub use company::{
    daily_regeneration, genesis_company_type, genesis_inventory, genesis_recipe_name, CompanyStatus,
    CompanyStrategy, CompanyType,
};
pub use employment::{working_agents_of, AgentPost, Employment, JobOffer, LaborMarketState};
pub use events::EventType;
pub use market::{
    list_stock, post_listing, prune_transactions, sell_from_listing, MarketListing, MarketTransaction,
};
pub use production::{
    apply_production, can_produce, can_produce_partial, outputs_fit, production_step, ProductionOutput, Recipe,
    RecipeInput, RecipeOutput,
};
pub use property::{
    default_building_capacity, zone_compatible_building, BuildingType, ConstructionState,
    PropertyOwnership, Zone,
};
pub use resources::{
    AgentStatus, ResourceInventory, ResourceType, DEFAULT_FOOD_CAPACITY, DEFAULT_WATER_CAPACITY,
    FOOD_OUTPUT_PER_CYCLE, FOOD_PURCHASE_TARGET_INVENTORY, MIN_WORKERS_FOR_PRODUCTION,
    PRODUCTION_COOLDOWN_TICKS, RAW_FOOD_INPUT_PER_CYCLE, RAW_WATER_INPUT_PER_CYCLE,
    REGENERATION_RATE_FOOD, REGENERATION_RATE_WATER, RESOURCE_RESERVE_FOOD, RESOURCE_RESERVE_WATER,
    SCARCITY_THRESHOLD_FOOD, SCARCITY_THRESHOLD_WATER, WATER_OUTPUT_PER_CYCLE,
    WATER_PURCHASE_TARGET_INVENTORY,
};
pub use routine::{routine_status, routine_step, RoutineSignals, RoutineStep};
pub use simulation::SimulationMetadata;
pub use str_map::StrMap;
