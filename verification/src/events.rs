use vstd::prelude::*;

verus! {

/// The kinds of event the simulation records.
#[derive(Debug, Clone, Copy, PartialEq, Eq, Hash, Structural)]
pub enum EventType {
    Tick,
    AgentCreated,
    CompanyFounded,
    AgentNeedChanged,
    AgentAte,
    AgentDrank,
    AgentStartedWork,
    AgentStoppedWork,
    AgentStartedRest,
    AgentStartedSleep,
    SkillImproved,
    ProductionStarted,
    ProductionCompleted,
    MarketListingCreated,
    FoodPurchased,
    WaterPurchased,
    WagePaid,
    PriceChanged,
    HourStarted,
    DayStarted,
    WeekStarted,
    MonthStarted,
    YearStarted,
    AgentHired,
    AgentFired,
}

} // verus!
