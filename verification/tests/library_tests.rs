use n_simulation::{
    weekday_name, working_agents_of, AgentPost,
    apply_production, calendar_events, calendar_transitions, can_produce, can_produce_partial, daily_regeneration,
    default_building_capacity, default_inventory, genesis_company_type, genesis_inventory,
    genesis_recipe_name, list_stock, outputs_fit, post_listing, production_step, sell_from_listing,
    prune_transactions, routine_status, routine_step, zone_compatible_building, AgentInventory,
    AgentStatus, BuildingType, CompanyType, EventType, LaborMarketState, MarketListing,
    MarketTransaction, PropertyOwnership, Recipe, ResourceInventory, ResourceType,
    RoutineSignals, SimulationClock, StrMap, Zone, TICKS_PER_DAY, TICKS_PER_HOUR, TICKS_PER_YEAR,
};
use rand::Rng;

fn quiet() -> RoutineSignals {
    RoutineSignals {
        needs_drinking: false,
        has_water: false,
        needs_eating: false,
        has_food: false,
        needs_sleeping: false,
        needs_resting: false,
        employed: false,
        is_night: false,
        is_work_hours: false,
    }
}

#[test]
fn str_map_insert_get_remove() {
    let mut m: StrMap<u32> = StrMap::new();
    assert!(!m.contains_key("a"));
    m.insert("a".to_string(), 1);
    m.insert("b".to_string(), 2);
    m.insert("a".to_string(), 5);
    assert_eq!(m.get("a"), Some(&5));
    assert_eq!(m.quantity("b"), 2);
    assert_eq!(m.quantity("c"), 0);
    assert_eq!(m.entries().len(), 2);
    assert_eq!(m.total(), 7);
    m.remove("a");
    assert!(!m.contains_key("a"));
    assert_eq!(m.total(), 2);
    m.remove("zzz");
    assert_eq!(m.entries().len(), 1);
    let copy = m.clone();
    assert_eq!(copy.quantity("b"), 2);
}

#[test]
fn resource_inventory_messages_and_totals() {
    let mut inv = ResourceInventory::with_capacity(ResourceType::Water, 4);
    assert_eq!(inv.quantity_str("water"), 4);
    assert!(inv.has(ResourceType::Water));
    assert!(!inv.has_str("food"));
    assert_eq!(inv.add_str("food", 0), Ok(0));
    assert_eq!(inv.add_str("energy", 3), Ok(3));
    assert_eq!(inv.total(), 7);
    inv.add(ResourceType::Food, u32::MAX - 10).unwrap();
    assert_eq!(
        inv.add(ResourceType::Food, 20),
        Err("Inventory overflow for food: 4294967285 + 20".to_string())
    );
    assert_eq!(
        inv.remove_str("energy", 5),
        Err("Insufficient energy: have 3 need 5".to_string())
    );
    assert_eq!(inv.remove_str("energy", 3), Ok(3));
    assert!(!inv.quantities.contains_key("energy"));
    assert_eq!(inv.remove(ResourceType::Water, 0), Ok(0));
}

#[test]
fn resource_inventory_round_trip_restores() {
    let mut inv = ResourceInventory::new();
    inv.add(ResourceType::RawFood, 9).unwrap();
    inv.add(ResourceType::RawFood, 4).unwrap();
    inv.remove(ResourceType::RawFood, 4).unwrap();
    assert_eq!(inv.quantity(ResourceType::RawFood), 9);
}

#[test]
fn agent_inventory_without_capacity_saturates() {
    let mut inv = AgentInventory::new(StrMap::new());
    assert_eq!(inv.add_resource("gold", u32::MAX - 1), (true, u32::MAX - 1));
    assert_eq!(inv.add_resource("gold", 5), (true, 1));
    assert_eq!(inv.resource_quantity("gold"), u32::MAX);
    assert_eq!(inv.add_resource("gold", 1), (false, 0));
    assert_eq!(inv.resource_quantity("gold"), u32::MAX);
}

#[test]
fn agent_inventory_over_capacity_is_cut_back() {
    let mut inv = default_inventory();
    inv.add_resource("food", 8);
    inv.capacity.insert("food".to_string(), 3);
    assert_eq!(inv.add_resource("food", 1), (false, 0));
    assert_eq!(inv.resource_quantity("food"), 3);
}

#[test]
fn agent_inventory_add_then_remove_restores() {
    let mut inv = default_inventory();
    inv.add_resource("water", 2);
    let (_, added) = inv.add_resource("water", 7);
    assert_eq!(added, 3);
    let (ok, taken) = inv.remove_resource("water", added);
    assert!(ok);
    assert_eq!(taken, 3);
    assert_eq!(inv.resource_quantity("water"), 2);
    assert_eq!(inv.remove_resource("water", 2), (true, 2));
    assert!(!inv.resources.contains_key("water"));
}

#[test]
fn recipes_and_defaults() {
    let w = Recipe::water_production();
    assert_eq!(w.name, "water_production");
    assert_eq!(w.inputs[0].resource, "raw_water");
    assert_eq!(w.outputs[0].resource, "water");
    assert_eq!(w.cooldown_ticks, 1);
    let book = Recipe::default_recipes();
    assert_eq!(book.get("food_production").unwrap().outputs[0].resource, "food");
    assert_eq!(book.get("water_production").unwrap().inputs[0].quantity, 10);
    assert!(book.get("bread").is_none());
}

#[test]
fn can_produce_with_inputs_and_workers() {
    let recipe = Recipe::food_production();
    let mut inventory = StrMap::new();
    inventory.insert("raw_food".to_string(), 10);
    assert!(can_produce(&recipe, &inventory, 1, 0));
    inventory.insert("raw_food".to_string(), 9);
    assert!(!can_produce(&recipe, &inventory, 1, 0));
    assert!(can_produce_partial(&recipe, &inventory, 1, 0));
    assert!(!can_produce_partial(&recipe, &inventory, 0, 0));
    assert!(!can_produce_partial(&recipe, &inventory, 1, 2));
    inventory.remove("raw_food");
    assert!(!can_produce_partial(&recipe, &inventory, 1, 0));
}

#[test]
fn production_consumes_inputs_and_adds_outputs() {
    let recipe = Recipe::food_production();
    let mut inventory = StrMap::new();
    inventory.insert("raw_food".to_string(), 100);
    inventory.insert("food".to_string(), 4);
    let outs = apply_production(&recipe, &mut inventory, &vec![11]).unwrap();
    assert_eq!(outs.len(), 1);
    assert_eq!(outs[0].resource, "food");
    assert_eq!(outs[0].quantity, 11);
    assert_eq!(inventory.quantity("raw_food"), 90);
    assert_eq!(inventory.quantity("food"), 15);
}

#[test]
fn production_consumes_last_input_entirely() {
    let recipe = Recipe::food_production();
    let mut inventory = StrMap::new();
    inventory.insert("raw_food".to_string(), 10);
    apply_production(&recipe, &mut inventory, &vec![10]).unwrap();
    assert!(!inventory.contains_key("raw_food"));
    assert_eq!(inventory.quantity("food"), 10);
}

#[test]
fn failed_production_changes_nothing() {
    let mut recipe = Recipe::food_production();
    recipe.inputs.push(n_simulation::RecipeInput { resource: "salt".to_string(), quantity: 2 });
    let mut inventory = StrMap::new();
    inventory.insert("raw_food".to_string(), 50);
    inventory.insert("salt".to_string(), 1);
    let result = apply_production(&recipe, &mut inventory, &vec![10]);
    assert_eq!(result.unwrap_err(), "Insufficient salt: have 1 need 2");
    assert_eq!(inventory.quantity("raw_food"), 50);
    assert_eq!(inventory.quantity("salt"), 1);
    assert_eq!(inventory.quantity("food"), 0);
}

#[test]
fn production_step_runs_or_counts_down() {
    let recipe = Recipe::food_production();
    let mut inventory = StrMap::new();
    inventory.insert("raw_food".to_string(), 20);
    let mut cooldown = 2u32;
    assert!(production_step(&recipe, &mut inventory, 1, &mut cooldown, &vec![10]).is_none());
    assert_eq!(cooldown, 1);
    assert!(production_step(&recipe, &mut inventory, 1, &mut cooldown, &vec![10]).is_none());
    assert_eq!(cooldown, 0);
    let out = production_step(&recipe, &mut inventory, 1, &mut cooldown, &vec![12]);
    assert_eq!(out.unwrap().unwrap()[0].quantity, 12);
    assert_eq!(cooldown, 1);
    assert_eq!(inventory.quantity("raw_food"), 10);
    let mut idle = 0u32;
    assert!(production_step(&recipe, &mut inventory, 0, &mut idle, &vec![10]).is_none());
    assert_eq!(idle, 0);
}

#[test]
fn property_names_and_rules() {
    assert_eq!(Zone::Residential.name(), "residential");
    assert_eq!(Zone::Public.name(), "public");
    assert_eq!(BuildingType::WaterPlant.name(), "water_plant");
    assert_eq!(BuildingType::from_name("warehouse"), Some(BuildingType::Warehouse));
    assert_eq!(BuildingType::from_name("castle"), None);
    for b in [
        BuildingType::House,
        BuildingType::Apartment,
        BuildingType::Factory,
        BuildingType::Farm,
        BuildingType::Shop,
        BuildingType::Office,
        BuildingType::Warehouse,
        BuildingType::WaterPlant,
    ] {
        assert_eq!(BuildingType::from_name(b.name()), Some(b));
        assert!(zone_compatible_building(&Zone::Public, &b));
    }
    assert!(zone_compatible_building(&Zone::Residential, &BuildingType::Apartment));
    assert!(!zone_compatible_building(&Zone::Residential, &BuildingType::Shop));
    assert!(zone_compatible_building(&Zone::Commercial, &BuildingType::Office));
    assert!(zone_compatible_building(&Zone::Industrial, &BuildingType::Farm));
    assert!(!zone_compatible_building(&Zone::Industrial, &BuildingType::House));
    assert_eq!(default_building_capacity(&BuildingType::House), 2);
    assert_eq!(default_building_capacity(&BuildingType::Warehouse), 6);
    assert_eq!(PropertyOwnership::Agent("agent-0001".to_string()).owner_id(), Some("agent-0001"));
    assert_eq!(PropertyOwnership::Company("company-002".to_string()).owner_id(), Some("company-002"));
    assert_eq!(PropertyOwnership::Unowned.owner_id(), None);
}

#[test]
fn resource_names_round_trip() {
    for t in [ResourceType::Food, ResourceType::Water, ResourceType::RawFood] {
        assert_eq!(ResourceType::from_name(t.name()), Some(t));
    }
}

#[test]
fn clock_time_of_day() {
    let mut c = SimulationClock::new(42);
    assert_eq!(c.tick, 0);
    assert_eq!(c.hour_of_day(), 0);
    assert_eq!(c.day(), 1);
    assert!(c.is_night());
    c.advance(TICKS_PER_HOUR * 12);
    assert_eq!(c.hour_of_day(), 12);
    assert!(!c.is_night());
    assert!(c.is_work_hours());
    c.tick = 23 * TICKS_PER_HOUR;
    assert!(c.is_night());
    c.tick = 18 * TICKS_PER_HOUR;
    assert!(!c.is_work_hours());
    c.advance_tick();
    assert_eq!(c.tick, 19);
    c.tick = TICKS_PER_DAY;
    assert_eq!(c.day(), 2);
}

#[test]
fn clock_calendar() {
    let mut c = SimulationClock::new(42);
    assert_eq!(c.year(), 1);
    assert_eq!(c.month(), 1);
    assert_eq!(c.day_of_week(), 0);
    assert_eq!(c.day_of_month(), 1);
    assert_eq!(c.minute_of_hour(), 0);
    c.advance(TICKS_PER_DAY * 30);
    assert_eq!(c.month(), 2);
    assert_eq!(c.day_of_month(), 1);
    assert_eq!(c.day_of_week(), 2);
    c.advance(TICKS_PER_YEAR);
    assert_eq!(c.year(), 2);
}

#[test]
fn same_seed_same_draws() {
    let mut a = SimulationClock::new(1234);
    let mut b = SimulationClock::new(1234);
    let mut c = SimulationClock::new(4321);
    let xa: u64 = a.rng.gen();
    let xb: u64 = b.rng.gen();
    let xc: u64 = c.rng.gen();
    assert_eq!(xa, xb);
    assert_ne!(xa, xc);
    let copy = a.clone();
    let mut copy = copy;
    assert_eq!(a.rng.gen::<u64>(), copy.rng.gen::<u64>());
}

#[test]
fn calendar_transitions_at_boundaries() {
    let t0 = calendar_transitions(0);
    assert!(!t0.hour && !t0.day && !t0.week && !t0.month && !t0.year);
    let t5 = calendar_transitions(5);
    assert!(t5.hour && !t5.day);
    let t24 = calendar_transitions(24);
    assert!(t24.hour && t24.day && !t24.week && !t24.month && !t24.year);
    let t168 = calendar_transitions(168);
    assert!(t168.day && t168.week && !t168.month);
    let t720 = calendar_transitions(720);
    assert!(t720.day && t720.month && !t720.week && !t720.year);
    let t8640 = calendar_transitions(8640);
    assert!(t8640.day && t8640.month && t8640.year);
}

#[test]
fn thirst_outranks_every_other_need() {
    let s = RoutineSignals {
        needs_drinking: true,
        has_water: true,
        needs_eating: true,
        has_food: true,
        needs_sleeping: true,
        needs_resting: true,
        employed: true,
        is_night: true,
        is_work_hours: true,
    };
    assert_eq!(routine_status(&s), AgentStatus::Drinking);
}

#[test]
fn routine_priorities() {
    let mut s = quiet();
    assert_eq!(routine_status(&s), AgentStatus::Idle);
    s.needs_drinking = true;
    assert_eq!(routine_status(&s), AgentStatus::Idle);
    s.needs_eating = true;
    s.has_food = true;
    assert_eq!(routine_status(&s), AgentStatus::Eating);
    let mut s = quiet();
    s.needs_sleeping = true;
    s.needs_resting = true;
    s.is_night = true;
    assert_eq!(routine_status(&s), AgentStatus::Sleeping);
    s.is_night = false;
    assert_eq!(routine_status(&s), AgentStatus::Resting);
    let mut s = quiet();
    s.employed = true;
    s.is_work_hours = true;
    assert_eq!(routine_status(&s), AgentStatus::Working);
    s.needs_sleeping = true;
    assert_eq!(routine_status(&s), AgentStatus::Working);
    s.is_work_hours = false;
    assert_eq!(routine_status(&s), AgentStatus::Sleeping);
}

#[test]
fn routine_step_events() {
    let mut s = quiet();
    s.employed = true;
    s.is_work_hours = true;
    let step = routine_step(AgentStatus::Idle, &s);
    assert_eq!(step.status, AgentStatus::Working);
    assert_eq!(step.started, Some(EventType::AgentStartedWork));
    assert!(!step.stopped_work);
    let again = routine_step(AgentStatus::Working, &s);
    assert_eq!(again.started, None);
    assert!(!again.stopped_work);
    s.needs_resting = true;
    let rest = routine_step(AgentStatus::Working, &s);
    assert_eq!(rest.status, AgentStatus::Resting);
    assert_eq!(rest.started, Some(EventType::AgentStartedRest));
    assert!(rest.stopped_work);
    let mut d = quiet();
    d.needs_drinking = true;
    d.has_water = true;
    let drink = routine_step(AgentStatus::Active, &d);
    assert_eq!(drink.status, AgentStatus::Drinking);
    assert_eq!(drink.started, None);
}

#[test]
fn regeneration_once_a_day_up_to_limit() {
    let mut inv = StrMap::new();
    inv.insert("raw_food".to_string(), 497);
    daily_regeneration(5, CompanyType::FoodProducer, &mut inv);
    assert_eq!(inv.quantity("raw_food"), 497);
    daily_regeneration(24, CompanyType::FoodProducer, &mut inv);
    assert_eq!(inv.quantity("raw_food"), 500);
    daily_regeneration(48, CompanyType::FoodProducer, &mut inv);
    assert_eq!(inv.quantity("raw_food"), 500);
    let mut water = StrMap::new();
    daily_regeneration(0, CompanyType::WaterProducer, &mut water);
    assert_eq!(water.quantity("raw_water"), 3);
    let mut service = StrMap::new();
    daily_regeneration(24, CompanyType::Service, &mut service);
    assert_eq!(service.entries().len(), 0);
}

#[test]
fn employment_lifecycle() {
    let mut m: LaborMarketState<f64> = LaborMarketState::new();
    assert!(m.create_employment("a1".to_string(), "c1".to_string(), "worker".to_string(), 10.0, 5));
    assert!(!m.create_employment("a1".to_string(), "c2".to_string(), "worker".to_string(), 12.0, 6));
    assert!(m.create_employment("a2".to_string(), "c1".to_string(), "worker".to_string(), 11.0, 6));
    assert!(m.create_employment("a3".to_string(), "c2".to_string(), "clerk".to_string(), 9.0, 7));
    assert_eq!(m.total_hires, 3);
    assert!(m.is_agent_employed("a1"));
    assert!(m.is_agent_employed_at("a1", "c1"));
    assert!(!m.is_agent_employed_at("a1", "c2"));
    assert_eq!(m.employee_count_for_company("c1"), 2);
    assert_eq!(m.employments_for_company("c1").len(), 2);
    assert_eq!(m.working_employees_for_company("c2").len(), 1);
    assert_eq!(m.employments_for_agent("a3")[0].role, "clerk");
    assert_eq!(m.active_employments().len(), 3);
    assert_eq!(m.unemployed_count(10), 7);
    assert_eq!(m.unemployed_count(2), 0);
    assert_eq!(m.largest_employer(), Some(("c1".to_string(), 2)));
    assert!(m.terminate_employment("a1", "c1"));
    assert!(!m.terminate_employment("a1", "c1"));
    assert!(!m.is_agent_employed("a1"));
    assert_eq!(m.total_fires, 1);
    let fired = m.terminate_all_for_company("c2");
    assert_eq!(fired, vec!["a3".to_string()]);
    assert_eq!(m.employee_count_for_company("c2"), 0);
    assert_eq!(m.total_fires, 2);
    assert_eq!(m.employments.len(), 3);
    assert_eq!(m.active_employments().len(), 1);
}

#[test]
fn largest_employer_of_empty_market() {
    let m: LaborMarketState<f64> = LaborMarketState::new();
    assert_eq!(m.largest_employer(), None);
    assert_eq!(m.open_positions(), 0);
}

#[test]
fn open_positions_sum_offers() {
    let mut m: LaborMarketState<f64> = LaborMarketState::new();
    m.job_openings.push(n_simulation::JobOffer {
        company_id: "c1".to_string(),
        role: "worker".to_string(),
        wage: 10.0,
        required_skill: "productivity".to_string(),
        min_skill_level: 0.2,
        openings: 3,
    });
    m.job_openings.push(n_simulation::JobOffer {
        company_id: "c2".to_string(),
        role: "clerk".to_string(),
        wage: 8.0,
        required_skill: "social".to_string(),
        min_skill_level: 0.1,
        openings: 4,
    });
    assert_eq!(m.open_positions(), 7);
}

#[test]
fn listings_are_topped_up_per_seller() {
    let mut listings: Vec<MarketListing<f64>> = Vec::new();
    assert!(post_listing(&mut listings, "company-000", "food", 10, 2.0));
    assert!(post_listing(&mut listings, "company-000", "water", 5, 0.5));
    assert!(!post_listing(&mut listings, "company-000", "food", 4, 2.5));
    assert!(post_listing(&mut listings, "company-001", "food", 3, 2.5));
    assert_eq!(listings.len(), 3);
    assert_eq!(listings[0].quantity, 14);
    assert_eq!(listings[0].original_quantity, 14);
    assert_eq!(listings[0].price, 2.5);
    assert_eq!(listings[1].quantity, 5);
}

#[test]
fn old_transactions_are_pruned() {
    let t = |tick: u64| MarketTransaction {
        buyer_id: "agent-0000".to_string(),
        seller_id: "company-000".to_string(),
        resource: "food".to_string(),
        quantity: 1,
        price: 2.0,
        total_cost: 2.0,
        tick,
    };
    let mut txs = vec![t(1), t(10), t(40), t(26)];
    prune_transactions(&mut txs, 50);
    let ticks: Vec<u64> = txs.iter().map(|x| x.tick).collect();
    assert_eq!(ticks, vec![40, 26]);
}

#[test]
fn list_stock_moves_all_stock_onto_market() {
    let mut inv: StrMap<u32> = StrMap::new();
    inv.insert("food".to_string(), 12);
    inv.insert("raw_food".to_string(), 7);
    let mut listings: Vec<MarketListing<u32>> = Vec::new();
    assert_eq!(list_stock(&mut inv, &mut listings, "c1", "food", 3), (12, true));
    assert_eq!(inv.quantity("food"), 0);
    assert_eq!(inv.quantity("raw_food"), 7);
    assert_eq!(listings.len(), 1);
    assert_eq!(listings[0].quantity, 12);
    inv.insert("food".to_string(), 5);
    assert_eq!(list_stock(&mut inv, &mut listings, "c1", "food", 4), (5, false));
    assert_eq!(listings[0].quantity, 17);
    assert_eq!(listings[0].original_quantity, 17);
    assert_eq!(listings[0].price, 4);
    assert_eq!(list_stock(&mut inv, &mut listings, "c1", "food", 9), (0, false));
    assert_eq!(listings[0].price, 4);
}

#[test]
fn sell_from_listing_moves_what_buyer_accepts() {
    let mut listings: Vec<MarketListing<u32>> = vec![MarketListing {
        seller_id: "c1".to_string(),
        resource: "food".to_string(),
        quantity: 20,
        price: 3,
        original_quantity: 20,
    }];
    let mut buyer = default_inventory();
    buyer.add_resource("food", 7);
    assert_eq!(sell_from_listing(&mut listings, 0, &mut buyer, 5), 3);
    assert_eq!(listings[0].quantity, 17);
    assert_eq!(buyer.resource_quantity("food"), 10);
    assert_eq!(sell_from_listing(&mut listings, 0, &mut buyer, 2), 0);
    assert_eq!(listings[0].quantity, 17);
}

#[test]
fn outputs_fit_detects_overflow() {
    let recipe = Recipe::food_production();
    let mut inv: StrMap<u32> = StrMap::new();
    inv.insert("raw_food".to_string(), 10);
    inv.insert("food".to_string(), u32::MAX - 10);
    assert!(outputs_fit(&recipe, &inv, &vec![10]));
    assert!(!outputs_fit(&recipe, &inv, &vec![11]));
    inv.insert("raw_food".to_string(), 9);
    assert!(outputs_fit(&recipe, &inv, &vec![11]));
}

#[test]
fn genesis_companies_by_index() {
    assert_eq!(genesis_company_type(0), CompanyType::FoodProducer);
    assert_eq!(genesis_company_type(2), CompanyType::FoodProducer);
    assert_eq!(genesis_company_type(3), CompanyType::WaterProducer);
    assert_eq!(genesis_company_type(4), CompanyType::WaterProducer);
    assert_eq!(genesis_company_type(5), CompanyType::Service);
    assert_eq!(genesis_recipe_name(CompanyType::FoodProducer), Some("food_production"));
    assert_eq!(genesis_recipe_name(CompanyType::WaterProducer), Some("water_production"));
    assert_eq!(genesis_recipe_name(CompanyType::Service), None);
    let food = genesis_inventory(CompanyType::FoodProducer);
    assert_eq!(food.quantity("raw_food"), 500);
    assert_eq!(food.quantity("food"), 50);
    let water = genesis_inventory(CompanyType::WaterProducer);
    assert_eq!(water.quantity("raw_water"), 400);
    assert_eq!(water.quantity("water"), 40);
    assert_eq!(genesis_inventory(CompanyType::Service).total(), 0);
}

#[test]
fn calendar_events_texts() {
    let none = calendar_events(0);
    assert!(none.is_empty());
    let hour = calendar_events(5);
    assert_eq!(hour.len(), 1);
    assert_eq!(hour[0].event_type, EventType::HourStarted);
    assert_eq!(hour[0].id, "evt-hour-5");
    assert_eq!(hour[0].description, "Hour 5 started");
    let year = calendar_events(TICKS_PER_YEAR);
    let kinds: Vec<EventType> = year.iter().map(|e| e.event_type).collect();
    assert_eq!(
        kinds,
        vec![
            EventType::HourStarted,
            EventType::DayStarted,
            EventType::MonthStarted,
            EventType::YearStarted
        ]
    );
    assert_eq!(year[0].description, "Hour 0 started");
    assert_eq!(year[1].id, "evt-day-8640");
    assert_eq!(year[1].description, "Day 361 started (month day 1)");
    assert_eq!(year[2].description, "Month 13 started");
    assert_eq!(year[3].id, "evt-year-8640");
    assert_eq!(year[3].description, "Year 2 started");
    let week = calendar_events(7 * TICKS_PER_DAY);
    assert_eq!(week.len(), 3);
    assert_eq!(week[1].description, "Day 8 started (month day 8)");
    assert_eq!(week[2].event_type, EventType::WeekStarted);
    assert_eq!(week[2].id, "evt-week-168");
    assert_eq!(week[2].description, "Week 2 started");
}

#[test]
fn messages_render_decimal() {
    let mut inv = ResourceInventory::new();
    inv.add_str("ore", u32::MAX).unwrap();
    assert_eq!(
        inv.add_str("ore", 10),
        Err(format!("Inventory overflow for ore: {} + 10", u32::MAX))
    );
    assert_eq!(inv.remove_str("gem", 1), Err("Insufficient gem: have 0 need 1".to_string()));
}

#[test]
fn working_agents_of_filters_in_order() {
    let post = |id: &str, employer: Option<&str>, status: AgentStatus| AgentPost {
        agent_id: id.to_string(),
        employer: employer.map(|e| e.to_string()),
        status,
    };
    let agents = vec![
        post("a0", Some("c1"), AgentStatus::Working),
        post("a1", Some("c1"), AgentStatus::Sleeping),
        post("a2", Some("c2"), AgentStatus::Working),
        post("a3", None, AgentStatus::Working),
        post("a4", Some("c1"), AgentStatus::Working),
    ];
    assert_eq!(working_agents_of(&agents, "c1"), vec!["a0".to_string(), "a4".to_string()]);
    assert_eq!(working_agents_of(&agents, "c2"), vec!["a2".to_string()]);
    assert!(working_agents_of(&agents, "c3").is_empty());
}

#[test]
fn weekday_names() {
    assert_eq!(weekday_name(0), "Mon");
    assert_eq!(weekday_name(4), "Fri");
    assert_eq!(weekday_name(6), "Sun");
    assert_eq!(weekday_name(7), "???");
}

#[test]
fn list_stock_tops_up_own_listing_only() {
    let listing = |seller: &str, q: u32, p: u32| MarketListing {
        seller_id: seller.to_string(),
        resource: "food".to_string(),
        quantity: q,
        price: p,
        original_quantity: q,
    };
    let mut listings = vec![listing("c2", 4, 1), listing("c1", 6, 2)];
    let mut inv: StrMap<u32> = StrMap::new();
    inv.insert("food".to_string(), 5);
    assert_eq!(list_stock(&mut inv, &mut listings, "c1", "food", 9), (5, false));
    assert_eq!(listings[0].quantity, 4);
    assert_eq!(listings[0].price, 1);
    assert_eq!(listings[1].quantity, 11);
    assert_eq!(listings[1].original_quantity, 11);
    assert_eq!(listings[1].price, 9);
}
