use n_simulation::{
    can_produce, default_inventory, Recipe, ResourceInventory, ResourceType, StrMap,
    FOOD_OUTPUT_PER_CYCLE, MIN_WORKERS_FOR_PRODUCTION, RAW_FOOD_INPUT_PER_CYCLE,
};

#[test]
fn inventory_add_resource() {
    let mut inv = default_inventory();
    let (ok, amt) = inv.add_resource("food", 3);
    assert!(ok);
    assert_eq!(amt, 3);
    assert_eq!(inv.resource_quantity("food"), 3);
}

#[test]
fn inventory_add_respects_capacity() {
    let mut inv = default_inventory();
    let (ok, amt) = inv.add_resource("water", 100);
    assert!(ok);
    assert_eq!(amt, 5);
    assert_eq!(inv.resource_quantity("water"), 5);
}

#[test]
fn inventory_remove_resource() {
    let mut inv = default_inventory();
    inv.add_resource("food", 5);
    let (ok, amt) = inv.remove_resource("food", 2);
    assert!(ok);
    assert_eq!(amt, 2);
    assert_eq!(inv.resource_quantity("food"), 3);
}

#[test]
fn inventory_remove_insufficient() {
    let mut inv = default_inventory();
    inv.add_resource("food", 2);
    let (ok, amt) = inv.remove_resource("food", 5);
    assert!(!ok);
    assert_eq!(amt, 2);
    assert_eq!(inv.resource_quantity("food"), 0);
}

#[test]
fn inventory_has_resource() {
    let mut inv = default_inventory();
    assert!(!inv.has_resource("food"));
    inv.add_resource("food", 1);
    assert!(inv.has_resource("food"));
    inv.remove_resource("food", 1);
    assert!(!inv.has_resource("food"));
}

#[test]
fn inventory_add_zero_is_noop() {
    let mut inv = default_inventory();
    let (ok, amt) = inv.add_resource("food", 0);
    assert!(ok);
    assert_eq!(amt, 0);
}

#[test]
fn inventory_remove_zero_is_noop() {
    let mut inv = default_inventory();
    inv.add_resource("food", 5);
    let (ok, amt) = inv.remove_resource("food", 0);
    assert!(ok);
    assert_eq!(amt, 0);
    assert_eq!(inv.resource_quantity("food"), 5);
}

#[test]
fn resource_type_names() {
    assert_eq!(ResourceType::Food.name(), "food");
    assert_eq!(ResourceType::Water.name(), "water");
    assert_eq!(ResourceType::RawFood.name(), "raw_food");
}

#[test]
fn resource_type_from_name() {
    assert_eq!(ResourceType::from_name("food"), Some(ResourceType::Food));
    assert_eq!(ResourceType::from_name("water"), Some(ResourceType::Water));
    assert_eq!(
        ResourceType::from_name("raw_food"),
        Some(ResourceType::RawFood)
    );
    assert_eq!(ResourceType::from_name("invalid"), None);
}

#[test]
fn resource_inventory_add_remove() {
    let mut inv = ResourceInventory::new();
    inv.add(ResourceType::Food, 10).unwrap();
    assert_eq!(inv.quantity(ResourceType::Food), 10);
    inv.remove(ResourceType::Food, 3).unwrap();
    assert_eq!(inv.quantity(ResourceType::Food), 7);
}

#[test]
fn resource_inventory_overflow_fails() {
    let mut inv = ResourceInventory::new();
    inv.add(ResourceType::Food, u32::MAX - 10).unwrap();
    let result = inv.add(ResourceType::Food, 20);
    assert!(result.is_err());
}

#[test]
fn resource_inventory_remove_insufficient_fails() {
    let mut inv = ResourceInventory::new();
    inv.add(ResourceType::Food, 5).unwrap();
    let result = inv.remove(ResourceType::Food, 10);
    assert!(result.is_err());
    assert_eq!(inv.quantity(ResourceType::Food), 5);
}

#[test]
fn food_recipe_has_correct_structure() {
    let recipe = Recipe::food_production();
    assert_eq!(recipe.name, "food_production");
    assert_eq!(recipe.inputs.len(), 1);
    assert_eq!(recipe.inputs[0].resource, "raw_food");
    assert_eq!(recipe.inputs[0].quantity, RAW_FOOD_INPUT_PER_CYCLE);
    assert_eq!(recipe.outputs.len(), 1);
    assert_eq!(recipe.outputs[0].resource, "food");
    assert_eq!(recipe.outputs[0].quantity, FOOD_OUTPUT_PER_CYCLE);
    assert_eq!(recipe.labor_required, MIN_WORKERS_FOR_PRODUCTION);
}

#[test]
fn production_fails_without_workers() {
    let recipe = Recipe::food_production();
    let mut inventory = StrMap::new();
    inventory.insert("raw_food".to_string(), 100);
    assert!(!can_produce(&recipe, &inventory, 0, 0));
}

#[test]
fn production_fails_with_cooldown() {
    let recipe = Recipe::food_production();
    let mut inventory = StrMap::new();
    inventory.insert("raw_food".to_string(), 100);
    assert!(!can_produce(&recipe, &inventory, 1, 1));
}
