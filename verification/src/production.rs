use vstd::prelude::*;

use crate::resources::{
    FOOD_OUTPUT_PER_CYCLE, MIN_WORKERS_FOR_PRODUCTION, PRODUCTION_COOLDOWN_TICKS,
    RAW_FOOD_INPUT_PER_CYCLE, RAW_WATER_INPUT_PER_CYCLE, WATER_OUTPUT_PER_CYCLE,
};
use crate::str_map::{quantity_in, StrMap};
use crate::text::{shortage_message, shortage_text};

verus! {

#[derive(Debug, Clone)]
pub struct RecipeInput {
    pub resource: String,
    pub quantity: u32,
}

#[derive(Debug, Clone)]
pub struct RecipeOutput {
    pub resource: String,
    pub quantity: u32,
}

/// Inputs turned into outputs by labor, with a cooldown between cycles.
#[derive(Debug, Clone)]
pub struct Recipe {
    pub name: String,
    pub inputs: Vec<RecipeInput>,
    pub outputs: Vec<RecipeOutput>,
    pub labor_required: usize,
    pub cooldown_ticks: u32,
}

#[derive(Debug, Clone)]
pub struct ProductionOutput {
    pub resource: String,
    pub quantity: u32,
}

/// Takes `quantity` of `name` from `m`, removing the name where nothing is left.
pub open spec fn take_quantity(m: Map<Seq<char>, u32>, name: Seq<char>, quantity: u32) -> Map<Seq<char>, u32> {
    let left = quantity_in(m, name) - quantity;
    if left == 0 {
        m.remove(name)
    } else {
        m.insert(name, left as u32)
    }
}

/// Takes each input in order from `m`. Fails at the first input whose name holds less
/// than it needs, with that name, what it holds and what it needs.
pub open spec fn consume_inputs(m: Map<Seq<char>, u32>, inputs: Seq<(Seq<char>, u32)>) -> Result<
    Map<Seq<char>, u32>,
    (Seq<char>, u32, u32),
>
    decreases inputs.len(),
{
    if inputs.len() == 0 {
        Ok(m)
    } else {
        match consume_inputs(m, inputs.drop_last()) {
            Err(e) => Err(e),
            Ok(m2) => {
                let (name, need) = inputs.last();
                let have = quantity_in(m2, name);
                if have < need {
                    Err((name, have, need))
                } else {
                    Ok(take_quantity(m2, name, need))
                }
            },
        }
    }
}

/// Adds each quantity in order to `m`; `None` where a sum would pass `u32::MAX`.
pub open spec fn add_outputs(m: Map<Seq<char>, u32>, outputs: Seq<(Seq<char>, u32)>) -> Option<Map<Seq<char>, u32>>
    decreases outputs.len(),
{
    if outputs.len() == 0 {
        Some(m)
    } else {
        match add_outputs(m, outputs.drop_last()) {
            None => None,
            Some(m2) => {
                let (name, amount) = outputs.last();
                let sum = quantity_in(m2, name) + amount;
                if sum > u32::MAX {
                    None
                } else {
                    Some(m2.insert(name, sum as u32))
                }
            },
        }
    }
}

/// The inventory after one production cycle: the inputs taken and the produced
/// quantities added, or the inventory unchanged where an input falls short.
pub open spec fn production_result(recipe: Recipe, m: Map<Seq<char>, u32>, produced: Seq<u32>) -> Map<Seq<char>, u32> {
    match consume_inputs(m, recipe.input_seq()) {
        Err(_) => m,
        Ok(m2) => add_outputs(m2, recipe.produced_seq(produced)).unwrap(),
    }
}

/// What a production cycle reports: the shortage of the first input that falls short,
/// or each output's resource with the quantity produced of it.
pub open spec fn production_reported(
    recipe: Recipe,
    m: Map<Seq<char>, u32>,
    produced: Seq<u32>,
    r: Result<Vec<ProductionOutput>, String>,
) -> bool {
    match consume_inputs(m, recipe.input_seq()) {
        Err((name, have, need)) => r matches Err(msg) && msg@ == shortage_text(name, have, need),
        Ok(_) => r matches Ok(outs) && outs@.len() == recipe.outputs@.len() && forall|i: int|
            0 <= i < outs@.len() ==> (#[trigger] outs@[i]).resource@ == recipe.outputs@[i].resource@
                && outs@[i].quantity == produced[i],
    }
}

impl Recipe {
    /// The inputs, each as its resource's name and quantity.
    pub open spec fn input_seq(self) -> Seq<(Seq<char>, u32)> {
        self.inputs@.map_values(|i: RecipeInput| (i.resource@, i.quantity))
    }

    /// The outputs' resource names, paired with the quantities produced of each.
    pub open spec fn produced_seq(self, produced: Seq<u32>) -> Seq<(Seq<char>, u32)> {
        Seq::new(self.outputs@.len(), |i: int| (self.outputs@[i].resource@, produced[i]))
    }

    /// A recipe that turns one input into one output.
    pub open spec fn is_single_step(
        self,
        name: Seq<char>,
        input: Seq<char>,
        input_quantity: u32,
        output: Seq<char>,
        output_quantity: u32,
    ) -> bool {
        &&& self.name@ == name
        &&& self.inputs@.len() == 1
        &&& self.inputs@[0].resource@ == input
        &&& self.inputs@[0].quantity == input_quantity
        &&& self.outputs@.len() == 1
        &&& self.outputs@[0].resource@ == output
        &&& self.outputs@[0].quantity == output_quantity
        &&& self.labor_required == MIN_WORKERS_FOR_PRODUCTION
        &&& self.cooldown_ticks == PRODUCTION_COOLDOWN_TICKS
    }

    pub open spec fn is_food_production(self) -> bool {
        self.is_single_step("food_production"@, "raw_food"@, RAW_FOOD_INPUT_PER_CYCLE, "food"@, FOOD_OUTPUT_PER_CYCLE)
    }

    pub open spec fn is_water_production(self) -> bool {
        self.is_single_step(
            "water_production"@,
            "raw_water"@,
            RAW_WATER_INPUT_PER_CYCLE,
            "water"@,
            WATER_OUTPUT_PER_CYCLE,
        )
    }

    /// Ten raw food into ten food, by one worker, with a cooldown of one tick.
    pub fn food_production() -> (r: Self)
        ensures
            r.is_food_production(),
    {
        let mut inputs = Vec::new();
        inputs.push(RecipeInput { resource: "raw_food".to_owned(), quantity: RAW_FOOD_INPUT_PER_CYCLE });
        let mut outputs = Vec::new();
        outputs.push(RecipeOutput { resource: "food".to_owned(), quantity: FOOD_OUTPUT_PER_CYCLE });
        Recipe {
            name: "food_production".to_owned(),
            inputs,
            outputs,
            labor_required: MIN_WORKERS_FOR_PRODUCTION,
            cooldown_ticks: PRODUCTION_COOLDOWN_TICKS,
        }
    }

    /// Ten raw water into ten water, by one worker, with a cooldown of one tick.
    pub fn water_production() -> (r: Self)
        ensures
            r.is_water_production(),
    {
        let mut inputs = Vec::new();
        inputs.push(RecipeInput { resource: "raw_water".to_owned(), quantity: RAW_WATER_INPUT_PER_CYCLE });
        let mut outputs = Vec::new();
        outputs.push(RecipeOutput { resource: "water".to_owned(), quantity: WATER_OUTPUT_PER_CYCLE });
        Recipe {
            name: "water_production".to_owned(),
            inputs,
            outputs,
            labor_required: MIN_WORKERS_FOR_PRODUCTION,
            cooldown_ticks: PRODUCTION_COOLDOWN_TICKS,
        }
    }

    /// The food and water recipes, each under its own name.
    pub fn default_recipes() -> (r: StrMap<Recipe>)
        ensures
            r@.dom() == Set::<Seq<char>>::empty().insert("food_production"@).insert("water_production"@),
            r@["food_production"@].is_food_production(),
            r@["water_production"@].is_water_production(),
    {
        let mut recipes = StrMap::new();
        let food_recipe = Recipe::food_production();
        let water_recipe = Recipe::water_production();
        let food_name = food_recipe.name.clone();
        let water_name = water_recipe.name.clone();
        recipes.insert(food_name, food_recipe);
        recipes.insert(water_name, water_recipe);
        proof {
            reveal_strlit("food_production");
            reveal_strlit("water_production");
            assert("food_production"@[0] != "water_production"@[0]);
            assert(recipes@.dom() =~= Set::<Seq<char>>::empty().insert("food_production"@).insert(
                "water_production"@,
            ));
        }
        recipes
    }
}

/// Whether every input of `recipe` is held in `inventory`, each counted alone, with
/// enough workers and no cooldown left.
pub open spec fn spec_can_produce(recipe: Recipe, inventory: Map<Seq<char>, u32>, worker_count: usize, cooldown: u32) -> bool {
    &&& cooldown == 0
    &&& worker_count >= recipe.labor_required
    &&& forall|i: int|
        0 <= i < recipe.input_seq().len() ==> quantity_in(inventory, #[trigger] recipe.input_seq()[i].0)
            >= recipe.input_seq()[i].1
}

pub fn can_produce(recipe: &Recipe, inventory: &StrMap<u32>, worker_count: usize, cooldown: u32) -> (r: bool)
    ensures
        r == spec_can_produce(*recipe, inventory@, worker_count, cooldown),
{
    if cooldown > 0 {
        return false;
    }
    if worker_count < recipe.labor_required {
        return false;
    }
    let mut i: usize = 0;
    while i < recipe.inputs.len()
        invariant
            i <= recipe.inputs@.len(),
            cooldown == 0,
            worker_count >= recipe.labor_required,
            forall|j: int|
                0 <= j < i ==> quantity_in(inventory@, #[trigger] recipe.input_seq()[j].0)
                    >= recipe.input_seq()[j].1,
        decreases recipe.inputs@.len() - i,
    {
        let input = &recipe.inputs[i];
        let available = inventory.quantity(input.resource.as_str());
        assert(recipe.input_seq()[i as int] == (input.resource@, input.quantity));
        if available < input.quantity {
            assert(quantity_in(inventory@, recipe.input_seq()[i as int].0) < recipe.input_seq()[i as int].1);
            return false;
        }
        i = i + 1;
    }
    true
}

/// Whether some input of `recipe` is held at all, with enough workers and no cooldown left.
pub open spec fn spec_can_produce_partial(recipe: Recipe, inventory: Map<Seq<char>, u32>, worker_count: usize, cooldown: u32) -> bool {
    &&& cooldown == 0
    &&& worker_count >= recipe.labor_required
    &&& exists|i: int|
        0 <= i < recipe.input_seq().len() && quantity_in(inventory, #[trigger] recipe.input_seq()[i].0) > 0
}

pub fn can_produce_partial(recipe: &Recipe, inventory: &StrMap<u32>, worker_count: usize, cooldown: u32) -> (r: bool)
    ensures
        r == spec_can_produce_partial(*recipe, inventory@, worker_count, cooldown),
{
    if cooldown > 0 || worker_count < recipe.labor_required {
        return false;
    }
    let mut i: usize = 0;
    while i < recipe.inputs.len()
        invariant
            i <= recipe.inputs@.len(),
            cooldown == 0,
            worker_count >= recipe.labor_required,
            forall|j: int| 0 <= j < i ==> quantity_in(inventory@, #[trigger] recipe.input_seq()[j].0) == 0,
        decreases recipe.inputs@.len() - i,
    {
        let input = &recipe.inputs[i];
        let available = inventory.quantity(input.resource.as_str());
        assert(recipe.input_seq()[i as int] == (input.resource@, input.quantity));
        if available > 0 {
            assert(quantity_in(inventory@, recipe.input_seq()[i as int].0) > 0);
            return true;
        }
        i = i + 1;
    }
    false
}

/// Runs one production cycle: takes the recipe's inputs in order and adds
/// `produced[i]` of the recipe's `i`-th output. Where an input falls short, the
/// inventory is left as it was and the shortage is reported.
pub fn apply_production(recipe: &Recipe, inventory: &mut StrMap<u32>, produced: &Vec<u32>) -> (r: Result<
    Vec<ProductionOutput>,
    String,
>)
    requires
        produced@.len() == recipe.outputs@.len(),
        consume_inputs(old(inventory)@, recipe.input_seq()) matches Ok(m) ==> add_outputs(
            m,
            recipe.produced_seq(produced@),
        ) is Some,
    ensures
        production_reported(*recipe, old(inventory)@, produced@, r),
        final(inventory)@ == production_result(*recipe, old(inventory)@, produced@),
{
    let ghost inputs = recipe.input_seq();
    let mut working = inventory.clone();
    assert(working@ =~= inventory@);
    assert(inputs.take(0) =~= Seq::<(Seq<char>, u32)>::empty());
    let mut i: usize = 0;
    while i < recipe.inputs.len()
        invariant
            i <= recipe.inputs@.len(),
            inputs == recipe.input_seq(),
            consume_inputs(inventory@, inputs.take(i as int)) == Ok::<Map<Seq<char>, u32>, (Seq<char>, u32, u32)>(working@),
        decreases recipe.inputs@.len() - i,
    {
        assert(inputs.take(i + 1).drop_last() =~= inputs.take(i as int));
        let input = &recipe.inputs[i];
        let available = working.quantity(input.resource.as_str());
        if available < input.quantity {
            proof {
                lemma_consume_fails_on_prefix(inventory@, inputs, i as int + 1);
            }
            return Err(shortage_message(input.resource.as_str(), available, input.quantity));
        }
        let new_val = available - input.quantity;
        if new_val == 0 {
            working.remove(input.resource.as_str());
        } else {
            working.insert(input.resource.clone(), new_val);
        }
        i = i + 1;
    }
    assert(inputs.take(inputs.len() as int) =~= inputs);
    let ghost consumed = working@;
    let ghost adds = recipe.produced_seq(produced@);
    let mut outputs: Vec<ProductionOutput> = Vec::new();
    let mut j: usize = 0;
    while j < recipe.outputs.len()
        invariant
            j <= recipe.outputs@.len(),
            produced@.len() == recipe.outputs@.len(),
            adds == recipe.produced_seq(produced@),
            add_outputs(consumed, adds) is Some,
            add_outputs(consumed, adds.take(j as int)) == Some(working@),
            outputs@.len() == j,
            forall|k: int|
                0 <= k < j ==> (#[trigger] outputs@[k]).resource@ == recipe.outputs@[k].resource@
                    && outputs@[k].quantity == produced@[k],
        decreases recipe.outputs@.len() - j,
    {
        assert(adds.take(j + 1).drop_last() =~= adds.take(j as int));
        proof {
            lemma_add_outputs_prefix_some(consumed, adds, j as int + 1);
        }
        let output = &recipe.outputs[j];
        let amount = produced[j];
        let current = working.quantity(output.resource.as_str());
        let new_val = current + amount;
        working.insert(output.resource.clone(), new_val);
        outputs.push(ProductionOutput { resource: output.resource.clone(), quantity: amount });
        j = j + 1;
    }
    assert(adds.take(adds.len() as int) =~= adds);
    *inventory = working;
    Ok(outputs)
}

/// Whether a production cycle with the given produced quantities keeps every quantity
/// within `u32`: true where an input falls short (the cycle then changes nothing), and
/// otherwise exactly when adding the outputs, after the inputs are taken, overflows no
/// quantity. This is what `apply_production` asks of its caller.
pub fn outputs_fit(recipe: &Recipe, inventory: &StrMap<u32>, produced: &Vec<u32>) -> (r: bool)
    requires
        produced@.len() == recipe.outputs@.len(),
    ensures
        r == (consume_inputs(inventory@, recipe.input_seq()) matches Ok(m) ==> add_outputs(
            m,
            recipe.produced_seq(produced@),
        ) is Some),
{
    let ghost inputs = recipe.input_seq();
    let mut working = inventory.clone();
    assert(working@ =~= inventory@);
    assert(inputs.take(0) =~= Seq::<(Seq<char>, u32)>::empty());
    let mut i: usize = 0;
    while i < recipe.inputs.len()
        invariant
            i <= recipe.inputs@.len(),
            inputs == recipe.input_seq(),
            consume_inputs(inventory@, inputs.take(i as int)) == Ok::<Map<Seq<char>, u32>, (Seq<char>, u32, u32)>(working@),
        decreases recipe.inputs@.len() - i,
    {
        assert(inputs.take(i + 1).drop_last() =~= inputs.take(i as int));
        let input = &recipe.inputs[i];
        let available = working.quantity(input.resource.as_str());
        if available < input.quantity {
            proof {
                lemma_consume_fails_on_prefix(inventory@, inputs, i as int + 1);
            }
            return true;
        }
        let new_val = available - input.quantity;
        if new_val == 0 {
            working.remove(input.resource.as_str());
        } else {
            working.insert(input.resource.clone(), new_val);
        }
        i = i + 1;
    }
    assert(inputs.take(inputs.len() as int) =~= inputs);
    let ghost consumed = working@;
    let ghost adds = recipe.produced_seq(produced@);
    assert(adds.take(0) =~= Seq::<(Seq<char>, u32)>::empty());
    let mut j: usize = 0;
    while j < recipe.outputs.len()
        invariant
            j <= recipe.outputs@.len(),
            produced@.len() == recipe.outputs@.len(),
            adds == recipe.produced_seq(produced@),
            consume_inputs(inventory@, recipe.input_seq()) == Ok::<Map<Seq<char>, u32>, (Seq<char>, u32, u32)>(consumed),
            add_outputs(consumed, adds.take(j as int)) == Some(working@),
        decreases recipe.outputs@.len() - j,
    {
        assert(adds.take(j + 1).drop_last() =~= adds.take(j as int));
        let output = &recipe.outputs[j];
        let amount = produced[j];
        let current = working.quantity(output.resource.as_str());
        if amount > u32::MAX - current {
            proof {
                lemma_add_outputs_none_on_prefix(consumed, adds, j as int + 1);
            }
            return false;
        }
        working.insert(output.resource.clone(), current + amount);
        j = j + 1;
    }
    assert(adds.take(adds.len() as int) =~= adds);
    true
}

/// One tick of a producer: where the recipe can run (`can_produce`), runs one cycle
/// with the given produced quantities and restarts the cooldown, whatever the cycle's
/// outcome; otherwise counts the cooldown down by one, stopping at zero.
pub fn production_step(
    recipe: &Recipe,
    inventory: &mut StrMap<u32>,
    worker_count: usize,
    cooldown: &mut u32,
    produced: &Vec<u32>,
) -> (r: Option<Result<Vec<ProductionOutput>, String>>)
    requires
        produced@.len() == recipe.outputs@.len(),
        spec_can_produce(*recipe, old(inventory)@, worker_count, *old(cooldown)) ==> (consume_inputs(
            old(inventory)@,
            recipe.input_seq(),
        ) matches Ok(m) ==> add_outputs(m, recipe.produced_seq(produced@)) is Some),
    ensures
        if spec_can_produce(*recipe, old(inventory)@, worker_count, *old(cooldown)) {
            &&& r matches Some(res) && production_reported(*recipe, old(inventory)@, produced@, res)
            &&& final(inventory)@ == production_result(*recipe, old(inventory)@, produced@)
            &&& *final(cooldown) == recipe.cooldown_ticks
        } else {
            &&& r is None
            &&& final(inventory)@ == old(inventory)@
            &&& *final(cooldown) == if *old(cooldown) > 0 { (*old(cooldown) - 1) as u32 } else { 0 }
        },
{
    if can_produce(recipe, inventory, worker_count, *cooldown) {
        let result = apply_production(recipe, inventory, produced);
        *cooldown = recipe.cooldown_ticks;
        Some(result)
    } else {
        if *cooldown > 0 {
            *cooldown = *cooldown - 1;
        }
        None
    }
}

/// No two entries of a list of named quantities share a name.
pub open spec fn distinct_names(s: Seq<(Seq<char>, u32)>) -> bool {
    forall|i: int, j: int| 0 <= i < s.len() && 0 <= j < s.len() && i != j ==> s[i].0 != s[j].0
}

/// Whether a name appears in a list of named quantities.
pub open spec fn names_include(s: Seq<(Seq<char>, u32)>, name: Seq<char>) -> bool {
    exists|i: int| 0 <= i < s.len() && s[i].0 == name
}

/// For inputs that name distinct resources, taking them succeeds exactly when each is
/// held in the quantity it needs; each input's resource then drops by exactly that
/// quantity and every other resource is left as it was.
pub proof fn lemma_consume_distinct_inputs(m: Map<Seq<char>, u32>, inputs: Seq<(Seq<char>, u32)>)
    requires
        distinct_names(inputs),
    ensures
        consume_inputs(m, inputs) is Ok <==> forall|i: int|
            0 <= i < inputs.len() ==> quantity_in(m, #[trigger] inputs[i].0) >= inputs[i].1,
        consume_inputs(m, inputs) matches Ok(m2) ==> {
            &&& forall|i: int|
                0 <= i < inputs.len() ==> quantity_in(m2, #[trigger] inputs[i].0) == quantity_in(m, inputs[i].0)
                    - inputs[i].1
            &&& forall|k: Seq<char>| !names_include(inputs, k) ==> #[trigger] quantity_in(m2, k) == quantity_in(m, k)
        },
    decreases inputs.len(),
{
    if inputs.len() > 0 {
        let p = inputs.drop_last();
        let n = inputs.len() - 1;
        let (name, need) = inputs.last();
        assert(distinct_names(p));
        lemma_consume_distinct_inputs(m, p);
        match consume_inputs(m, p) {
            Err(_) => {
                let i = choose|i: int| 0 <= i < p.len() && !(quantity_in(m, #[trigger] p[i].0) >= p[i].1);
                assert(inputs[i] == p[i]);
            },
            Ok(m2) => {
                assert(!names_include(p, name)) by {
                    if names_include(p, name) {
                        let i = choose|i: int| 0 <= i < p.len() && p[i].0 == name;
                        assert(inputs[i].0 == inputs[n].0);
                    }
                }
                assert(quantity_in(m2, name) == quantity_in(m, name));
                if quantity_in(m2, name) < need {
                    assert(!(quantity_in(m, inputs[n].0) >= inputs[n].1));
                } else {
                    let m3 = take_quantity(m2, name, need);
                    assert forall|i: int|
                        0 <= i < inputs.len() implies quantity_in(m3, #[trigger] inputs[i].0) == quantity_in(
                        m,
                        inputs[i].0,
                    ) - inputs[i].1 by {
                        if i < n {
                            assert(inputs[i] == p[i]);
                            assert(inputs[i].0 != name);
                        }
                    }
                    assert forall|k: Seq<char>| !names_include(inputs, k) implies #[trigger] quantity_in(m3, k)
                        == quantity_in(m, k) by {
                        assert(!names_include(p, k)) by {
                            if names_include(p, k) {
                                let i = choose|i: int| 0 <= i < p.len() && p[i].0 == k;
                                assert(inputs[i] == p[i]);
                                assert(0 <= i < inputs.len() && inputs[i].0 == k);
                            }
                        }
                        assert(k != name) by {
                            if k == name {
                                assert(0 <= n < inputs.len() && inputs[n].0 == k);
                            }
                        }
                        assert(quantity_in(m2, k) == quantity_in(m, k));
                        assert(quantity_in(m3, k) == quantity_in(m2, k));
                    }
                    assert forall|i: int| 0 <= i < inputs.len() implies quantity_in(m, #[trigger] inputs[i].0)
                        >= inputs[i].1 by {
                        if i < n {
                            assert(inputs[i] == p[i]);
                        }
                    }
                }
            },
        }
    }
}

/// For outputs that name distinct resources, adding them raises each output's resource
/// by exactly its quantity and leaves every other resource as it was.
pub proof fn lemma_add_distinct_outputs(m: Map<Seq<char>, u32>, outputs: Seq<(Seq<char>, u32)>)
    requires
        distinct_names(outputs),
        add_outputs(m, outputs) is Some,
    ensures
        forall|i: int|
            0 <= i < outputs.len() ==> quantity_in(add_outputs(m, outputs).unwrap(), #[trigger] outputs[i].0)
                == quantity_in(m, outputs[i].0) + outputs[i].1,
        forall|k: Seq<char>|
            !names_include(outputs, k) ==> #[trigger] quantity_in(add_outputs(m, outputs).unwrap(), k) == quantity_in(m, k),
    decreases outputs.len(),
{
    if outputs.len() > 0 {
        let p = outputs.drop_last();
        let n = outputs.len() - 1;
        let (name, amount) = outputs.last();
        assert(distinct_names(p));
        lemma_add_distinct_outputs(m, p);
        let m2 = add_outputs(m, p).unwrap();
        let m3 = add_outputs(m, outputs).unwrap();
        assert(!names_include(p, name)) by {
            if names_include(p, name) {
                let i = choose|i: int| 0 <= i < p.len() && p[i].0 == name;
                assert(outputs[i].0 == outputs[n].0);
            }
        }
        assert forall|i: int|
            0 <= i < outputs.len() implies quantity_in(m3, #[trigger] outputs[i].0) == quantity_in(m, outputs[i].0)
                + outputs[i].1 by {
            if i < n {
                assert(outputs[i] == p[i]);
                assert(outputs[i].0 != name);
            }
        }
        assert forall|k: Seq<char>| !names_include(outputs, k) implies #[trigger] quantity_in(m3, k) == quantity_in(m, k) by {
            assert(!names_include(p, k)) by {
                if names_include(p, k) {
                    let i = choose|i: int| 0 <= i < p.len() && p[i].0 == k;
                    assert(outputs[i] == p[i]);
                    assert(0 <= i < outputs.len() && outputs[i].0 == k);
                }
            }
            assert(k != name) by {
                if k == name {
                    assert(0 <= n < outputs.len() && outputs[n].0 == k);
                }
            }
            assert(quantity_in(m2, k) == quantity_in(m, k));
            assert(quantity_in(m3, k) == quantity_in(m2, k));
        }
    }
}

/// A producer can run a recipe exactly when no cooldown is left, it has at least the
/// labor the recipe requires, and it holds each input in the quantity that input needs.
/// Enough workers is a lower bound: more workers than required never stop production.
pub proof fn lemma_can_produce_when(
    recipe: Recipe,
    m: Map<Seq<char>, u32>,
    worker_count: usize,
    more_workers: usize,
    cooldown: u32,
)
    ensures
        spec_can_produce(recipe, m, worker_count, cooldown) <==> (cooldown == 0 && worker_count >= recipe.labor_required
            && forall|i: int|
            0 <= i < recipe.inputs@.len() ==> quantity_in(m, #[trigger] recipe.inputs@[i].resource@)
                >= recipe.inputs@[i].quantity),
        spec_can_produce(recipe, m, worker_count, cooldown) && worker_count <= more_workers ==> spec_can_produce(
            recipe,
            m,
            more_workers,
            cooldown,
        ),
{
    if cooldown == 0 && worker_count >= recipe.labor_required && forall|i: int|
        0 <= i < recipe.inputs@.len() ==> quantity_in(m, #[trigger] recipe.inputs@[i].resource@) >= recipe.inputs@[i].quantity {
        assert forall|i: int| 0 <= i < recipe.input_seq().len() implies quantity_in(m, #[trigger] recipe.input_seq()[i].0)
            >= recipe.input_seq()[i].1 by {
            assert(recipe.input_seq()[i] == (recipe.inputs@[i].resource@, recipe.inputs@[i].quantity));
        }
    }
    if spec_can_produce(recipe, m, worker_count, cooldown) {
        assert forall|i: int| 0 <= i < recipe.inputs@.len() implies quantity_in(m, #[trigger] recipe.inputs@[i].resource@)
            >= recipe.inputs@[i].quantity by {
            assert(recipe.input_seq()[i] == (recipe.inputs@[i].resource@, recipe.inputs@[i].quantity));
            assert(quantity_in(m, recipe.input_seq()[i].0) >= recipe.input_seq()[i].1);
        }
    }
}

/// A producer that `can_produce` a recipe whose inputs name distinct resources
/// completes the cycle: no input falls short.
pub proof fn lemma_can_produce_completes(
    recipe: Recipe,
    m: Map<Seq<char>, u32>,
    worker_count: usize,
    cooldown: u32,
)
    requires
        spec_can_produce(recipe, m, worker_count, cooldown),
        distinct_names(recipe.input_seq()),
    ensures
        consume_inputs(m, recipe.input_seq()) is Ok,
{
    lemma_consume_distinct_inputs(m, recipe.input_seq());
}

/// Once taking a prefix of the inputs fails, taking all of them fails the same way.
proof fn lemma_consume_fails_on_prefix(m: Map<Seq<char>, u32>, inputs: Seq<(Seq<char>, u32)>, n: int)
    requires
        0 <= n <= inputs.len(),
        consume_inputs(m, inputs.take(n)) is Err,
    ensures
        consume_inputs(m, inputs) == consume_inputs(m, inputs.take(n)),
    decreases inputs.len() - n,
{
    if n < inputs.len() {
        assert(inputs.take(n + 1).drop_last() =~= inputs.take(n));
        lemma_consume_fails_on_prefix(m, inputs, n + 1);
    } else {
        assert(inputs.take(n) =~= inputs);
    }
}

/// Where adding a prefix of the outputs overflows, so does adding them all.
proof fn lemma_add_outputs_none_on_prefix(m: Map<Seq<char>, u32>, outputs: Seq<(Seq<char>, u32)>, n: int)
    requires
        0 <= n <= outputs.len(),
        add_outputs(m, outputs.take(n)) is None,
    ensures
        add_outputs(m, outputs) is None,
    decreases outputs.len() - n,
{
    if n < outputs.len() {
        assert(outputs.take(n + 1).drop_last() =~= outputs.take(n));
        lemma_add_outputs_none_on_prefix(m, outputs, n + 1);
    } else {
        assert(outputs.take(n) =~= outputs);
    }
}

/// Where adding all outputs stays within `u32`, so does adding any prefix of them.
proof fn lemma_add_outputs_prefix_some(m: Map<Seq<char>, u32>, outputs: Seq<(Seq<char>, u32)>, n: int)
    requires
        0 <= n <= outputs.len(),
        add_outputs(m, outputs) is Some,
    ensures
        add_outputs(m, outputs.take(n)) is Some,
    decreases outputs.len() - n,
{
    if n < outputs.len() {
        lemma_add_outputs_prefix_some(m, outputs, n + 1);
        assert(outputs.take(n + 1).drop_last() =~= outputs.take(n));
    } else {
        assert(outputs.take(n) =~= outputs);
    }
}

} // verus!
