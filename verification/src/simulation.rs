use vstd::prelude::*;

verus! {

/// A simulation's name and the seed its randomness grows from.
#[derive(Debug, Clone, PartialEq, Eq)]
pub struct SimulationMetadata {
    pub name: String,
    pub seed: u64,
}

} // verus!
