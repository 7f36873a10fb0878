//! A closed island of herbivores and carnivores that lives year by year:
//! births, meals, ageing, deaths and migration on a grid of terrain cells.
//!
//! Weights, fodder, fitness, probabilities and species parameters are
//! fixed-point numbers: `i64`s that count millionths (see `fixed`). Random
//! numbers come from the thread-local generator of `rand` (see `random`);
//! every rule that depends on one is specified as a function of the number
//! drawn. The weights of newborns are given by the caller.

pub mod animal;
pub mod cell;
pub mod feeding;
pub mod fixed;
pub mod island;
pub mod mapping;
pub mod migration;
pub mod population;
pub mod random;
pub mod species;

use crate::island::Island;
use crate::mapping::{map_fault, MapError};
use vstd::prelude::*;

verus! {

/// What a simulation starts from: the map of the island, and for each cell
/// to be stocked its coordinate, the name of a species and a number of
/// animals.
pub struct Config {
    pub island_map: String,
    pub ini_pop: Vec<((u32, u32), String, u32)>,
}

impl Config {
    pub fn build(island_map: String, ini_pop: Vec<((u32, u32), String, u32)>) -> (r: Result<
        Config,
        &'static str,
    >)
        ensures
            r is Ok,
            r->Ok_0.island_map == island_map,
            r->Ok_0.ini_pop == ini_pop,
    {
        Ok(Config { island_map, ini_pop })
    }
}

/// Checks that the island of the configuration can be built: a malformed
/// map is rejected. The map has no more than `u32::MAX` characters.
pub fn run(config: Config) -> (r: Result<(), MapError>)
    requires
        config.island_map@.len() <= u32::MAX,
    ensures
        match r {
            Ok(_) => map_fault(config.island_map@) is None,
            Err(e) => map_fault(config.island_map@) == Some(e),
        },
{
    match Island::build(config.island_map.as_str()) {
        Ok(_) => Ok(()),
        Err(e) => Err(e),
    }
}

} // verus!
