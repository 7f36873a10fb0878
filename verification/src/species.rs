//! Species parameter tables, the statistics of one animal, and the rules of
//! its life as functions of those statistics.
//!
//! All real quantities are fixed-point numbers (see `fixed`): `ONE` stands
//! for 1. The rules are spec functions on `Stats`; the executable operations
//! of `animal` are proved against them.

use vstd::prelude::*;
use crate::fixed::{floor_div, logistic, logistic_of, saturated, scaled, ONE};
use crate::fixed::{lemma_logistic_bounds, lemma_scaled_unit};

verus! {

#[derive(Clone, Copy, Debug, PartialEq, Eq)]
pub enum Species {
    Herbivore,
    Carnivore,
}

/// Largest value a parameter may take (one million, as a fixed-point number).
pub const PARAMETER_LIMIT: i64 = 1_000_000_000_000;

/// The biological constants of one species, as fixed-point numbers.
#[derive(Clone, Copy, Debug, PartialEq, Eq)]
pub struct Parameters {
    pub w_birth: i64,
    pub mu: i64,
    pub sigma_birth: i64,
    pub beta: i64,
    pub eta: i64,
    pub a_half: i64,
    pub phi_age: i64,
    pub w_half: i64,
    pub phi_weight: i64,
    pub gamma: i64,
    pub zeta: i64,
    pub xi: i64,
    pub omega: i64,
    pub f: i64,
    pub delta_phi_max: i64,
}

/// Whether `x` is a parameter value: non-negative and at most
/// `PARAMETER_LIMIT`.
pub open spec fn in_parameter_range(x: i64) -> bool {
    0 <= x <= PARAMETER_LIMIT
}

/// Whether `draw` is a uniform draw: a fixed-point number of `[0, 1)`.
pub open spec fn is_draw(draw: i64) -> bool {
    0 <= draw < ONE
}

impl Parameters {
    /// Every constant lies in the parameter range.
    pub open spec fn valid(&self) -> bool {
        &&& in_parameter_range(self.w_birth)
        &&& in_parameter_range(self.mu)
        &&& in_parameter_range(self.sigma_birth)
        &&& in_parameter_range(self.beta)
        &&& in_parameter_range(self.eta)
        &&& in_parameter_range(self.a_half)
        &&& in_parameter_range(self.phi_age)
        &&& in_parameter_range(self.w_half)
        &&& in_parameter_range(self.phi_weight)
        &&& in_parameter_range(self.gamma)
        &&& in_parameter_range(self.zeta)
        &&& in_parameter_range(self.xi)
        &&& in_parameter_range(self.omega)
        &&& in_parameter_range(self.f)
        &&& in_parameter_range(self.delta_phi_max)
    }

    /// The constants of herbivores.
    pub open spec fn herbivore_table() -> Parameters {
        Parameters {
            w_birth: 8_000_000,
            mu: 250_000,
            sigma_birth: 1_500_000,
            beta: 900_000,
            eta: 50_000,
            a_half: 40_000_000,
            phi_age: 600_000,
            w_half: 10_000_000,
            phi_weight: 100_000,
            gamma: 200_000,
            zeta: 3_500_000,
            xi: 1_200_000,
            omega: 400_000,
            f: 10_000_000,
            delta_phi_max: 0,
        }
    }

    /// The constants of carnivores.
    pub open spec fn carnivore_table() -> Parameters {
        Parameters {
            w_birth: 6_000_000,
            mu: 400_000,
            sigma_birth: 1_000_000,
            beta: 750_000,
            eta: 125_000,
            a_half: 40_000_000,
            phi_age: 300_000,
            w_half: 4_000_000,
            phi_weight: 400_000,
            gamma: 800_000,
            zeta: 3_500_000,
            xi: 1_100_000,
            omega: 800_000,
            f: 50_000_000,
            delta_phi_max: 10_000_000,
        }
    }

    /// The constants of the given species.
    pub open spec fn table(species: Species) -> Parameters {
        match species {
            Species::Herbivore => Self::herbivore_table(),
            Species::Carnivore => Self::carnivore_table(),
        }
    }

    /// The constants of herbivores.
    pub fn herbivore() -> (p: Parameters)
        ensures
            p == Self::herbivore_table(),
            p.valid(),
    {
        Parameters {
            w_birth: 8_000_000,
            mu: 250_000,
            sigma_birth: 1_500_000,
            beta: 900_000,
            eta: 50_000,
            a_half: 40_000_000,
            phi_age: 600_000,
            w_half: 10_000_000,
            phi_weight: 100_000,
            gamma: 200_000,
            zeta: 3_500_000,
            xi: 1_200_000,
            omega: 400_000,
            f: 10_000_000,
            delta_phi_max: 0,
        }
    }

    /// The constants of carnivores.
    pub fn carnivore() -> (p: Parameters)
        ensures
            p == Self::carnivore_table(),
            p.valid(),
    {
        Parameters {
            w_birth: 6_000_000,
            mu: 400_000,
            sigma_birth: 1_000_000,
            beta: 750_000,
            eta: 125_000,
            a_half: 40_000_000,
            phi_age: 300_000,
            w_half: 4_000_000,
            phi_weight: 400_000,
            gamma: 800_000,
            zeta: 3_500_000,
            xi: 1_100_000,
            omega: 800_000,
            f: 50_000_000,
            delta_phi_max: 10_000_000,
        }
    }

    /// The weight a parent must exceed to procreate:
    /// `zeta * (w_birth * sigma_birth)`.
    pub open spec fn birth_floor(&self) -> int {
        scaled(self.zeta as int, scaled(self.w_birth as int, self.sigma_birth as int))
    }

    /// The weight a parent loses by bearing a newborn of the given weight:
    /// `xi * newborn_weight`.
    pub open spec fn birth_cost(&self, newborn_weight: i64) -> int {
        scaled(self.xi as int, newborn_weight as int)
    }

    /// What one animal eats of the fodder on offer: `min(fodder, f)`.
    pub open spec fn intake(&self, fodder: i64) -> int {
        if fodder < self.f {
            fodder as int
        } else {
            self.f as int
        }
    }

    /// The chance of a kill for a positive fitness gap: 1 from
    /// `delta_phi_max` on, `gap / delta_phi_max` below.
    pub open spec fn kill_chance(&self, gap: int) -> int {
        if gap >= self.delta_phi_max {
            ONE as int
        } else {
            gap * ONE / (self.delta_phi_max as int)
        }
    }

    /// What a predator that has eaten `eaten` takes of a prey of the given
    /// weight: `min(f - eaten, weight)`.
    pub open spec fn portion(&self, eaten: int, prey_weight: i64) -> int {
        if prey_weight > self.f - eaten {
            self.f - eaten
        } else {
            prey_weight as int
        }
    }
}

/// The fitness of an animal of the given age and weight: 0 for a weight of
/// 0 or less, else
/// `1 / (1 + e^(phi_age * (age - a_half))) * 1 / (1 + e^(-phi_weight * (weight - w_half)))`.
pub open spec fn fitness_of(p: Parameters, age: u32, weight: i64) -> int {
    if weight <= 0 {
        0
    } else {
        scaled(
            logistic(scaled(p.phi_age as int, age * ONE - p.a_half)),
            logistic(-scaled(p.phi_weight as int, weight - p.w_half)),
        )
    }
}

/// Fitness lies in `[0, 1]`, and is 0 for a weight of 0 or less.
pub proof fn lemma_fitness_range(p: Parameters, age: u32, weight: i64)
    ensures
        0 <= fitness_of(p, age, weight) <= ONE,
        weight <= 0 ==> fitness_of(p, age, weight) == 0,
{
    if weight > 0 {
        let qa = logistic(scaled(p.phi_age as int, age * ONE - p.a_half));
        let qw = logistic(-scaled(p.phi_weight as int, weight - p.w_half));
        lemma_logistic_bounds(scaled(p.phi_age as int, age * ONE - p.a_half));
        lemma_logistic_bounds(-scaled(p.phi_weight as int, weight - p.w_half));
        lemma_scaled_unit(qa, qw);
    }
}

/// Computes the fitness of an animal of the given age and weight.
pub fn fitness(p: &Parameters, age: u32, weight: i64) -> (f: i64)
    requires
        p.valid(),
    ensures
        f == fitness_of(*p, age, weight),
        0 <= f <= ONE,
        weight <= 0 ==> f == 0,
{
    proof {
        lemma_fitness_range(*p, age, weight);
    }
    if weight <= 0 {
        return 0;
    }
    let years: i128 = (age as i128) * (ONE as i128) - (p.a_half as i128);
    assert(-4_300_000_000_000_000_000_000_000_000 <= p.phi_age * years
        <= 4_300_000_000_000_000_000_000_000_000) by (nonlinear_arith)
        requires
            0 <= p.phi_age <= 1_000_000_000_000,
            -1_000_000_000_000 <= years <= 4_300_000_000_000_000,
    ;
    let age_exponent: i128 = floor_div((p.phi_age as i128) * years, ONE as i128);
    let surplus: i128 = (weight as i128) - (p.w_half as i128);
    assert(-10_000_000_000_000_000_000_000_000_000_000 <= p.phi_weight * surplus
        <= 10_000_000_000_000_000_000_000_000_000_000) by (nonlinear_arith)
        requires
            0 <= p.phi_weight <= 1_000_000_000_000,
            -1_000_000_000_000 <= surplus <= 10_000_000_000_000_000_000,
    ;
    let weight_exponent: i128 = floor_div((p.phi_weight as i128) * surplus, ONE as i128);
    assert(-10_000_000_000_000_000_000_000_000_000_000 <= weight_exponent
        <= 10_000_000_000_000_000_000_000_000_000_000) by (nonlinear_arith)
        requires
            -10_000_000_000_000_000_000_000_000_000_000 <= p.phi_weight * surplus
                <= 10_000_000_000_000_000_000_000_000_000_000,
            weight_exponent == (p.phi_weight * surplus) / 1_000_000,
    ;
    let age_term: i64 = logistic_of(age_exponent);
    let weight_term: i64 = logistic_of(-weight_exponent);
    assert(0 <= age_term * weight_term <= 1_000_000_000_000) by (nonlinear_arith)
        requires
            0 <= age_term <= 1_000_000,
            0 <= weight_term <= 1_000_000,
    ;
    age_term * weight_term / ONE
}

/// The statistics of one animal.
///
/// `fitness` caches `fitness_of` the age and weight; every operation that
/// changes either recomputes it.
#[derive(Clone, Copy, Debug, PartialEq, Eq)]
pub struct Stats {
    pub age: u32,
    pub weight: i64,
    pub fitness: i64,
    pub alive: bool,
    pub move_to: Option<(u32, u32)>,
}

impl Stats {
    /// The statistics of a living animal of the given age and weight that
    /// stays where it is, its fitness not yet computed.
    pub open spec fn initial(age: u32, weight: i64) -> Stats {
        Stats { age, weight, fitness: 0, alive: true, move_to: None }
    }

    /// A living animal of age 5 and weight 20 whose fitness is not yet
    /// computed.
    pub fn new_default() -> (s: Stats)
        ensures
            s == Stats::initial(5, 20_000_000),
    {
        Stats { age: 5, weight: 20_000_000, fitness: 0, alive: true, move_to: None }
    }

    /// A living animal of the given age and weight whose fitness is not yet
    /// computed.
    pub fn from(age: u32, weight: i64) -> (s: Stats)
        ensures
            s == Stats::initial(age, weight),
    {
        Stats { age, weight, fitness: 0, alive: true, move_to: None }
    }

    /// Whether the cached fitness is that of the age and weight.
    pub open spec fn current(self, p: Parameters) -> bool {
        self.fitness == fitness_of(p, self.age, self.weight)
    }

    /// These statistics with the fitness recomputed.
    pub open spec fn refreshed(self, p: Parameters) -> Stats {
        Stats { fitness: fitness_of(p, self.age, self.weight) as i64, ..self }
    }

    /// These statistics with the weight replaced and the fitness recomputed.
    pub open spec fn with_weight(self, p: Parameters, weight: int) -> Stats {
        Stats { weight: saturated(weight) as i64, ..self }.refreshed(p)
    }

    /// One year older. An age of `u32::MAX` stays.
    pub open spec fn aged(self, p: Parameters) -> Stats {
        Stats {
            age: if self.age < u32::MAX {
                (self.age + 1) as u32
            } else {
                self.age
            },
            ..self
        }.refreshed(p)
    }

    /// After a year's metabolism: the weight drops by `eta * weight`.
    pub open spec fn wasted(self, p: Parameters) -> Stats {
        self.with_weight(p, self.weight - scaled(p.eta as int, self.weight as int))
    }

    /// The chance of dying this year at a positive weight:
    /// `omega * (1 - fitness)`.
    pub open spec fn death_chance(self, p: Parameters) -> int {
        scaled(p.omega as int, ONE - self.fitness)
    }

    /// Whether the animal dies on the given draw: always at a weight of 0 or
    /// less, else when the draw falls below the chance of dying.
    pub open spec fn dies(self, p: Parameters, draw: i64) -> bool {
        self.weight <= 0 || draw < self.death_chance(p)
    }

    /// After the death check on the given draw. A dead animal stays dead.
    pub open spec fn after_death_check(self, p: Parameters, draw: i64) -> Stats {
        Stats { alive: self.alive && !self.dies(p, draw), ..self }
    }

    /// The chance of wanting to migrate this year: `mu * fitness`.
    pub open spec fn migration_chance(self, p: Parameters) -> int {
        scaled(p.mu as int, self.fitness as int)
    }

    /// Whether the animal wants to migrate on the given draw.
    pub open spec fn migrates(self, p: Parameters, draw: i64) -> bool {
        draw < self.migration_chance(p)
    }

    /// The chance of procreating among `count` animals of the species:
    /// `min(1, gamma * fitness * count)`.
    pub open spec fn birth_chance(self, p: Parameters, count: int) -> int {
        let chance = p.gamma * self.fitness * count / (ONE as int);
        if chance > ONE {
            ONE as int
        } else {
            chance
        }
    }

    /// Whether the animal bears a newborn of the given weight on the given
    /// draw: its weight exceeds the floor, the draw does not exceed the chance
    /// of procreating, and its weight covers the cost of the birth.
    pub open spec fn gives_birth(self, p: Parameters, count: int, draw: i64, newborn_weight: i64) -> bool {
        &&& self.weight > p.birth_floor()
        &&& draw <= self.birth_chance(p, count)
        &&& self.weight >= p.birth_cost(newborn_weight)
    }

    /// After bearing a newborn of the given weight.
    pub open spec fn after_birth(self, p: Parameters, newborn_weight: i64) -> Stats {
        self.with_weight(p, self.weight - p.birth_cost(newborn_weight))
    }

    /// After eating the given amount: the weight grows by `amount * beta`.
    pub open spec fn fed(self, p: Parameters, amount: int) -> Stats {
        self.with_weight(p, self.weight + scaled(amount, p.beta as int))
    }

    /// Whether a predator with these statistics, having eaten `eaten`, kills
    /// the given prey on the given draw: the prey lives, the predator's
    /// intake is not reached, the predator is strictly fitter, and the draw
    /// does not exceed the chance of a kill.
    pub open spec fn kills(self, p: Parameters, eaten: int, prey: Stats, draw: i64) -> bool {
        &&& prey.alive
        &&& eaten < p.f
        &&& self.fitness > prey.fitness
        &&& draw <= p.kill_chance(self.fitness - prey.fitness)
    }
}

/// An animal that bears a newborn weighed more than the floor before, and
/// does not weigh less than nothing after.
pub proof fn lemma_birth_weights(s: Stats, p: Parameters, count: int, draw: i64, newborn_weight: i64)
    requires
        s.gives_birth(p, count, draw, newborn_weight),
    ensures
        s.weight > p.birth_floor(),
        s.after_birth(p, newborn_weight).weight >= 0,
        s.after_birth(p, newborn_weight).weight == saturated(s.weight - p.birth_cost(newborn_weight)),
{
}

} // verus!
