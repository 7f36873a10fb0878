//! The animals: what herbivores and carnivores share, and how each feeds.
//!
//! Each probabilistic operation comes twice: `x_with_draw` takes the uniform
//! draw as an argument and is specified exactly; `x` draws from the
//! thread-local generator and is `x_with_draw` of some draw.

use vstd::prelude::*;
use crate::fixed::{floor_div, saturate, scale, ONE};
use crate::random::uniform_below;
pub use crate::species::{Parameters, Species, Stats};
use crate::species::{fitness, fitness_of, is_draw, lemma_fitness_range};

verus! {

/// Whether `draw` does not exceed the chance of procreating of an animal with
/// statistics `s` among `count` animals of its species.
fn within_birth_chance(p: &Parameters, s: &Stats, count: usize, draw: i64) -> (b: bool)
    requires
        p.valid(),
        is_draw(draw),
    ensures
        b == (draw <= s.birth_chance(*p, count as int)),
{
    let ghost g = p.gamma as int;
    let ghost fit = s.fitness as int;
    let ghost n = count as int;
    assert(-10_000_000_000_000_000_000_000_000_000_000 <= g * fit
        <= 10_000_000_000_000_000_000_000_000_000_000) by (nonlinear_arith)
        requires
            0 <= g <= 1_000_000_000_000,
            -10_000_000_000_000_000_000 <= fit <= 10_000_000_000_000_000_000,
    ;
    let gf: i128 = (p.gamma as i128) * (s.fitness as i128);
    if count == 0 || gf == 0 {
        assert(g * fit * n == 0) by (nonlinear_arith)
            requires
                n == 0 || g * fit == 0,
        ;
        draw == 0
    } else if gf < 0 {
        assert(g * fit * n / 1_000_000 < 0) by (nonlinear_arith)
            requires
                g * fit < 0,
                n >= 1,
        ;
        false
    } else if gf >= 1_000_000_000_000 || count as u128 >= 1_000_000_000_000 {
        assert(g * fit * n / 1_000_000 >= 1_000_000) by (nonlinear_arith)
            requires
                g * fit >= 1,
                n >= 1,
                g * fit >= 1_000_000_000_000 || n >= 1_000_000_000_000,
        ;
        true
    } else {
        assert(0 <= g * fit * n <= 1_000_000_000_000_000_000_000_000) by (nonlinear_arith)
            requires
                0 <= g * fit <= 1_000_000_000_000,
                0 <= n <= 1_000_000_000_000,
        ;
        let chance: i128 = gf * (count as i128) / (ONE as i128);
        (draw as i128) <= chance
    }
}

/// What herbivores and carnivores share: their statistics, the parameters of
/// their species, and the rules of ageing, metabolism, death, migration and
/// procreation.
pub trait AnimalTrait: Sized {
    /// The animal's statistics.
    spec fn stats(&self) -> Stats;

    /// The parameters of the animal's species.
    spec fn parameters(&self) -> Parameters;

    /// The species that the animal is marked as.
    spec fn tag(&self) -> Species;

    /// The same animal with other statistics.
    spec fn with_stats(&self, stats: Stats) -> Self;

    /// Replacing the statistics replaces nothing else.
    proof fn lemma_with_stats(&self, stats: Stats)
        ensures
            self.with_stats(stats).stats() == stats,
            self.with_stats(stats).parameters() == self.parameters(),
            self.with_stats(stats).tag() == self.tag(),
    ;

    /// The animal born with the given weight.
    spec fn newborn_of(weight: i64) -> Self;

    /// The species that the animal is marked as.
    fn species(&self) -> (species: Species)
        ensures
            species == self.tag(),
    ;

    /// An animal of age 0 and the given weight.
    fn newborn(weight: i64) -> (a: Self)
        ensures
            a == Self::newborn_of(weight),
            a.stats() == Stats::initial(0, weight).refreshed(a.parameters()),
    ;

    /// The animal's statistics, to be changed: the animal is then the same
    /// animal with the changed statistics.
    fn stats_as_mut(&mut self) -> (s: &mut Stats)
        ensures
            *s == old(self).stats(),
            *final(self) == old(self).with_stats(*final(s)),
    ;

    /// The animal's statistics.
    fn stats_as_ref(&self) -> (s: &Stats)
        ensures
            *s == self.stats(),
    ;

    /// The parameters of the animal's species, each in the parameter range.
    fn params(&self) -> (p: Parameters)
        ensures
            p == self.parameters(),
            p.valid(),
    ;

    /// The fitness of the animal's present age and weight.
    fn calc_fitness(&self) -> (f: i64)
        ensures
            f == fitness_of(self.parameters(), self.stats().age, self.stats().weight),
            0 <= f <= ONE,
            self.stats().weight <= 0 ==> f == 0,
    {
        let p = self.params();
        let s = self.stats_as_ref();
        fitness(&p, s.age, s.weight)
    }

    /// Recomputes the cached fitness.
    fn update_fitness(&mut self)
        ensures
            *final(self) == old(self).with_stats(old(self).stats().refreshed(old(self).parameters())),
            0 <= final(self).stats().fitness <= ONE,
            final(self).stats().current(final(self).parameters()),
    {
        let f = self.calc_fitness();
        let s = self.stats_as_mut();
        s.fitness = f;
        proof {
            old(self).lemma_with_stats(old(self).stats().refreshed(old(self).parameters()));
        }
    }

    /// Makes the animal one year older.
    fn aging(&mut self)
        ensures
            *final(self) == old(self).with_stats(old(self).stats().aged(old(self).parameters())),
            final(self).stats().current(final(self).parameters()),
    {
        let p = self.params();
        let s = self.stats_as_mut();
        if s.age < u32::MAX {
            s.age = s.age + 1;
        }
        s.fitness = fitness(&p, s.age, s.weight);
        proof {
            old(self).lemma_with_stats(old(self).stats().aged(old(self).parameters()));
        }
    }

    /// Takes a year's metabolism off the weight.
    fn loss_of_weight(&mut self)
        ensures
            *final(self) == old(self).with_stats(old(self).stats().wasted(old(self).parameters())),
            final(self).stats().current(final(self).parameters()),
    {
        let p = self.params();
        let s = self.stats_as_mut();
        let loss: i128 = scale(p.eta, s.weight);
        assert(-10_000_000_000_000_000_000_000_000 <= loss <= 10_000_000_000_000_000_000_000_000)
            by (nonlinear_arith)
            requires
                0 <= p.eta <= 1_000_000_000_000,
                -10_000_000_000_000_000_000 <= s.weight <= 10_000_000_000_000_000_000,
                loss == (p.eta * s.weight) / 1_000_000,
        ;
        s.weight = saturate(s.weight as i128 - loss);
        s.fitness = fitness(&p, s.age, s.weight);
        proof {
            old(self).lemma_with_stats(old(self).stats().wasted(old(self).parameters()));
        }
    }

    /// Applies the death check on the given draw.
    fn death_with_draw(&mut self, draw: i64)
        requires
            is_draw(draw),
        ensures
            *final(self) == old(self).with_stats(
                old(self).stats().after_death_check(old(self).parameters(), draw),
            ),
    {
        let p = self.params();
        let s = self.stats_as_mut();
        assert(-20_000_000_000_000_000_000_000_000_000_000 <= p.omega * (ONE - s.fitness)
            <= 20_000_000_000_000_000_000_000_000_000_000) by (nonlinear_arith)
            requires
                0 <= p.omega <= 1_000_000_000_000,
                -10_000_000_000_000_000_000 <= s.fitness <= 10_000_000_000_000_000_000,
                ONE == 1_000_000,
        ;
        let chance: i128 = floor_div(
            (p.omega as i128) * ((ONE as i128) - (s.fitness as i128)),
            ONE as i128,
        );
        if s.weight <= 0 || (draw as i128) < chance {
            s.alive = false;
        }
    }

    /// Applies the death check on a draw from the thread-local generator.
    fn death(&mut self)
        ensures
            exists|draw: i64|
                is_draw(draw) && *final(self) == old(self).with_stats(
                    old(self).stats().after_death_check(old(self).parameters(), draw),
                ),
    {
        let mut rng = rand::thread_rng();
        let draw = uniform_below(&mut rng, ONE);
        self.death_with_draw(draw);
        assert(is_draw(draw));
    }

    /// Whether the animal wants to migrate on the given draw.
    fn migrate_with_draw(&self, draw: i64) -> (b: bool)
        requires
            is_draw(draw),
        ensures
            b == self.stats().migrates(self.parameters(), draw),
    {
        let p = self.params();
        let s = self.stats_as_ref();
        (draw as i128) < scale(p.mu, s.fitness)
    }

    /// Whether the animal wants to migrate on a draw from the thread-local
    /// generator.
    fn migrate(&self) -> (b: bool)
        ensures
            exists|draw: i64| is_draw(draw) && b == self.stats().migrates(self.parameters(), draw),
    {
        let mut rng = rand::thread_rng();
        let draw = uniform_below(&mut rng, ONE);
        let b = self.migrate_with_draw(draw);
        assert(is_draw(draw));
        b
    }

    /// Decides on the given draw whether the animal bears a newborn of the
    /// given weight; if so takes the cost of the birth off the parent and
    /// returns the newborn's weight.
    fn get_birthweight_with_draw(&mut self, count_in_cell: usize, draw: i64, newborn_weight: i64) -> (r:
        Option<i64>)
        requires
            is_draw(draw),
        ensures
            old(self).stats().gives_birth(
                old(self).parameters(),
                count_in_cell as int,
                draw,
                newborn_weight,
            ) ==> r == Some(newborn_weight) && *final(self) == old(self).with_stats(
                old(self).stats().after_birth(old(self).parameters(), newborn_weight),
            ) && final(self).stats().weight >= 0,
            !old(self).stats().gives_birth(
                old(self).parameters(),
                count_in_cell as int,
                draw,
                newborn_weight,
            ) ==> r is None && *final(self) == *old(self),
    {
        let p = self.params();
        let s = *self.stats_as_ref();
        let litter: i128 = scale(p.w_birth, p.sigma_birth);
        assert(0 <= litter <= 1_000_000_000_000_000_000) by (nonlinear_arith)
            requires
                0 <= p.w_birth <= 1_000_000_000_000,
                0 <= p.sigma_birth <= 1_000_000_000_000,
                litter == (p.w_birth * p.sigma_birth) / 1_000_000,
        ;
        assert(0 <= p.zeta * litter <= 1_000_000_000_000_000_000_000_000_000_000) by (nonlinear_arith)
            requires
                0 <= p.zeta <= 1_000_000_000_000,
                0 <= litter <= 1_000_000_000_000_000_000,
        ;
        let floor: i128 = floor_div((p.zeta as i128) * litter, ONE as i128);
        if (s.weight as i128) <= floor {
            return None;
        }
        if !within_birth_chance(&p, &s, count_in_cell, draw) {
            return None;
        }
        let cost: i128 = scale(p.xi, newborn_weight);
        if (s.weight as i128) < cost {
            return None;
        }
        assert(floor >= 0) by (nonlinear_arith)
            requires
                0 <= p.zeta * litter,
                floor == (p.zeta * litter) / 1_000_000,
        ;
        assert(-10_000_000_000_000_000_000_000_000 <= cost) by (nonlinear_arith)
            requires
                0 <= p.xi <= 1_000_000_000_000,
                -10_000_000_000_000_000_000 <= newborn_weight,
                cost == (p.xi * newborn_weight) / 1_000_000,
        ;
        let m = self.stats_as_mut();
        m.weight = saturate(m.weight as i128 - cost);
        m.fitness = fitness(&p, m.age, m.weight);
        proof {
            old(self).lemma_with_stats(
                old(self).stats().after_birth(old(self).parameters(), newborn_weight),
            );
        }
        Some(newborn_weight)
    }

    /// Decides on a draw from the thread-local generator whether the animal
    /// bears a newborn of the given weight.
    fn get_birthweight(&mut self, count_in_cell: usize, newborn_weight: i64) -> (r: Option<i64>)
        ensures
            exists|draw: i64|
                is_draw(draw) && (if old(self).stats().gives_birth(
                    old(self).parameters(),
                    count_in_cell as int,
                    draw,
                    newborn_weight,
                ) {
                    r == Some(newborn_weight) && *final(self) == old(self).with_stats(
                        old(self).stats().after_birth(old(self).parameters(), newborn_weight),
                    )
                } else {
                    r is None && *final(self) == *old(self)
                }),
            r is Some ==> r == Some(newborn_weight) && old(self).stats().weight
                > old(self).parameters().birth_floor() && final(self).stats().weight >= 0,
    {
        let mut rng = rand::thread_rng();
        let draw = uniform_below(&mut rng, ONE);
        let r = self.get_birthweight_with_draw(count_in_cell, draw, newborn_weight);
        assert(is_draw(draw));
        r
    }
}

/// A plant eater.
#[derive(Clone, Copy, Debug, PartialEq, Eq)]
pub struct Herbivore {
    pub species: Species,
    pub stats: Stats,
}

impl AnimalTrait for Herbivore {
    open spec fn stats(&self) -> Stats {
        self.stats
    }

    open spec fn parameters(&self) -> Parameters {
        Parameters::herbivore_table()
    }

    open spec fn tag(&self) -> Species {
        self.species
    }

    open spec fn with_stats(&self, stats: Stats) -> Self {
        Herbivore { species: self.species, stats }
    }

    proof fn lemma_with_stats(&self, stats: Stats) {
        assert(self.with_stats(stats).tag() == self.with_stats(stats).species);
    }

    open spec fn newborn_of(weight: i64) -> Self {
        Herbivore::of(Stats::initial(0, weight))
    }

    fn species(&self) -> (species: Species) {
        self.species
    }

    fn newborn(weight: i64) -> (a: Self) {
        Herbivore::from(Stats::from(0, weight))
    }

    fn stats_as_mut(&mut self) -> (s: &mut Stats) {
        &mut self.stats
    }

    fn stats_as_ref(&self) -> (s: &Stats) {
        &self.stats
    }

    fn params(&self) -> (p: Parameters) {
        Parameters::herbivore()
    }
}

impl Herbivore {
    /// A herbivore of age 5 and weight 20.
    pub fn new() -> (h: Herbivore)
        ensures
            h == Herbivore::of(Stats::initial(5, 20_000_000)),
            0 <= h.stats.fitness <= ONE,
    {
        Herbivore::from(Stats::new_default())
    }

    /// The herbivore with the given statistics and its fitness computed.
    pub open spec fn of(stats: Stats) -> Herbivore {
        Herbivore {
            species: Species::Herbivore,
            stats: stats.refreshed(Parameters::herbivore_table()),
        }
    }

    /// A herbivore with the given statistics; its fitness is computed.
    pub fn from(stats: Stats) -> (h: Herbivore)
        ensures
            h == Herbivore::of(stats),
            0 <= h.stats.fitness <= ONE,
            h.stats.current(Parameters::herbivore_table()),
    {
        let mut herb = Herbivore { species: Species::Herbivore, stats };
        herb.update_fitness();
        herb
    }

    /// Decides on the given draw whether the herbivore bears a newborn of
    /// the given weight among `count_in_cell` herbivores; if so takes the
    /// cost of the birth off the parent and returns the newborn.
    pub fn procreation_with_draw(&mut self, count_in_cell: usize, draw: i64, newborn_weight: i64) -> (r:
        Option<Herbivore>)
        requires
            is_draw(draw),
        ensures
            old(self).stats.gives_birth(
                Parameters::herbivore_table(),
                count_in_cell as int,
                draw,
                newborn_weight,
            ) ==> r == Some(Herbivore::of(Stats::initial(0, newborn_weight))) && *final(self)
                == old(self).with_stats(
                old(self).stats.after_birth(Parameters::herbivore_table(), newborn_weight),
            ) && final(self).stats.weight >= 0,
            !old(self).stats.gives_birth(
                Parameters::herbivore_table(),
                count_in_cell as int,
                draw,
                newborn_weight,
            ) ==> r is None && *final(self) == *old(self),
    {
        match self.get_birthweight_with_draw(count_in_cell, draw, newborn_weight) {
            Some(weight) => Some(Herbivore::from(Stats::from(0, weight))),
            None => None,
        }
    }

    /// Decides on a draw from the thread-local generator whether the
    /// herbivore bears a newborn of the given weight.
    pub fn procreation(&mut self, count_in_cell: usize, newborn_weight: i64) -> (r: Option<Herbivore>)
        ensures
            exists|draw: i64|
                is_draw(draw) && (if old(self).stats.gives_birth(
                    Parameters::herbivore_table(),
                    count_in_cell as int,
                    draw,
                    newborn_weight,
                ) {
                    r == Some(Herbivore::of(Stats::initial(0, newborn_weight))) && *final(self)
                        == old(self).with_stats(
                        old(self).stats.after_birth(Parameters::herbivore_table(), newborn_weight),
                    )
                } else {
                    r is None && *final(self) == *old(self)
                }),
            r is Some ==> old(self).stats.weight > Parameters::herbivore_table().birth_floor()
                && final(self).stats.weight >= 0,
    {
        let mut rng = rand::thread_rng();
        let draw = uniform_below(&mut rng, ONE);
        let r = self.procreation_with_draw(count_in_cell, draw, newborn_weight);
        assert(is_draw(draw));
        r
    }

    /// Eats of the fodder on offer and returns what was eaten.
    pub fn feeding(&mut self, fodder: i64) -> (eaten: i64)
        ensures
            eaten == Parameters::herbivore_table().intake(fodder),
            *final(self) == old(self).with_stats(
                old(self).stats.fed(Parameters::herbivore_table(), eaten as int),
            ),
            final(self).stats.current(Parameters::herbivore_table()),
    {
        let p = self.params();
        let eaten: i64 = if fodder < p.f {
            fodder
        } else {
            p.f
        };
        let gain: i128 = scale(eaten, p.beta);
        assert(-10_000_000_000_000_000_000_000_000 <= gain <= 10_000_000_000_000_000_000_000_000)
            by (nonlinear_arith)
            requires
                0 <= p.beta <= 1_000_000_000_000,
                -10_000_000_000_000_000_000 <= eaten <= 10_000_000_000_000_000_000,
                gain == (eaten * p.beta) / 1_000_000,
        ;
        self.stats.weight = saturate(self.stats.weight as i128 + gain);
        self.stats.fitness = fitness(&p, self.stats.age, self.stats.weight);
        eaten
    }
}

/// A predator of herbivores.
#[derive(Clone, Copy, Debug, PartialEq, Eq)]
pub struct Carnivore {
    pub species: Species,
    pub stats: Stats,
}

impl AnimalTrait for Carnivore {
    open spec fn stats(&self) -> Stats {
        self.stats
    }

    open spec fn parameters(&self) -> Parameters {
        Parameters::carnivore_table()
    }

    open spec fn tag(&self) -> Species {
        self.species
    }

    open spec fn with_stats(&self, stats: Stats) -> Self {
        Carnivore { species: self.species, stats }
    }

    proof fn lemma_with_stats(&self, stats: Stats) {
        assert(self.with_stats(stats).tag() == self.with_stats(stats).species);
    }

    open spec fn newborn_of(weight: i64) -> Self {
        Carnivore::of(Stats::initial(0, weight))
    }

    fn species(&self) -> (species: Species) {
        self.species
    }

    fn newborn(weight: i64) -> (a: Self) {
        Carnivore::from(Stats::from(0, weight))
    }

    fn stats_as_mut(&mut self) -> (s: &mut Stats) {
        &mut self.stats
    }

    fn stats_as_ref(&self) -> (s: &Stats) {
        &self.stats
    }

    fn params(&self) -> (p: Parameters) {
        Parameters::carnivore()
    }
}

/// The predator's statistics, and what it has eaten, once it has met the
/// first `n` of the prey, the `i`-th on the `i`-th draw.
pub open spec fn hunt(predator: Stats, prey: Seq<Herbivore>, draws: Seq<i64>, n: nat) -> (Stats, int)
    decreases n,
{
    if n == 0 {
        (predator, 0)
    } else {
        let p = Parameters::carnivore_table();
        let (s, eaten) = hunt(predator, prey, draws, (n - 1) as nat);
        let victim = prey[n - 1].stats;
        if s.kills(p, eaten, victim, draws[n - 1]) {
            (s.fed(p, p.portion(eaten, victim.weight)), eaten + p.portion(eaten, victim.weight))
        } else {
            (s, eaten)
        }
    }
}

/// Whether the `i`-th of the prey is killed in the hunt.
pub open spec fn falls(predator: Stats, prey: Seq<Herbivore>, draws: Seq<i64>, i: int) -> bool {
    let (s, eaten) = hunt(predator, prey, draws, i as nat);
    s.kills(Parameters::carnivore_table(), eaten, prey[i].stats, draws[i])
}

/// The herbivore, killed.
pub open spec fn slain(h: Herbivore) -> Herbivore {
    Herbivore { species: h.species, stats: Stats { alive: false, ..h.stats } }
}

/// The prey after the hunt: those that fell are dead, the others untouched.
pub open spec fn hunted(predator: Stats, prey: Seq<Herbivore>, draws: Seq<i64>) -> Seq<Herbivore> {
    Seq::new(
        prey.len(),
        |i: int|
            if falls(predator, prey, draws, i) {
                slain(prey[i])
            } else {
                prey[i]
            },
    )
}

/// In a hunt the predator never eats more than its species' intake `f`, and
/// its fitness is current unless it killed nothing.
pub proof fn lemma_hunt_intake(predator: Stats, prey: Seq<Herbivore>, draws: Seq<i64>, n: nat)
    ensures
        hunt(predator, prey, draws, n).1 <= Parameters::carnivore_table().f,
        hunt(predator, prey, draws, n).0 == predator || hunt(predator, prey, draws, n).0.current(
            Parameters::carnivore_table(),
        ),
    decreases n,
{
    if n > 0 {
        lemma_hunt_intake(predator, prey, draws, (n - 1) as nat);
        let p = Parameters::carnivore_table();
        let (s, eaten) = hunt(predator, prey, draws, (n - 1) as nat);
        let amount = p.portion(eaten, prey[n - 1].stats.weight);
        lemma_fitness_range(p, s.fed(p, amount).age, s.fed(p, amount).weight);
    }
}

/// A herbivore that falls in a hunt is alive before and strictly less fit
/// than the predator at that moment.
pub proof fn lemma_hunt_fitter(predator: Stats, prey: Seq<Herbivore>, draws: Seq<i64>, i: int)
    requires
        0 <= i < prey.len(),
        falls(predator, prey, draws, i),
    ensures
        prey[i].stats.alive,
        hunt(predator, prey, draws, i as nat).0.fitness > prey[i].stats.fitness,
{
}

impl Carnivore {
    /// A carnivore of age 5 and weight 20.
    pub fn new() -> (c: Carnivore)
        ensures
            c == Carnivore::of(Stats::initial(5, 20_000_000)),
            0 <= c.stats.fitness <= ONE,
    {
        Carnivore::from(Stats::new_default())
    }

    /// The carnivore with the given statistics and its fitness computed.
    pub open spec fn of(stats: Stats) -> Carnivore {
        Carnivore {
            species: Species::Carnivore,
            stats: stats.refreshed(Parameters::carnivore_table()),
        }
    }

    /// A carnivore with the given statistics; its fitness is computed.
    pub fn from(stats: Stats) -> (c: Carnivore)
        ensures
            c == Carnivore::of(stats),
            0 <= c.stats.fitness <= ONE,
            c.stats.current(Parameters::carnivore_table()),
    {
        let mut carn = Carnivore { species: Species::Carnivore, stats };
        carn.update_fitness();
        carn
    }

    /// Decides on the given draw whether the carnivore bears a newborn of
    /// the given weight among `count_in_cell` carnivores; if so takes the
    /// cost of the birth off the parent and returns the newborn.
    pub fn procreation_with_draw(&mut self, count_in_cell: usize, draw: i64, newborn_weight: i64) -> (r:
        Option<Carnivore>)
        requires
            is_draw(draw),
        ensures
            old(self).stats.gives_birth(
                Parameters::carnivore_table(),
                count_in_cell as int,
                draw,
                newborn_weight,
            ) ==> r == Some(Carnivore::of(Stats::initial(0, newborn_weight))) && *final(self)
                == old(self).with_stats(
                old(self).stats.after_birth(Parameters::carnivore_table(), newborn_weight),
            ) && final(self).stats.weight >= 0,
            !old(self).stats.gives_birth(
                Parameters::carnivore_table(),
                count_in_cell as int,
                draw,
                newborn_weight,
            ) ==> r is None && *final(self) == *old(self),
    {
        match self.get_birthweight_with_draw(count_in_cell, draw, newborn_weight) {
            Some(weight) => Some(Carnivore::from(Stats::from(0, weight))),
            None => None,
        }
    }

    /// Decides on a draw from the thread-local generator whether the
    /// carnivore bears a newborn of the given weight.
    pub fn procreation(&mut self, count_in_cell: usize, newborn_weight: i64) -> (r: Option<Carnivore>)
        ensures
            exists|draw: i64|
                is_draw(draw) && (if old(self).stats.gives_birth(
                    Parameters::carnivore_table(),
                    count_in_cell as int,
                    draw,
                    newborn_weight,
                ) {
                    r == Some(Carnivore::of(Stats::initial(0, newborn_weight))) && *final(self)
                        == old(self).with_stats(
                        old(self).stats.after_birth(Parameters::carnivore_table(), newborn_weight),
                    )
                } else {
                    r is None && *final(self) == *old(self)
                }),
            r is Some ==> old(self).stats.weight > Parameters::carnivore_table().birth_floor()
                && final(self).stats.weight >= 0,
    {
        let mut rng = rand::thread_rng();
        let draw = uniform_below(&mut rng, ONE);
        let r = self.procreation_with_draw(count_in_cell, draw, newborn_weight);
        assert(is_draw(draw));
        r
    }

    /// Whether the carnivore, having eaten `eaten`, kills the given prey on
    /// the given draw.
    fn strikes(&self, eaten: i128, prey: &Stats, draw: i64) -> (b: bool)
        requires
            is_draw(draw),
        ensures
            b == self.stats.kills(Parameters::carnivore_table(), eaten as int, *prey, draw),
    {
        let p = self.params();
        if !prey.alive || eaten >= p.f as i128 || self.stats.fitness <= prey.fitness {
            return false;
        }
        let gap: i128 = (self.stats.fitness as i128) - (prey.fitness as i128);
        if gap >= p.delta_phi_max as i128 {
            true
        } else {
            assert(0 <= gap * ONE <= 1_000_000_000_000_000_000) by (nonlinear_arith)
                requires
                    0 <= gap <= 1_000_000_000_000,
                    ONE == 1_000_000,
            ;
            (draw as i128) <= gap * (ONE as i128) / (p.delta_phi_max as i128)
        }
    }

    /// Hunts through the prey in order, the `i`-th on the `i`-th draw: each
    /// prey that falls is marked dead, and the carnivore gains `beta` times
    /// what it eats of it, until its intake `f` is reached. No prey is
    /// removed.
    pub fn feeding_with_draws(&mut self, herb_sorted_lowest_fitness: &mut Vec<Herbivore>, draws: &Vec<i64>)
        requires
            draws.len() == old(herb_sorted_lowest_fitness).len(),
            forall|i: int| 0 <= i < draws.len() ==> is_draw(#[trigger] draws[i]),
        ensures
            *final(self) == old(self).with_stats(
                hunt(
                    old(self).stats,
                    old(herb_sorted_lowest_fitness)@,
                    draws@,
                    draws.len() as nat,
                ).0,
            ),
            final(herb_sorted_lowest_fitness)@ == hunted(
                old(self).stats,
                old(herb_sorted_lowest_fitness)@,
                draws@,
            ),
            hunt(old(self).stats, old(herb_sorted_lowest_fitness)@, draws@, draws.len() as nat).1
                <= Parameters::carnivore_table().f,
            final(self).stats == old(self).stats || final(self).stats.current(
                Parameters::carnivore_table(),
            ),
    {
        let p = self.params();
        let n = herb_sorted_lowest_fitness.len();
        let ghost predator = self.stats;
        let ghost prey = herb_sorted_lowest_fitness@;
        let mut eaten: i128 = 0;
        let mut i: usize = 0;
        while i < n
            invariant
                i <= n,
                n == prey.len(),
                n == draws.len(),
                p == Parameters::carnivore_table(),
                herb_sorted_lowest_fitness@.len() == n,
                forall|j: int| 0 <= j < n ==> is_draw(#[trigger] draws[j]),
                self.species == old(self).species,
                (self.stats, eaten as int) == hunt(predator, prey, draws@, i as nat),
                -(i * 0x8000_0000_0000_0000) <= eaten <= p.f,
                forall|j: int|
                    0 <= j < i ==> #[trigger] herb_sorted_lowest_fitness@[j] == hunted(
                        predator,
                        prey,
                        draws@,
                    )[j],
                forall|j: int| i <= j < n ==> #[trigger] herb_sorted_lowest_fitness@[j] == prey[j],
            decreases n - i,
        {
            let victim = herb_sorted_lowest_fitness[i].stats;
            if self.strikes(eaten, &victim, draws[i]) {
                let amount: i64 = if eaten <= (p.f as i128) - 0x8000_0000_0000_0000 {
                    victim.weight
                } else if (victim.weight as i128) > (p.f as i128) - eaten {
                    ((p.f as i128) - eaten) as i64
                } else {
                    victim.weight
                };
                assert(amount == p.portion(eaten as int, victim.weight));
                let gain: i128 = scale(amount, p.beta);
                assert(-10_000_000_000_000_000_000_000_000 <= gain
                    <= 10_000_000_000_000_000_000_000_000) by (nonlinear_arith)
                    requires
                        0 <= p.beta <= 1_000_000_000_000,
                        -10_000_000_000_000_000_000 <= amount <= 10_000_000_000_000_000_000,
                        gain == (amount * p.beta) / 1_000_000,
                ;
                self.stats.weight = saturate(self.stats.weight as i128 + gain);
                self.stats.fitness = fitness(&p, self.stats.age, self.stats.weight);
                herb_sorted_lowest_fitness[i].stats.alive = false;
                eaten = eaten + amount as i128;
            }
            i = i + 1;
        }
        proof {
            lemma_hunt_intake(predator, prey, draws@, n as nat);
            assert(herb_sorted_lowest_fitness@ =~= hunted(predator, prey, draws@));
        }
    }

    /// Hunts through the prey in order on draws from the thread-local
    /// generator.
    pub fn feeding(&mut self, herb_sorted_lowest_fitness: &mut Vec<Herbivore>)
        ensures
            exists|draws: Seq<i64>|
                {
                    &&& draws.len() == old(herb_sorted_lowest_fitness).len()
                    &&& forall|i: int| 0 <= i < draws.len() ==> is_draw(#[trigger] draws[i])
                    &&& *final(self) == old(self).with_stats(
                        hunt(
                            old(self).stats,
                            old(herb_sorted_lowest_fitness)@,
                            draws,
                            draws.len(),
                        ).0,
                    )
                    &&& final(herb_sorted_lowest_fitness)@ == hunted(
                        old(self).stats,
                        old(herb_sorted_lowest_fitness)@,
                        draws,
                    )
                    &&& hunt(
                        old(self).stats,
                        old(herb_sorted_lowest_fitness)@,
                        draws,
                        draws.len(),
                    ).1 <= Parameters::carnivore_table().f
                },
            final(self).stats == old(self).stats || final(self).stats.current(
                Parameters::carnivore_table(),
            ),
    {
        let draws = unit_draws(herb_sorted_lowest_fitness.len());
        self.feeding_with_draws(herb_sorted_lowest_fitness, &draws);
    }
}

/// Takes `n` draws from the thread-local generator.
pub fn unit_draws(n: usize) -> (draws: Vec<i64>)
    ensures
        draws.len() == n,
        forall|i: int| 0 <= i < n ==> is_draw(#[trigger] draws[i]),
{
    let mut rng = rand::thread_rng();
    let mut draws: Vec<i64> = Vec::new();
    while draws.len() < n
        invariant
            draws.len() <= n,
            forall|i: int| 0 <= i < draws.len() ==> is_draw(#[trigger] draws[i]),
        decreases n - draws.len(),
    {
        let draw = uniform_below(&mut rng, ONE);
        draws.push(draw);
    }
    draws
}

} // verus!
