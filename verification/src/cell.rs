//! One cell of the island: its terrain, its fodder and the animals that live
//! on it, with the yearly passes over them.
//!
//! A cell of water holds no fauna; on it every pass does nothing.

use vstd::prelude::*;
use crate::animal::{AnimalTrait, Carnivore, Herbivore};
use crate::feeding::{fodder_left, graze, grazed, hunt_all, hunt_draws, ravaged, sated, sort_by_fitness, sorted};
use crate::feeding::{lemma_sorted, ordered};
use crate::population::{age_all, aged_all, all_alive, all_current, all_draws, all_steps, bred, breed};
use crate::population::{checked_all, cull, lemma_survivors_current};
use crate::population::{is_step, living, neighbour, neighbour_at, plan, random_steps, waste_all, wasted_all};
use crate::population::with_intents;
use crate::random::shuffle;
use crate::species::Stats;

verus! {

/// The animals of one cell, by species.
#[derive(Debug, PartialEq)]
pub struct Fauna {
    pub herbivore: Vec<Herbivore>,
    pub carnivore: Vec<Carnivore>,
}

impl Clone for Fauna {
    fn clone(&self) -> (fauna: Fauna)
        ensures
            fauna.herbivore@ == self.herbivore@,
            fauna.carnivore@ == self.carnivore@,
    {
        let fauna = Fauna { herbivore: self.herbivore.clone(), carnivore: self.carnivore.clone() };
        assert(fauna.herbivore@ =~= self.herbivore@);
        assert(fauna.carnivore@ =~= self.carnivore@);
        fauna
    }
}

impl Fauna {
    /// No animals.
    pub fn new() -> (fauna: Fauna)
        ensures
            fauna.herbivore@.len() == 0,
            fauna.carnivore@.len() == 0,
    {
        Fauna { herbivore: Vec::new(), carnivore: Vec::new() }
    }
}

/// The kinds of terrain.
#[derive(Clone, Copy, Debug, PartialEq, Eq)]
pub enum CellType {
    Water,
    Desert,
    Lowland,
    Highland,
}

/// The fodder that a cell of the given terrain holds at the start of a year:
/// none on water and desert, 800 on lowland, 300 on highland.
pub open spec fn max_fodder(terrain: CellType) -> i64 {
    match terrain {
        CellType::Water => 0,
        CellType::Desert => 0,
        CellType::Lowland => 800_000_000,
        CellType::Highland => 300_000_000,
    }
}

/// What `add_animal_from` rejects.
#[derive(Clone, Copy, Debug, PartialEq, Eq)]
pub enum StockError {
    /// The species name is neither `Herbivore` nor `Carnivore`.
    WrongSpecies,
}

/// A cell of the island.
#[derive(Debug, PartialEq)]
pub struct Cell {
    pub name: CellType,
    pub loc: (u32, u32),
    pub fauna: Option<Fauna>,
    pub fodder: i64,
    pub f_max: i64,
}

impl Clone for Cell {
    fn clone(&self) -> (cell: Cell)
        ensures
            cell.ground() == self.ground(),
            cell.fodder == self.fodder,
            cell.herbivores() == self.herbivores(),
            cell.carnivores() == self.carnivores(),
    {
        let fauna = match &self.fauna {
            Some(fauna) => Some(fauna.clone()),
            None => None,
        };
        Cell { name: self.name, loc: self.loc, fauna, fodder: self.fodder, f_max: self.f_max }
    }
}

/// `count` herbivores of age 5 and weight 20 behind `herbs`.
pub open spec fn stocked_herbivores(herbs: Seq<Herbivore>, count: nat) -> Seq<Herbivore> {
    herbs + Seq::new(count, |i: int| Herbivore::of(Stats::initial(5, 20_000_000)))
}

/// `count` carnivores of age 5 and weight 20 behind `carns`.
pub open spec fn stocked_carnivores(carns: Seq<Carnivore>, count: nat) -> Seq<Carnivore> {
    carns + Seq::new(count, |i: int| Carnivore::of(Stats::initial(5, 20_000_000)))
}

/// The herbivores as the carnivores find them after the herbivores' meal:
/// sorted by ascending fitness, grazed in that order, and, where there are
/// carnivores, sorted by ascending fitness again.
pub open spec fn prey_after_grazing(herbs: Seq<Herbivore>, fodder: i64, carnivores: nat) -> Seq<Herbivore> {
    let fed = grazed(sorted(herbs, false), fodder);
    if carnivores == 0 {
        fed
    } else {
        sorted(fed, false)
    }
}

/// What chance decides in one cell in one year.
pub ghost struct Chance {
    /// The draws on which the herbivores procreate.
    pub herbivore_births: Seq<i64>,
    /// The draws on which the carnivores procreate.
    pub carnivore_births: Seq<i64>,
    /// The carnivores in the order in which they hunt.
    pub hunters: Seq<Carnivore>,
    /// For each hunter the draws on which it hunts.
    pub hunts: Seq<Seq<i64>>,
    /// The draws on which the herbivores decide to migrate.
    pub herbivore_moves: Seq<i64>,
    /// The directions in which the herbivores migrate.
    pub herbivore_steps: Seq<(i32, i32)>,
    /// The draws on which the carnivores decide to migrate.
    pub carnivore_moves: Seq<i64>,
    /// The directions in which the carnivores migrate.
    pub carnivore_steps: Seq<(i32, i32)>,
    /// The draws on which the herbivores die.
    pub herbivore_deaths: Seq<i64>,
    /// The draws on which the carnivores die.
    pub carnivore_deaths: Seq<i64>,
}

/// The animals of one species at the end of a year, given what they are
/// after the meals: they decide on migration, grow a year older, lose
/// weight, and those that die are removed.
pub open spec fn after_meals<A: AnimalTrait>(
    animals: Seq<A>,
    loc: (u32, u32),
    moves: Seq<i64>,
    steps: Seq<(i32, i32)>,
    deaths: Seq<i64>,
) -> Seq<A> {
    living(checked_all(wasted_all(aged_all(with_intents(animals, loc, moves, steps))), deaths))
}

impl Cell {
    /// The cell's terrain.
    pub open spec fn terrain(&self) -> CellType {
        self.name
    }

    /// The fodder the cell holds at the start of a year.
    pub open spec fn fodder_max(&self) -> i64 {
        self.f_max
    }

    /// The cell's herbivores; none where there is no fauna.
    pub open spec fn herbivores(&self) -> Seq<Herbivore> {
        match self.fauna {
            Some(fauna) => fauna.herbivore@,
            None => Seq::empty(),
        }
    }

    /// The cell's carnivores; none where there is no fauna.
    pub open spec fn carnivores(&self) -> Seq<Carnivore> {
        match self.fauna {
            Some(fauna) => fauna.carnivore@,
            None => Seq::empty(),
        }
    }

    /// What no pass changes: the terrain, what fodder it yields, the
    /// coordinate, and whether the cell holds fauna.
    pub open spec fn ground(&self) -> (CellType, i64, (u32, u32), bool) {
        (self.terrain(), self.fodder_max(), self.loc, self.fauna is Some)
    }

    /// The cell's invariant: the terrain decides what fodder it yields and
    /// whether it holds fauna (all but water do), and the fodder lies between
    /// nothing and what the terrain yields.
    pub open spec fn wf(&self) -> bool {
        &&& self.fodder_max() == max_fodder(self.terrain())
        &&& (self.terrain() == CellType::Water <==> self.fauna is None)
        &&& 0 <= self.fodder <= self.fodder_max()
    }

    /// The cell with its fodder restored.
    pub open spec fn refilled(self) -> Cell {
        Cell { fodder: self.f_max, ..self }
    }

    /// The herbivores as the carnivores find them in the year of the given
    /// chance: after the births and the herbivores' meal.
    pub open spec fn prey(&self, herbivore_weights: Seq<i64>, chance: Chance) -> Seq<Herbivore> {
        prey_after_grazing(
            bred(self.herbivores(), chance.herbivore_births, herbivore_weights),
            self.fodder,
            chance.hunters.len(),
        )
    }

    /// Whether the chance is one of this cell's year: it holds a draw for
    /// every decision of the year, and the hunters are the carnivores after
    /// the births.
    pub open spec fn admits(&self, herbivore_weights: Seq<i64>, carnivore_weights: Seq<i64>, chance: Chance) -> bool {
        &&& chance.herbivore_births.len() == self.herbivores().len()
        &&& chance.carnivore_births.len() == self.carnivores().len()
        &&& all_draws(chance.herbivore_births)
        &&& all_draws(chance.carnivore_births)
        &&& chance.hunters.to_multiset() == bred(
            self.carnivores(),
            chance.carnivore_births,
            carnivore_weights,
        ).to_multiset()
        &&& hunt_draws(chance.hunts, chance.hunters.len(), self.prey(herbivore_weights, chance).len())
        &&& chance.herbivore_moves.len() == self.prey(herbivore_weights, chance).len()
        &&& chance.herbivore_steps.len() == chance.herbivore_moves.len()
        &&& chance.herbivore_deaths.len() == chance.herbivore_moves.len()
        &&& chance.carnivore_moves.len() == chance.hunters.len()
        &&& chance.carnivore_steps.len() == chance.carnivore_moves.len()
        &&& chance.carnivore_deaths.len() == chance.carnivore_moves.len()
        &&& all_draws(chance.herbivore_moves)
        &&& all_draws(chance.carnivore_moves)
        &&& all_steps(chance.herbivore_steps)
        &&& all_steps(chance.carnivore_steps)
        &&& all_draws(chance.herbivore_deaths)
        &&& all_draws(chance.carnivore_deaths)
    }

    /// The herbivores at the end of the year of the given chance.
    pub open spec fn herbivores_after_year(&self, herbivore_weights: Seq<i64>, chance: Chance) -> Seq<Herbivore> {
        after_meals(
            ravaged(
                self.prey(herbivore_weights, chance),
                chance.hunters,
                chance.hunts,
                chance.hunters.len(),
            ),
            self.loc,
            chance.herbivore_moves,
            chance.herbivore_steps,
            chance.herbivore_deaths,
        )
    }

    /// The carnivores at the end of the year of the given chance.
    pub open spec fn carnivores_after_year(&self, herbivore_weights: Seq<i64>, chance: Chance) -> Seq<Carnivore> {
        after_meals(
            sated(self.prey(herbivore_weights, chance), chance.hunters, chance.hunts),
            self.loc,
            chance.carnivore_moves,
            chance.carnivore_steps,
            chance.carnivore_deaths,
        )
    }

    /// The cell's terrain.
    pub fn get_cell(&self) -> (terrain: CellType)
        ensures
            terrain == self.terrain(),
    {
        self.name
    }

    /// Adds a herbivore to a cell that holds fauna.
    pub fn add_herb_struct(&mut self, animal: Herbivore)
        requires
            old(self).fauna is Some,
        ensures
            final(self).herbivores() == old(self).herbivores().push(animal),
            final(self).carnivores() == old(self).carnivores(),
            final(self).ground() == old(self).ground(),
            final(self).fodder == old(self).fodder,
    {
        match &mut self.fauna {
            Some(fauna) => {
                fauna.herbivore.push(animal);
            },
            None => {},
        }
    }

    /// Adds a carnivore to a cell that holds fauna.
    pub fn add_carn_struct(&mut self, animal: Carnivore)
        requires
            old(self).fauna is Some,
        ensures
            final(self).carnivores() == old(self).carnivores().push(animal),
            final(self).herbivores() == old(self).herbivores(),
            final(self).ground() == old(self).ground(),
            final(self).fodder == old(self).fodder,
    {
        match &mut self.fauna {
            Some(fauna) => {
                fauna.carnivore.push(animal);
            },
            None => {},
        }
    }

    /// Stocks a cell that holds fauna with `amount` animals of age 5 and
    /// weight 20 of the named species, `Herbivore` or `Carnivore`. Any other
    /// name is rejected and leaves the cell as it is.
    pub fn add_animal_from(&mut self, species: String, amount: u32) -> (r: Result<(), StockError>)
        requires
            old(self).fauna is Some,
        ensures
            final(self).ground() == old(self).ground(),
            final(self).fodder == old(self).fodder,
            r is Ok <==> species@ == "Herbivore"@ || species@ == "Carnivore"@,
            species@ == "Herbivore"@ ==> final(self).herbivores() == stocked_herbivores(
                old(self).herbivores(),
                amount as nat,
            ) && final(self).carnivores() == old(self).carnivores(),
            species@ == "Carnivore"@ ==> final(self).carnivores() == stocked_carnivores(
                old(self).carnivores(),
                amount as nat,
            ) && final(self).herbivores() == old(self).herbivores(),
            r is Err ==> r == Err::<(), StockError>(StockError::WrongSpecies) && final(self).herbivores()
                == old(self).herbivores() && final(self).carnivores() == old(self).carnivores(),
    {
        proof {
            reveal_strlit("Herbivore");
            reveal_strlit("Carnivore");
            assert("Herbivore"@[0] != "Carnivore"@[0]);
        }
        let herbivore: String = "Herbivore".to_owned();
        let carnivore: String = "Carnivore".to_owned();
        let is_herbivore = species == herbivore;
        let is_carnivore = species == carnivore;
        if !is_herbivore && !is_carnivore {
            return Err(StockError::WrongSpecies);
        }
        match &mut self.fauna {
            Some(fauna) => {
                let mut i: u32 = 0;
                while i < amount
                    invariant
                        i <= amount,
                        is_herbivore != is_carnivore,
                        is_herbivore ==> fauna.herbivore@ == stocked_herbivores(
                            old(self).herbivores(),
                            i as nat,
                        ) && fauna.carnivore@ == old(self).carnivores(),
                        is_carnivore ==> fauna.carnivore@ == stocked_carnivores(
                            old(self).carnivores(),
                            i as nat,
                        ) && fauna.herbivore@ == old(self).herbivores(),
                    decreases amount - i,
                {
                    if is_herbivore {
                        fauna.herbivore.push(Herbivore::new());
                        assert(fauna.herbivore@ =~= stocked_herbivores(
                            old(self).herbivores(),
                            (i + 1) as nat,
                        ));
                    } else {
                        fauna.carnivore.push(Carnivore::new());
                        assert(fauna.carnivore@ =~= stocked_carnivores(
                            old(self).carnivores(),
                            (i + 1) as nat,
                        ));
                    }
                    i = i + 1;
                }
            },
            None => {},
        }
        Ok(())
    }

    /// Sorts the herbivores by fitness, ascending or descending; those of
    /// equal fitness keep their order.
    pub fn sort_herbivore_after_fitness(&mut self, descending: bool)
        ensures
            final(self).herbivores() == sorted(old(self).herbivores(), descending),
            ordered(final(self).herbivores(), descending),
            final(self).herbivores().to_multiset() == old(self).herbivores().to_multiset(),
            final(self).carnivores() == old(self).carnivores(),
            final(self).ground() == old(self).ground(),
            final(self).fodder == old(self).fodder,
    {
        proof {
            lemma_sorted(old(self).herbivores(), descending);
        }
        match &mut self.fauna {
            Some(fauna) => {
                sort_by_fitness(&mut fauna.herbivore, descending);
            },
            None => {},
        }
    }

    /// The year's meals. The herbivores eat in the order of ascending
    /// fitness while fodder is left. Then, if there are carnivores, the
    /// herbivores are sorted by ascending fitness again and the carnivores
    /// hunt through them, one after the other in a random order. Herbivores
    /// that fall are marked dead and stay in the cell.
    pub fn feed_animals(&mut self)
        ensures
            final(self).ground() == old(self).ground(),
            final(self).fodder == fodder_left(old(self).fodder, old(self).herbivores().len() as int),
            old(self).wf() ==> final(self).wf(),
            final(self).herbivores().len() == old(self).herbivores().len(),
            final(self).carnivores().len() == old(self).carnivores().len(),
            exists|order: Seq<Carnivore>, draws: Seq<Seq<i64>>|
                {
                    &&& order.to_multiset() == old(self).carnivores().to_multiset()
                    &&& hunt_draws(draws, order.len(), old(self).herbivores().len())
                    &&& final(self).herbivores() == #[trigger] ravaged(
                        prey_after_grazing(old(self).herbivores(), old(self).fodder, order.len()),
                        order,
                        draws,
                        order.len(),
                    )
                    &&& final(self).carnivores() == sated(
                        prey_after_grazing(old(self).herbivores(), old(self).fodder, order.len()),
                        order,
                        draws,
                    )
                },
    {
        let ghost herbs = self.herbivores();
        let ghost carns = self.carnivores();
        let ghost fodder = self.fodder;
        let ghost mut order = Seq::<Carnivore>::empty();
        let ghost mut draws = Seq::<Seq<i64>>::empty();
        proof {
            lemma_sorted(herbs, false);
            lemma_sorted(grazed(sorted(herbs, false), fodder), false);
        }
        match &mut self.fauna {
            Some(fauna) => {
                if fauna.herbivore.len() > 0 {
                    sort_by_fitness(&mut fauna.herbivore, false);
                    self.fodder = graze(&mut fauna.herbivore, self.fodder);
                } else {
                    assert(fauna.herbivore@ =~= grazed(sorted(herbs, false), fodder));
                }
                if fauna.carnivore.len() > 0 {
                    sort_by_fitness(&mut fauna.herbivore, false);
                    let mut rng = rand::thread_rng();
                    shuffle(&mut fauna.carnivore, &mut rng);
                    let ghost prey = fauna.herbivore@;
                    proof {
                        order = fauna.carnivore@;
                        order.to_multiset_ensures();
                        carns.to_multiset_ensures();
                        assert(prey == prey_after_grazing(herbs, fodder, order.len()));
                    }
                    hunt_all(&mut fauna.carnivore, &mut fauna.herbivore);
                    proof {
                        draws = choose|draws: Seq<Seq<i64>>|
                            {
                                &&& hunt_draws(draws, order.len(), prey.len())
                                &&& fauna.herbivore@ == ravaged(prey, order, draws, order.len())
                                &&& fauna.carnivore@ == sated(prey, order, draws)
                            };
                    }
                } else {
                    proof {
                        let prey = prey_after_grazing(herbs, fodder, 0);
                        assert(order =~= carns);
                        assert(fauna.carnivore@ =~= sated(prey, order, draws));
                        assert(fauna.herbivore@ == ravaged(prey, order, draws, 0));
                    }
                }
            },
            None => {
                proof {
                    let prey = prey_after_grazing(herbs, fodder, 0);
                    assert(prey =~= herbs);
                    assert(Seq::<Carnivore>::empty() =~= sated(prey, order, draws));
                    assert(self.herbivores() == ravaged(prey, order, draws, 0));
                }
            },
        }
        proof {
            let prey = prey_after_grazing(herbs, fodder, order.len());
            assert(order.to_multiset() == carns.to_multiset());
            assert(hunt_draws(draws, order.len(), herbs.len()));
            assert(self.herbivores() == ravaged(prey, order, draws, order.len()));
            assert(self.carnivores() == sated(prey, order, draws));
        }
    }

    /// Restores the fodder to what the terrain yields.
    pub fn reset_fodder(&mut self)
        ensures
            *final(self) == old(self).refilled(),
            final(self).fodder == old(self).fodder_max(),
            final(self).ground() == old(self).ground(),
            final(self).herbivores() == old(self).herbivores(),
            final(self).carnivores() == old(self).carnivores(),
    {
        self.fodder = self.f_max;
    }

    /// Applies the death check to every animal, each on a draw from the
    /// thread-local generator, and removes the dead.
    pub fn animal_death(&mut self)
        ensures
            final(self).ground() == old(self).ground(),
            final(self).fodder == old(self).fodder,
            all_alive(final(self).herbivores()),
            all_alive(final(self).carnivores()),
            exists|draws: Seq<i64>|
                draws.len() == old(self).herbivores().len() && all_draws(draws) && final(self).herbivores() == living(checked_all(old(self).herbivores(), draws)),
            exists|draws: Seq<i64>|
                draws.len() == old(self).carnivores().len() && all_draws(draws) && final(self).carnivores() == living(checked_all(old(self).carnivores(), draws)),
    {
        match &mut self.fauna {
            Some(fauna) => {
                cull(&mut fauna.herbivore);
                cull(&mut fauna.carnivore);
            },
            None => {
                proof {
                    let none = Seq::<i64>::empty();
                    assert(all_draws(none));
                    reveal(Seq::filter);
                    assert(self.herbivores() =~= living(checked_all(self.herbivores(), none)));
                    assert(self.carnivores() =~= living(checked_all(self.carnivores(), none)));
                }
            },
        }
    }

    /// Makes every animal one year older.
    pub fn age_animals(&mut self)
        ensures
            final(self).herbivores() == aged_all(old(self).herbivores()),
            final(self).carnivores() == aged_all(old(self).carnivores()),
            final(self).ground() == old(self).ground(),
            final(self).fodder == old(self).fodder,
    {
        match &mut self.fauna {
            Some(fauna) => {
                age_all(&mut fauna.herbivore);
                age_all(&mut fauna.carnivore);
            },
            None => {
                assert(self.herbivores() =~= aged_all(self.herbivores()));
                assert(self.carnivores() =~= aged_all(self.carnivores()));
            },
        }
    }

    /// Takes a year's metabolism off every animal.
    pub fn loss_of_weight(&mut self)
        ensures
            final(self).herbivores() == wasted_all(old(self).herbivores()),
            final(self).carnivores() == wasted_all(old(self).carnivores()),
            final(self).ground() == old(self).ground(),
            final(self).fodder == old(self).fodder,
    {
        match &mut self.fauna {
            Some(fauna) => {
                waste_all(&mut fauna.herbivore);
                waste_all(&mut fauna.carnivore);
            },
            None => {
                assert(self.herbivores() =~= wasted_all(self.herbivores()));
                assert(self.carnivores() =~= wasted_all(self.carnivores()));
            },
        }
    }

    /// The neighbour of the cell in one of the four directions, picked by the
    /// thread-local generator; `None` where a component of its coordinate
    /// would not be a `u32`.
    pub fn get_random_neighboring_cell(&self) -> (r: Option<(u32, u32)>)
        ensures
            exists|step: (i32, i32)| is_step(step) && r == neighbour(self.loc, step),
    {
        let steps = random_steps(1);
        assert(is_step(steps@[0]));
        neighbour_at(self.loc, steps[0])
    }

    /// The year's births: every herbivore, then every carnivore, tries to
    /// procreate, the `i`-th of its species with a newborn of the `i`-th
    /// weight, on a draw from the thread-local generator. The newborns are
    /// appended behind their species and do not procreate this year. An
    /// animal without a weight for its newborn bears none.
    pub fn add_newborns(&mut self, herbivore_weights: &[i64], carnivore_weights: &[i64])
        ensures
            final(self).ground() == old(self).ground(),
            final(self).fodder == old(self).fodder,
            exists|draws: Seq<i64>|
                draws.len() == old(self).herbivores().len() && all_draws(draws) && final(self).herbivores() == bred(old(self).herbivores(), draws, herbivore_weights@),
            exists|draws: Seq<i64>|
                draws.len() == old(self).carnivores().len() && all_draws(draws) && final(self).carnivores() == bred(old(self).carnivores(), draws, carnivore_weights@),
    {
        match &mut self.fauna {
            Some(fauna) => {
                breed(&mut fauna.herbivore, herbivore_weights);
                breed(&mut fauna.carnivore, carnivore_weights);
            },
            None => {
                proof {
                    let none = Seq::<i64>::empty();
                    assert(all_draws(none));
                    assert(self.herbivores() =~= bred(self.herbivores(), none, herbivore_weights@));
                    assert(self.carnivores() =~= bred(self.carnivores(), none, carnivore_weights@));
                }
            },
        }
    }

    /// One year in the cell, in this order: the births, the meals, the
    /// migration decisions, the ageing, the metabolism, the deaths, and the
    /// new fodder. The `i`-th animal of a species bears a newborn of the
    /// `i`-th weight given for that species, if it bears one. What the year
    /// leaves is what the rules make of some chance.
    pub fn year(&mut self, herbivore_weights: &[i64], carnivore_weights: &[i64])
        ensures
            final(self).ground() == old(self).ground(),
            final(self).fodder == old(self).fodder_max(),
            old(self).wf() ==> final(self).wf(),
            exists|chance: Chance|
                {
                    &&& #[trigger] old(self).admits(herbivore_weights@, carnivore_weights@, chance)
                    &&& final(self).herbivores() == old(self).herbivores_after_year(
                        herbivore_weights@,
                        chance,
                    )
                    &&& final(self).carnivores() == old(self).carnivores_after_year(
                        herbivore_weights@,
                        chance,
                    )
                },
            all_alive(final(self).herbivores()),
            all_alive(final(self).carnivores()),
            all_current(final(self).herbivores()),
            all_current(final(self).carnivores()),
    {
        let ghost loc = self.loc;
        let ghost herbs = self.herbivores();
        let ghost carns = self.carnivores();
        self.add_newborns(herbivore_weights, carnivore_weights);
        let ghost herbivore_births = choose|draws: Seq<i64>|
            draws.len() == herbs.len() && all_draws(draws) && self.herbivores() == bred(
                herbs,
                draws,
                herbivore_weights@,
            );
        let ghost carnivore_births = choose|draws: Seq<i64>|
            draws.len() == carns.len() && all_draws(draws) && self.carnivores() == bred(
                carns,
                draws,
                carnivore_weights@,
            );
        let ghost born_herbs = self.herbivores();
        let ghost born_carns = self.carnivores();
        self.feed_animals();
        let ghost (hunters, hunts) = choose|order: Seq<Carnivore>, draws: Seq<Seq<i64>>|
            {
                &&& order.to_multiset() == born_carns.to_multiset()
                &&& hunt_draws(draws, order.len(), born_herbs.len())
                &&& self.herbivores() == #[trigger] ravaged(
                    prey_after_grazing(born_herbs, old(self).fodder, order.len()),
                    order,
                    draws,
                    order.len(),
                )
                &&& self.carnivores() == sated(
                    prey_after_grazing(born_herbs, old(self).fodder, order.len()),
                    order,
                    draws,
                )
            };
        let ghost fed_herbs = self.herbivores();
        let ghost fed_carns = self.carnivores();
        self.get_moving_animals();
        let ghost (herbivore_moves, herbivore_steps) = choose|draws: Seq<i64>, steps: Seq<(i32, i32)>|
            {
                &&& draws.len() == fed_herbs.len()
                &&& steps.len() == fed_herbs.len()
                &&& all_draws(draws)
                &&& all_steps(steps)
                &&& self.herbivores() == #[trigger] with_intents(fed_herbs, loc, draws, steps)
            };
        let ghost (carnivore_moves, carnivore_steps) = choose|draws: Seq<i64>, steps: Seq<(i32, i32)>|
            {
                &&& draws.len() == fed_carns.len()
                &&& steps.len() == fed_carns.len()
                &&& all_draws(draws)
                &&& all_steps(steps)
                &&& self.carnivores() == #[trigger] with_intents(fed_carns, loc, draws, steps)
            };
        self.age_animals();
        let ghost aged_herbs = self.herbivores();
        let ghost aged_carns = self.carnivores();
        self.loss_of_weight();
        let ghost lean_herbs = self.herbivores();
        let ghost lean_carns = self.carnivores();
        self.animal_death();
        let ghost herbivore_deaths = choose|draws: Seq<i64>|
            draws.len() == lean_herbs.len() && all_draws(draws) && self.herbivores() == living(
                checked_all(lean_herbs, draws),
            );
        let ghost carnivore_deaths = choose|draws: Seq<i64>|
            draws.len() == lean_carns.len() && all_draws(draws) && self.carnivores() == living(
                checked_all(lean_carns, draws),
            );
        proof {
            lemma_survivors_current(aged_herbs, herbivore_deaths);
            lemma_survivors_current(aged_carns, carnivore_deaths);
            let chance = Chance {
                herbivore_births,
                carnivore_births,
                hunters,
                hunts,
                herbivore_moves,
                herbivore_steps,
                carnivore_moves,
                carnivore_steps,
                herbivore_deaths,
                carnivore_deaths,
            };
            lemma_sorted(born_herbs, false);
            lemma_sorted(grazed(sorted(born_herbs, false), old(self).fodder), false);
            assert(old(self).prey(herbivore_weights@, chance).len() == born_herbs.len());
            assert(old(self).admits(herbivore_weights@, carnivore_weights@, chance));
            assert(self.herbivores() == old(self).herbivores_after_year(herbivore_weights@, chance));
            assert(self.carnivores() == old(self).carnivores_after_year(herbivore_weights@, chance));
        }
        self.reset_fodder();
    }

    /// The year's migration decisions: every living animal that wants to
    /// migrate, on a draw from the thread-local generator, gets as its
    /// destination the neighbour of the cell in a direction picked by the
    /// generator, or none where that neighbour's coordinate would not be a
    /// pair of `u32`s.
    pub fn get_moving_animals(&mut self)
        ensures
            final(self).ground() == old(self).ground(),
            final(self).fodder == old(self).fodder,
            exists|draws: Seq<i64>, steps: Seq<(i32, i32)>|
                {
                    &&& draws.len() == old(self).herbivores().len()
                    &&& steps.len() == old(self).herbivores().len()
                    &&& all_draws(draws)
                    &&& all_steps(steps)
                    &&& final(self).herbivores() == #[trigger] with_intents(
                        old(self).herbivores(),
                        old(self).loc,
                        draws,
                        steps,
                    )
                },
            exists|draws: Seq<i64>, steps: Seq<(i32, i32)>|
                {
                    &&& draws.len() == old(self).carnivores().len()
                    &&& steps.len() == old(self).carnivores().len()
                    &&& all_draws(draws)
                    &&& all_steps(steps)
                    &&& final(self).carnivores() == #[trigger] with_intents(
                        old(self).carnivores(),
                        old(self).loc,
                        draws,
                        steps,
                    )
                },
    {
        let loc = self.loc;
        let ghost herbs = self.herbivores();
        let ghost carns = self.carnivores();
        let ghost mut herb_draws = Seq::<i64>::empty();
        let ghost mut herb_steps = Seq::<(i32, i32)>::empty();
        let ghost mut carn_draws = Seq::<i64>::empty();
        let ghost mut carn_steps = Seq::<(i32, i32)>::empty();
        match &mut self.fauna {
            Some(fauna) => {
                plan(&mut fauna.herbivore, loc);
                proof {
                    let (draws, steps) = choose|draws: Seq<i64>, steps: Seq<(i32, i32)>|
                        {
                            &&& draws.len() == herbs.len()
                            &&& steps.len() == herbs.len()
                            &&& all_draws(draws)
                            &&& all_steps(steps)
                            &&& fauna.herbivore@ == #[trigger] with_intents(herbs, loc, draws, steps)
                        };
                    herb_draws = draws;
                    herb_steps = steps;
                }
                plan(&mut fauna.carnivore, loc);
                proof {
                    let (draws, steps) = choose|draws: Seq<i64>, steps: Seq<(i32, i32)>|
                        {
                            &&& draws.len() == carns.len()
                            &&& steps.len() == carns.len()
                            &&& all_draws(draws)
                            &&& all_steps(steps)
                            &&& fauna.carnivore@ == #[trigger] with_intents(carns, loc, draws, steps)
                        };
                    carn_draws = draws;
                    carn_steps = steps;
                }
            },
            None => {
                proof {
                    assert(self.herbivores() =~= with_intents(herbs, loc, herb_draws, herb_steps));
                    assert(self.carnivores() =~= with_intents(carns, loc, carn_draws, carn_steps));
                }
            },
        }
        proof {
            assert(all_draws(herb_draws) && all_steps(herb_steps));
            assert(all_draws(carn_draws) && all_steps(carn_steps));
            assert(self.herbivores() == with_intents(herbs, loc, herb_draws, herb_steps));
            assert(self.carnivores() == with_intents(carns, loc, carn_draws, carn_steps));
        }
    }
}

/// Restoring the fodder twice leaves what restoring it once leaves: the
/// fodder that the terrain yields.
pub proof fn lemma_refill_idempotent(cell: Cell)
    ensures
        cell.refilled().refilled() == cell.refilled(),
        cell.refilled().fodder == cell.fodder_max(),
        cell.refilled().refilled().fodder == cell.fodder_max(),
        cell.wf() ==> cell.refilled().wf() && cell.refilled().fodder == max_fodder(cell.terrain()),
{
}

/// A cell of water at `loc`: no fodder, no fauna.
pub fn water(loc: (u32, u32)) -> (cell: Cell)
    ensures
        cell.terrain() == CellType::Water,
        cell.loc == loc,
        cell.fauna is None,
        cell.fodder == 0,
        cell.wf(),
{
    Cell { name: CellType::Water, loc, fauna: None, fodder: 0, f_max: 0 }
}

/// A cell of desert at `loc`: no fodder, no animals yet.
pub fn desert(loc: (u32, u32)) -> (cell: Cell)
    ensures
        cell.terrain() == CellType::Desert,
        cell.loc == loc,
        cell.fauna is Some,
        cell.herbivores().len() == 0,
        cell.carnivores().len() == 0,
        cell.fodder == 0,
        cell.wf(),
{
    Cell { name: CellType::Desert, loc, fauna: Some(Fauna::new()), fodder: 0, f_max: 0 }
}

/// A cell of lowland at `loc`: fodder 800, no animals yet.
pub fn lowland(loc: (u32, u32)) -> (cell: Cell)
    ensures
        cell.terrain() == CellType::Lowland,
        cell.loc == loc,
        cell.fauna is Some,
        cell.herbivores().len() == 0,
        cell.carnivores().len() == 0,
        cell.fodder == 800_000_000,
        cell.wf(),
{
    Cell {
        name: CellType::Lowland,
        loc,
        fauna: Some(Fauna::new()),
        fodder: 800_000_000,
        f_max: 800_000_000,
    }
}

/// A cell of highland at `loc`: fodder 300, no animals yet.
pub fn highland(loc: (u32, u32)) -> (cell: Cell)
    ensures
        cell.terrain() == CellType::Highland,
        cell.loc == loc,
        cell.fauna is Some,
        cell.herbivores().len() == 0,
        cell.carnivores().len() == 0,
        cell.fodder == 300_000_000,
        cell.wf(),
{
    Cell {
        name: CellType::Highland,
        loc,
        fauna: Some(Fauna::new()),
        fodder: 300_000_000,
        f_max: 300_000_000,
    }
}

/// The terrain that a map symbol stands for: `W` water, `D` desert, `L`
/// lowland, `H` highland.
pub open spec fn terrain_of(c: char) -> Option<CellType> {
    if c == 'W' {
        Some(CellType::Water)
    } else if c == 'D' {
        Some(CellType::Desert)
    } else if c == 'L' {
        Some(CellType::Lowland)
    } else if c == 'H' {
        Some(CellType::Highland)
    } else {
        None
    }
}

/// The cell that a map symbol stands for, at the origin, with its fodder
/// and no animals.
pub fn from_char(c: char) -> (cell: Cell)
    requires
        terrain_of(c) is Some,
    ensures
        Some(cell.terrain()) == terrain_of(c),
        cell.loc == (0u32, 0u32),
        cell.fodder == max_fodder(cell.terrain()),
        cell.herbivores().len() == 0,
        cell.carnivores().len() == 0,
        cell.wf(),
{
    if c == 'W' {
        water((0, 0))
    } else if c == 'D' {
        desert((0, 0))
    } else if c == 'L' {
        lowland((0, 0))
    } else {
        highland((0, 0))
    }
}

} // verus!
