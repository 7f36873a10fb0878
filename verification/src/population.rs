//! The yearly passes over the animals of one species in one cell.
//!
//! Each pass is specified by a spec function from the animals before to the
//! animals after. Where a pass draws random numbers, the spec function takes
//! the draws, and the pass is that function of some draws.

use vstd::prelude::*;
use crate::animal::{unit_draws, AnimalTrait};
use crate::random::pick;
use crate::species::{is_draw, lemma_fitness_range, Stats};

verus! {

/// Whether every element is a uniform draw.
pub open spec fn all_draws(draws: Seq<i64>) -> bool {
    forall|i: int| 0 <= i < draws.len() ==> is_draw(#[trigger] draws[i])
}

/// The animal a year older.
pub open spec fn aged<A: AnimalTrait>(a: A) -> A {
    a.with_stats(a.stats().aged(a.parameters()))
}

/// The animal after a year's metabolism.
pub open spec fn wasted<A: AnimalTrait>(a: A) -> A {
    a.with_stats(a.stats().wasted(a.parameters()))
}

/// The animal after the death check on the given draw.
pub open spec fn checked<A: AnimalTrait>(a: A, draw: i64) -> A {
    a.with_stats(a.stats().after_death_check(a.parameters(), draw))
}

/// The animals, each a year older.
pub open spec fn aged_all<A: AnimalTrait>(animals: Seq<A>) -> Seq<A> {
    Seq::new(animals.len(), |i: int| aged(animals[i]))
}

/// The animals, each after a year's metabolism.
pub open spec fn wasted_all<A: AnimalTrait>(animals: Seq<A>) -> Seq<A> {
    Seq::new(animals.len(), |i: int| wasted(animals[i]))
}

/// The animals, the `i`-th after the death check on the `i`-th draw.
pub open spec fn checked_all<A: AnimalTrait>(animals: Seq<A>, draws: Seq<i64>) -> Seq<A> {
    Seq::new(animals.len(), |i: int| checked(animals[i], draws[i]))
}

/// The living among the animals, in their order.
pub open spec fn living<A: AnimalTrait>(animals: Seq<A>) -> Seq<A> {
    animals.filter(|a: A| a.stats().alive)
}

/// Whether every animal is alive.
pub open spec fn all_alive<A: AnimalTrait>(animals: Seq<A>) -> bool {
    forall|i: int| 0 <= i < animals.len() ==> (#[trigger] animals[i]).stats().alive
}

/// Whether every animal's fitness is that of its age and weight.
pub open spec fn all_current<A: AnimalTrait>(animals: Seq<A>) -> bool {
    forall|i: int|
        0 <= i < animals.len() ==> (#[trigger] animals[i]).stats().current(animals[i].parameters())
}

/// Only the living are left among `living(animals)`, and none is added.
pub proof fn lemma_living_alive<A: AnimalTrait>(animals: Seq<A>)
    ensures
        all_alive(living(animals)),
        living(animals).len() <= animals.len(),
        all_alive(animals) ==> living(animals) == animals,
    decreases animals.len(),
{
    let pred = |a: A| a.stats().alive;
    reveal(Seq::filter);
    if animals.len() > 0 {
        lemma_living_alive(animals.drop_last());
        if all_alive(animals) {
            assert(all_alive(animals.drop_last())) by {
                assert forall|i: int| 0 <= i < animals.drop_last().len() implies (
                #[trigger] animals.drop_last()[i]).stats().alive by {
                    assert(animals.drop_last()[i] == animals[i]);
                }
            }
            assert(animals.last().stats().alive);
            assert(animals.drop_last().push(animals.last()) =~= animals);
        }
        let sub = animals.drop_last().filter(pred);
        assert forall|i: int| 0 <= i < living(animals).len() implies (
        #[trigger] living(animals)[i]).stats().alive by {
            if i < sub.len() {
                assert(living(animals)[i] == sub[i]);
            }
        }
    }
}

/// Each of the living is one of the animals.
pub proof fn lemma_living_from<A: AnimalTrait>(animals: Seq<A>)
    ensures
        forall|i: int|
            0 <= i < living(animals).len() ==> exists|j: int|
                0 <= j < animals.len() && #[trigger] living(animals)[i] == #[trigger] animals[j],
    decreases animals.len(),
{
    reveal(Seq::filter);
    if animals.len() > 0 {
        let front = animals.drop_last();
        lemma_living_from(front);
        let out = living(animals);
        assert forall|i: int| 0 <= i < out.len() implies exists|j: int|
            0 <= j < animals.len() && #[trigger] out[i] == #[trigger] animals[j] by {
            if i < living(front).len() {
                assert(out[i] == living(front)[i]);
                let j = choose|j: int| 0 <= j < front.len() && living(front)[i] == #[trigger] front[j];
                assert(front[j] == animals[j]);
            } else {
                assert(out[i] == animals[animals.len() - 1]);
            }
        }
    }
}

/// After a year's metabolism and the death check, every animal that is left
/// has the fitness of its age and weight.
pub proof fn lemma_survivors_current<A: AnimalTrait>(animals: Seq<A>, draws: Seq<i64>)
    requires
        draws.len() == animals.len(),
    ensures
        all_current(living(checked_all(wasted_all(animals), draws))),
{
    let lean = wasted_all(animals);
    let checks = checked_all(lean, draws);
    let left = living(checks);
    lemma_living_from(checks);
    assert forall|i: int| 0 <= i < left.len() implies (#[trigger] left[i]).stats().current(
        left[i].parameters(),
    ) by {
        let j = choose|j: int| 0 <= j < checks.len() && left[i] == #[trigger] checks[j];
        let a = animals[j];
        a.lemma_with_stats(a.stats().wasted(a.parameters()));
        lean[j].lemma_with_stats(lean[j].stats().after_death_check(lean[j].parameters(), draws[j]));
        lemma_fitness_range(
            a.parameters(),
            a.stats().wasted(a.parameters()).age,
            a.stats().wasted(a.parameters()).weight,
        );
    }
}

/// Makes every animal one year older.
pub fn age_all<A: AnimalTrait + Copy>(animals: &mut Vec<A>)
    ensures
        final(animals)@ == aged_all(old(animals)@),
{
    let n = animals.len();
    let mut i: usize = 0;
    while i < n
        invariant
            i <= n,
            animals@.len() == n,
            old(animals)@.len() == n,
            forall|j: int| 0 <= j < i ==> #[trigger] animals@[j] == aged(old(animals)@[j]),
            forall|j: int| i <= j < n ==> #[trigger] animals@[j] == old(animals)@[j],
        decreases n - i,
    {
        animals[i].aging();
        i = i + 1;
    }
    assert(animals@ =~= aged_all(old(animals)@));
}

/// Takes a year's metabolism off every animal.
pub fn waste_all<A: AnimalTrait + Copy>(animals: &mut Vec<A>)
    ensures
        final(animals)@ == wasted_all(old(animals)@),
{
    let n = animals.len();
    let mut i: usize = 0;
    while i < n
        invariant
            i <= n,
            animals@.len() == n,
            old(animals)@.len() == n,
            forall|j: int| 0 <= j < i ==> #[trigger] animals@[j] == wasted(old(animals)@[j]),
            forall|j: int| i <= j < n ==> #[trigger] animals@[j] == old(animals)@[j],
        decreases n - i,
    {
        animals[i].loss_of_weight();
        i = i + 1;
    }
    assert(animals@ =~= wasted_all(old(animals)@));
}

/// Applies the death check to every animal, the `i`-th on the `i`-th draw,
/// and removes the dead.
pub fn cull_with_draws<A: AnimalTrait + Copy>(animals: &mut Vec<A>, draws: &Vec<i64>)
    requires
        draws.len() == old(animals).len(),
        all_draws(draws@),
    ensures
        final(animals)@ == living(checked_all(old(animals)@, draws@)),
        all_alive(final(animals)@),
        final(animals).len() <= old(animals).len(),
{
    let n = animals.len();
    let ghost all = checked_all(animals@, draws@);
    let mut kept: Vec<A> = Vec::new();
    let mut i: usize = 0;
    while i < n
        invariant
            i <= n,
            animals@.len() == n,
            draws@.len() == n,
            all_draws(draws@),
            all == checked_all(animals@, draws@),
            kept@ == living(all.take(i as int)),
        decreases n - i,
    {
        let mut a = animals[i];
        a.death_with_draw(draws[i]);
        proof {
            assert(a == all[i as int]);
            assert(all.take(i + 1) =~= all.take(i as int).push(all[i as int]));
            all.take(i as int).lemma_filter_push(all[i as int], |a: A| a.stats().alive);
        }
        if a.stats_as_ref().alive {
            kept.push(a);
        }
        i = i + 1;
    }
    proof {
        assert(all.take(n as int) =~= all);
        lemma_living_alive(all);
    }
    *animals = kept;
}

/// Applies the death check to every animal on draws from the thread-local
/// generator, and removes the dead.
pub fn cull<A: AnimalTrait + Copy>(animals: &mut Vec<A>)
    ensures
        exists|draws: Seq<i64>|
            draws.len() == old(animals).len() && all_draws(draws) && final(animals)@ == living(
                checked_all(old(animals)@, draws),
            ),
        all_alive(final(animals)@),
        final(animals).len() <= old(animals).len(),
{
    let draws = unit_draws(animals.len());
    cull_with_draws(animals, &draws);
}

/// Whether `step` is one of the four orthogonal unit steps: north `(0, 1)`,
/// east `(1, 0)`, south `(0, -1)`, west `(-1, 0)`.
pub open spec fn is_step(step: (i32, i32)) -> bool {
    step == (0i32, 1i32) || step == (1i32, 0i32) || step == (0i32, -1i32) || step == (-1i32, 0i32)
}

/// Whether every element is an orthogonal unit step.
pub open spec fn all_steps(steps: Seq<(i32, i32)>) -> bool {
    forall|i: int| 0 <= i < steps.len() ==> is_step(#[trigger] steps[i])
}

/// The coordinate one step from `loc`, if both its components are `u32`s.
pub open spec fn neighbour(loc: (u32, u32), step: (i32, i32)) -> Option<(u32, u32)> {
    let x = loc.0 + step.0;
    let y = loc.1 + step.1;
    if 0 <= x <= u32::MAX && 0 <= y <= u32::MAX {
        Some((x as u32, y as u32))
    } else {
        None
    }
}

/// The animal after the migration decision in the cell at `loc`: if it
/// lives and wants to migrate on the given draw, its destination is the
/// neighbour of `loc` in the direction of `step`.
pub open spec fn with_intent<A: AnimalTrait>(a: A, loc: (u32, u32), draw: i64, step: (i32, i32)) -> A {
    if a.stats().alive && a.stats().migrates(a.parameters(), draw) {
        a.with_stats(Stats { move_to: neighbour(loc, step), ..a.stats() })
    } else {
        a
    }
}

/// The animals, the `i`-th after the migration decision on the `i`-th draw
/// and step.
pub open spec fn with_intents<A: AnimalTrait>(
    animals: Seq<A>,
    loc: (u32, u32),
    draws: Seq<i64>,
    steps: Seq<(i32, i32)>,
) -> Seq<A> {
    Seq::new(animals.len(), |i: int| with_intent(animals[i], loc, draws[i], steps[i]))
}

/// The coordinate one step from `loc`, if both its components are `u32`s.
pub fn neighbour_at(loc: (u32, u32), step: (i32, i32)) -> (r: Option<(u32, u32)>)
    ensures
        r == neighbour(loc, step),
{
    let x: i64 = loc.0 as i64 + step.0 as i64;
    let y: i64 = loc.1 as i64 + step.1 as i64;
    if 0 <= x && x <= u32::MAX as i64 && 0 <= y && y <= u32::MAX as i64 {
        Some((x as u32, y as u32))
    } else {
        None
    }
}

/// Takes `n` orthogonal unit steps, each picked from the four by the
/// thread-local generator.
pub fn random_steps(n: usize) -> (steps: Vec<(i32, i32)>)
    ensures
        steps.len() == n,
        all_steps(steps@),
{
    let mut rng = rand::thread_rng();
    let mut directions: Vec<(i32, i32)> = Vec::new();
    directions.push((0, 1));
    directions.push((1, 0));
    directions.push((0, -1));
    directions.push((-1, 0));
    let mut steps: Vec<(i32, i32)> = Vec::new();
    while steps.len() < n
        invariant
            steps.len() <= n,
            all_steps(steps@),
            directions@ =~= seq![(0i32, 1i32), (1i32, 0i32), (0i32, -1i32), (-1i32, 0i32)],
        decreases n - steps.len(),
    {
        match pick(&directions, &mut rng) {
            Some(step) => {
                steps.push(step);
            },
            None => {
                steps.push((0, 1));
            },
        }
    }
    steps
}

/// Lets every living animal decide on migration, the `i`-th on the `i`-th
/// draw and step.
pub fn plan_with_draws<A: AnimalTrait + Copy>(
    animals: &mut Vec<A>,
    loc: (u32, u32),
    draws: &Vec<i64>,
    steps: &Vec<(i32, i32)>,
)
    requires
        draws.len() == old(animals).len(),
        steps.len() == old(animals).len(),
        all_draws(draws@),
    ensures
        final(animals)@ == with_intents(old(animals)@, loc, draws@, steps@),
{
    let n = animals.len();
    let mut i: usize = 0;
    while i < n
        invariant
            i <= n,
            animals@.len() == n,
            old(animals)@.len() == n,
            draws@.len() == n,
            steps@.len() == n,
            all_draws(draws@),
            forall|j: int|
                0 <= j < i ==> #[trigger] animals@[j] == with_intent(
                    old(animals)@[j],
                    loc,
                    draws@[j],
                    steps@[j],
                ),
            forall|j: int| i <= j < n ==> #[trigger] animals@[j] == old(animals)@[j],
        decreases n - i,
    {
        let alive = animals[i].stats_as_ref().alive;
        if alive && animals[i].migrate_with_draw(draws[i]) {
            let target = neighbour_at(loc, steps[i]);
            let s = animals[i].stats_as_mut();
            s.move_to = target;
        }
        i = i + 1;
    }
    assert(animals@ =~= with_intents(old(animals)@, loc, draws@, steps@));
}

/// Lets every living animal decide on migration, on draws and steps from the
/// thread-local generator.
pub fn plan<A: AnimalTrait + Copy>(animals: &mut Vec<A>, loc: (u32, u32))
    ensures
        exists|draws: Seq<i64>, steps: Seq<(i32, i32)>|
            {
                &&& draws.len() == old(animals).len()
                &&& steps.len() == old(animals).len()
                &&& all_draws(draws)
                &&& all_steps(steps)
                &&& final(animals)@ == #[trigger] with_intents(old(animals)@, loc, draws, steps)
            },
        final(animals).len() == old(animals).len(),
{
    let draws = unit_draws(animals.len());
    let steps = random_steps(animals.len());
    plan_with_draws(animals, loc, &draws, &steps);
}

/// Whether the `i`-th animal bears a newborn among `count` of its species:
/// there is a weight for its newborn, and it gives birth to it on the draw.
pub open spec fn bears<A: AnimalTrait>(a: A, count: int, draw: i64, weights: Seq<i64>, i: int) -> bool {
    i < weights.len() && a.stats().gives_birth(a.parameters(), count, draw, weights[i])
}

/// The animals after the births: those that bore a newborn have paid for
/// it.
pub open spec fn parents<A: AnimalTrait>(animals: Seq<A>, draws: Seq<i64>, weights: Seq<i64>) -> Seq<A> {
    Seq::new(
        animals.len(),
        |i: int|
            if bears(animals[i], animals.len() as int, draws[i], weights, i) {
                animals[i].with_stats(animals[i].stats().after_birth(animals[i].parameters(), weights[i]))
            } else {
                animals[i]
            },
    )
}

/// The newborns of the first `k` animals, in the order of their parents.
pub open spec fn litter<A: AnimalTrait>(animals: Seq<A>, draws: Seq<i64>, weights: Seq<i64>, k: nat) -> Seq<A>
    decreases k,
{
    if k == 0 {
        Seq::empty()
    } else {
        let before = litter(animals, draws, weights, (k - 1) as nat);
        if bears(animals[k - 1], animals.len() as int, draws[k - 1], weights, k - 1) {
            before.push(A::newborn_of(weights[k - 1]))
        } else {
            before
        }
    }
}

/// The animals after the births, the newborns behind their parents.
pub open spec fn bred<A: AnimalTrait>(animals: Seq<A>, draws: Seq<i64>, weights: Seq<i64>) -> Seq<A> {
    parents(animals, draws, weights) + litter(animals, draws, weights, animals.len())
}

/// Lets every animal try to procreate, the `i`-th on the `i`-th draw with a
/// newborn of the `i`-th weight, and appends the newborns. The number of
/// animals before the births is the density that the chance depends on; an
/// animal without a weight for its newborn bears none.
pub fn breed_with_draws<A: AnimalTrait + Copy>(animals: &mut Vec<A>, draws: &Vec<i64>, weights: &[i64])
    requires
        draws.len() == old(animals).len(),
        all_draws(draws@),
    ensures
        final(animals)@ == bred(old(animals)@, draws@, weights@),
        final(animals).len() >= old(animals).len(),
{
    let n = animals.len();
    let mut newborns: Vec<A> = Vec::new();
    let mut i: usize = 0;
    while i < n
        invariant
            i <= n,
            animals@.len() == n,
            old(animals)@.len() == n,
            draws@.len() == n,
            all_draws(draws@),
            newborns@ == litter(old(animals)@, draws@, weights@, i as nat),
            forall|j: int|
                0 <= j < i ==> #[trigger] animals@[j] == parents(old(animals)@, draws@, weights@)[j],
            forall|j: int| i <= j < n ==> #[trigger] animals@[j] == old(animals)@[j],
        decreases n - i,
    {
        if i < weights.len() {
            match animals[i].get_birthweight_with_draw(n, draws[i], weights[i]) {
                Some(weight) => {
                    newborns.push(A::newborn(weight));
                },
                None => {},
            }
        }
        i = i + 1;
    }
    assert(animals@ =~= parents(old(animals)@, draws@, weights@));
    animals.append(&mut newborns);
}

/// Lets every animal try to procreate on draws from the thread-local
/// generator, and appends the newborns.
pub fn breed<A: AnimalTrait + Copy>(animals: &mut Vec<A>, weights: &[i64])
    ensures
        exists|draws: Seq<i64>|
            draws.len() == old(animals).len() && all_draws(draws) && final(animals)@ == bred(
                old(animals)@,
                draws,
                weights@,
            ),
        final(animals).len() >= old(animals).len(),
{
    let draws = unit_draws(animals.len());
    breed_with_draws(animals, &draws, weights);
}

} // verus!
