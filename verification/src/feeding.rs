//! Feeding in one cell: the order in which herbivores eat and are hunted,
//! the grazing of the fodder, and the hunt of every carnivore in turn.

use vstd::prelude::*;
use crate::animal::{hunt, hunted, unit_draws, AnimalTrait, Carnivore, Herbivore};
use crate::population::all_draws;
use crate::species::Parameters;

verus! {

/// Whether `a` may stand before `b`: it is no fitter, or when `descending` no
/// less fit.
pub open spec fn in_order(a: Herbivore, b: Herbivore, descending: bool) -> bool {
    if descending {
        a.stats.fitness >= b.stats.fitness
    } else {
        a.stats.fitness <= b.stats.fitness
    }
}

/// Whether every herbivore may stand before all that follow it.
pub open spec fn ordered(herbs: Seq<Herbivore>, descending: bool) -> bool {
    forall|i: int, j: int| 0 <= i <= j < herbs.len() ==> in_order(herbs[i], herbs[j], descending)
}

/// `h` put behind the last herbivore that may stand before it.
pub open spec fn inserted(herbs: Seq<Herbivore>, h: Herbivore, descending: bool) -> Seq<Herbivore>
    decreases herbs.len(),
{
    if herbs.len() == 0 || in_order(herbs.last(), h, descending) {
        herbs.push(h)
    } else {
        inserted(herbs.drop_last(), h, descending).push(herbs.last())
    }
}

/// The herbivores sorted by fitness, those of equal fitness in the order
/// they had.
pub open spec fn sorted(herbs: Seq<Herbivore>, descending: bool) -> Seq<Herbivore>
    decreases herbs.len(),
{
    if herbs.len() == 0 {
        herbs
    } else {
        inserted(sorted(herbs.drop_last(), descending), herbs.last(), descending)
    }
}

/// Where `inserted` puts `h`: at `j`, if the herbivore before `j` may stand
/// before `h` and none from `j` on may.
pub proof fn lemma_inserted_at(herbs: Seq<Herbivore>, h: Herbivore, descending: bool, j: int)
    requires
        0 <= j <= herbs.len(),
        j > 0 ==> in_order(herbs[j - 1], h, descending),
        forall|k: int| j <= k < herbs.len() ==> !in_order(#[trigger] herbs[k], h, descending),
    ensures
        inserted(herbs, h, descending) == herbs.insert(j, h),
    decreases herbs.len(),
{
    if j == herbs.len() {
        assert(herbs.push(h) =~= herbs.insert(j, h));
    } else {
        assert(!in_order(herbs[herbs.len() - 1], h, descending));
        lemma_inserted_at(herbs.drop_last(), h, descending, j);
        assert(herbs.drop_last().insert(j, h).push(herbs.last()) =~= herbs.insert(j, h));
    }
}

/// Inserting keeps the order and adds `h` once.
pub proof fn lemma_inserted(herbs: Seq<Herbivore>, h: Herbivore, descending: bool)
    requires
        ordered(herbs, descending),
    ensures
        ordered(inserted(herbs, h, descending), descending),
        inserted(herbs, h, descending).to_multiset() == herbs.to_multiset().insert(h),
        inserted(herbs, h, descending).len() == herbs.len() + 1,
    decreases herbs.len(),
{
    broadcast use vstd::seq_lib::to_multiset_build;

    if herbs.len() == 0 || in_order(herbs.last(), h, descending) {
        let out = herbs.push(h);
        assert forall|i: int, j: int| 0 <= i <= j < out.len() implies in_order(
            out[i],
            out[j],
            descending,
        ) by {
            if j == herbs.len() && i < j {
                assert(in_order(herbs[i], herbs[herbs.len() - 1], descending));
            }
        }
    } else {
        let front = herbs.drop_last();
        assert(ordered(front, descending)) by {
            assert forall|i: int, j: int| 0 <= i <= j < front.len() implies in_order(
                front[i],
                front[j],
                descending,
            ) by {
                assert(in_order(herbs[i], herbs[j], descending));
            }
        }
        lemma_inserted(front, h, descending);
        let mid = inserted(front, h, descending);
        let out = mid.push(herbs.last());
        assert(front.push(herbs.last()) =~= herbs);
        assert(out.to_multiset() =~= herbs.to_multiset().insert(h));
        assert forall|i: int, j: int| 0 <= i <= j < out.len() implies in_order(
            out[i],
            out[j],
            descending,
        ) by {
            if j == mid.len() && i < j {
                // out[i] is h or one of `front`, and both may stand before the last.
                assert(mid.to_multiset().count(mid[i]) > 0) by {
                    mid.to_multiset_ensures();
                    assert(mid.contains(mid[i]));
                }
                if mid[i] != h {
                    assert(front.to_multiset().count(mid[i]) > 0);
                    front.to_multiset_ensures();
                    assert(front.contains(mid[i]));
                    let k = choose|k: int| 0 <= k < front.len() && front[k] == mid[i];
                    assert(in_order(herbs[k], herbs[herbs.len() - 1], descending));
                }
            } else if j < mid.len() {
                assert(in_order(mid[i], mid[j], descending));
            }
        }
    }
}

/// Sorting orders the herbivores and neither adds nor loses one.
pub proof fn lemma_sorted(herbs: Seq<Herbivore>, descending: bool)
    ensures
        ordered(sorted(herbs, descending), descending),
        sorted(herbs, descending).to_multiset() == herbs.to_multiset(),
        sorted(herbs, descending).len() == herbs.len(),
    decreases herbs.len(),
{
    broadcast use vstd::seq_lib::to_multiset_build;

    if herbs.len() > 0 {
        lemma_sorted(herbs.drop_last(), descending);
        lemma_inserted(sorted(herbs.drop_last(), descending), herbs.last(), descending);
        assert(herbs.drop_last().push(herbs.last()) =~= herbs);
    }
}

/// Whether `a` may stand before `b`.
fn precedes(a: &Herbivore, b: &Herbivore, descending: bool) -> (r: bool)
    ensures
        r == in_order(*a, *b, descending),
{
    if descending {
        a.stats.fitness >= b.stats.fitness
    } else {
        a.stats.fitness <= b.stats.fitness
    }
}

/// Sorts the herbivores by fitness, ascending or descending; those of equal
/// fitness keep their order.
pub fn sort_by_fitness(herbs: &mut Vec<Herbivore>, descending: bool)
    ensures
        final(herbs)@ == sorted(old(herbs)@, descending),
        ordered(final(herbs)@, descending),
        final(herbs)@.to_multiset() == old(herbs)@.to_multiset(),
        final(herbs).len() == old(herbs).len(),
{
    let n = herbs.len();
    let mut out: Vec<Herbivore> = Vec::new();
    let mut i: usize = 0;
    while i < n
        invariant
            i <= n,
            herbs@.len() == n,
            out@ == sorted(herbs@.take(i as int), descending),
            out@.len() == i,
        decreases n - i,
    {
        let h = herbs[i];
        let mut j: usize = out.len();
        while j > 0 && !precedes(&out[j - 1], &h, descending)
            invariant
                j <= out@.len(),
                forall|k: int| j <= k < out@.len() ==> !in_order(#[trigger] out@[k], h, descending),
            decreases j,
        {
            j = j - 1;
        }
        proof {
            lemma_inserted_at(out@, h, descending, j as int);
            assert(herbs@.take(i + 1).drop_last() =~= herbs@.take(i as int));
            lemma_sorted(herbs@.take(i + 1), descending);
        }
        out.insert(j, h);
        i = i + 1;
    }
    proof {
        assert(herbs@.take(n as int) =~= herbs@);
        lemma_sorted(herbs@, descending);
    }
    *herbs = out;
}

/// The fodder left of `fodder` once `eaters` herbivores have eaten, each
/// its intake or what is left.
pub open spec fn fodder_left(fodder: i64, eaters: int) -> int {
    if fodder <= 0 {
        fodder as int
    } else if fodder - eaters * Parameters::herbivore_table().f > 0 {
        fodder - eaters * Parameters::herbivore_table().f
    } else {
        0
    }
}

/// The herbivores after grazing in their order: each eats while fodder is
/// left.
pub open spec fn grazed(herbs: Seq<Herbivore>, fodder: i64) -> Seq<Herbivore> {
    Seq::new(
        herbs.len(),
        |i: int|
            if fodder_left(fodder, i) > 0 {
                herbs[i].with_stats(
                    herbs[i].stats.fed(
                        Parameters::herbivore_table(),
                        Parameters::herbivore_table().intake(fodder_left(fodder, i) as i64),
                    ),
                )
            } else {
                herbs[i]
            },
    )
}

/// Lets the herbivores graze in their order while fodder is left, and
/// returns the fodder left.
pub fn graze(herbs: &mut Vec<Herbivore>, fodder: i64) -> (left: i64)
    ensures
        final(herbs)@ == grazed(old(herbs)@, fodder),
        left == fodder_left(fodder, old(herbs).len() as int),
        fodder >= 0 ==> 0 <= left <= fodder,
{
    let n = herbs.len();
    let mut left: i64 = fodder;
    let mut i: usize = 0;
    while i < n
        invariant
            i <= n,
            herbs@.len() == n,
            old(herbs)@.len() == n,
            left == fodder_left(fodder, i as int),
            fodder >= 0 ==> 0 <= left <= fodder,
            forall|j: int| 0 <= j < i ==> #[trigger] herbs@[j] == grazed(old(herbs)@, fodder)[j],
            forall|j: int| i <= j < n ==> #[trigger] herbs@[j] == old(herbs)@[j],
        decreases n - i,
    {
        if left > 0 {
            let eaten = herbs[i].feeding(left);
            left = left - eaten;
        }
        i = i + 1;
    }
    assert(herbs@ =~= grazed(old(herbs)@, fodder));
    left
}

/// The herbivores after the first `k` carnivores have hunted through them
/// in turn, the `k`-th on the `k`-th draws.
pub open spec fn ravaged(herbs: Seq<Herbivore>, carns: Seq<Carnivore>, draws: Seq<Seq<i64>>, k: nat) -> Seq<
    Herbivore,
>
    decreases k,
{
    if k == 0 {
        herbs
    } else {
        hunted(carns[k - 1].stats, ravaged(herbs, carns, draws, (k - 1) as nat), draws[k - 1])
    }
}

/// The carnivores after each has hunted in turn through what those before
/// it left.
pub open spec fn sated(herbs: Seq<Herbivore>, carns: Seq<Carnivore>, draws: Seq<Seq<i64>>) -> Seq<
    Carnivore,
> {
    Seq::new(
        carns.len(),
        |k: int|
            carns[k].with_stats(
                hunt(carns[k].stats, ravaged(herbs, carns, draws, k as nat), draws[k], herbs.len()).0,
            ),
    )
}

/// Whether `draws` holds, for each of `count` carnivores, one uniform draw
/// for each of `prey` herbivores.
pub open spec fn hunt_draws(draws: Seq<Seq<i64>>, count: nat, prey: nat) -> bool {
    &&& draws.len() == count
    &&& forall|k: int| 0 <= k < count ==> (#[trigger] draws[k]).len() == prey && all_draws(draws[k])
}

/// What the first `k` carnivores leave depends on them and their draws
/// alone.
proof fn lemma_ravaged_prefix(
    herbs: Seq<Herbivore>,
    carns: Seq<Carnivore>,
    draws: Seq<Seq<i64>>,
    others: Seq<Carnivore>,
    more: Seq<Seq<i64>>,
    k: nat,
)
    requires
        k <= carns.len(),
        k <= others.len(),
        k <= draws.len(),
        k <= more.len(),
        forall|j: int| 0 <= j < k ==> carns[j] == others[j] && draws[j] == more[j],
    ensures
        ravaged(herbs, carns, draws, k) == ravaged(herbs, others, more, k),
    decreases k,
{
    if k > 0 {
        lemma_ravaged_prefix(herbs, carns, draws, others, more, (k - 1) as nat);
    }
}

/// Lets every carnivore hunt in turn through the herbivores, on draws from
/// the thread-local generator. Herbivores that fall are marked dead and
/// stay in place; a dead herbivore is no prey to the carnivores that follow.
pub fn hunt_all(carns: &mut Vec<Carnivore>, herbs: &mut Vec<Herbivore>)
    ensures
        exists|draws: Seq<Seq<i64>>|
            {
                &&& hunt_draws(draws, old(carns)@.len(), old(herbs)@.len())
                &&& final(herbs)@ == ravaged(old(herbs)@, old(carns)@, draws, old(carns)@.len())
                &&& final(carns)@ == sated(old(herbs)@, old(carns)@, draws)
            },
        final(carns).len() == old(carns).len(),
        final(herbs).len() == old(herbs).len(),
{
    let n = carns.len();
    let m = herbs.len();
    let ghost mut draws: Seq<Seq<i64>> = Seq::empty();
    let mut k: usize = 0;
    while k < n
        invariant
            k <= n,
            carns@.len() == n,
            old(carns)@.len() == n,
            herbs@.len() == m,
            old(herbs)@.len() == m,
            hunt_draws(draws, k as nat, m as nat),
            herbs@ == ravaged(old(herbs)@, old(carns)@, draws, k as nat),
            forall|j: int|
                0 <= j < k ==> #[trigger] carns@[j] == old(carns)@[j].with_stats(
                    hunt(
                        old(carns)@[j].stats,
                        ravaged(old(herbs)@, old(carns)@, draws, j as nat),
                        draws[j],
                        m as nat,
                    ).0,
                ),
            forall|j: int| k <= j < n ==> #[trigger] carns@[j] == old(carns)@[j],
        decreases n - k,
    {
        let turn = unit_draws(m);
        let ghost before = draws;
        proof {
            draws = draws.push(turn@);
            assert forall|j: nat| j <= k implies #[trigger] ravaged(
                old(herbs)@,
                old(carns)@,
                draws,
                j,
            ) == ravaged(old(herbs)@, old(carns)@, before, j) by {
                lemma_ravaged_prefix(old(herbs)@, old(carns)@, draws, old(carns)@, before, j);
            }
        }
        let ghost prey = herbs@;
        assert(carns@[k as int] == old(carns)@[k as int]);
        carns[k].feeding_with_draws(herbs, &turn);
        proof {
            assert(draws[k as int] == turn@);
            assert(prey == ravaged(old(herbs)@, old(carns)@, draws, k as nat));
            assert(herbs@ == hunted(old(carns)@[k as int].stats, prey, draws[k as int]));
            assert(herbs@ == ravaged(old(herbs)@, old(carns)@, draws, (k + 1) as nat));
        }
        k = k + 1;
    }
    proof {
        assert(carns@ =~= sated(old(herbs)@, old(carns)@, draws));
    }
}

} // verus!
