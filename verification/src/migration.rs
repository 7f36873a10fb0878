//! Moving the animals of one species to the cells they decided for.
//!
//! The herds of all cells are held together, the herd of the cell at
//! `(x, y)` at index `y * width + x`. Every animal whose destination is a
//! cell of the grid that holds fauna moves there; every other animal stays.
//! All end the year without a destination.

use vstd::prelude::*;
use crate::animal::AnimalTrait;
use crate::species::Stats;

verus! {

/// The sequences that the herds hold.
pub open spec fn herd_views<A>(herds: Seq<Vec<A>>) -> Seq<Seq<A>> {
    Seq::new(herds.len(), |i: int| herds[i]@)
}

/// The index of the cell an animal with the given destination moves to:
/// that of the destination, if it lies in the grid and holds fauna.
pub open spec fn target(habitable: Seq<bool>, width: nat, move_to: Option<(u32, u32)>) -> Option<int> {
    match move_to {
        Some(loc) => {
            let index = loc.1 * width + loc.0;
            if loc.0 < width && index < habitable.len() && habitable[index] {
                Some(index)
            } else {
                None
            }
        },
        None => None,
    }
}

/// The animal without a destination.
pub open spec fn settled<A: AnimalTrait>(a: A) -> A {
    a.with_stats(Stats { move_to: None, ..a.stats() })
}

/// Those of the herd that stay, in their order.
pub open spec fn stayers<A: AnimalTrait>(herd: Seq<A>, habitable: Seq<bool>, width: nat) -> Seq<A>
    decreases herd.len(),
{
    if herd.len() == 0 {
        herd
    } else {
        let rest = stayers(herd.drop_first(), habitable, width);
        if target(habitable, width, herd[0].stats().move_to) is None {
            seq![settled(herd[0])] + rest
        } else {
            rest
        }
    }
}

/// Those of the herd that move to the cell at index `to`, the last of the
/// herd first.
pub open spec fn leavers<A: AnimalTrait>(herd: Seq<A>, habitable: Seq<bool>, width: nat, to: int) -> Seq<A>
    decreases herd.len(),
{
    if herd.len() == 0 {
        herd
    } else {
        let rest = leavers(herd.drop_first(), habitable, width, to);
        if target(habitable, width, herd[0].stats().move_to) == Some(to) {
            rest.push(settled(herd[0]))
        } else {
            rest
        }
    }
}

/// Those that move to the cell at index `to` out of the first `k` herds, herd
/// by herd.
pub open spec fn arrivals<A: AnimalTrait>(
    herds: Seq<Seq<A>>,
    habitable: Seq<bool>,
    width: nat,
    to: int,
    k: nat,
) -> Seq<A>
    decreases k,
{
    if k == 0 {
        Seq::empty()
    } else {
        arrivals(herds, habitable, width, to, (k - 1) as nat) + leavers(
            herds[k - 1],
            habitable,
            width,
            to,
        )
    }
}

/// The herds after the move: in each cell those that stayed, followed by
/// those that arrived.
pub open spec fn relocated<A: AnimalTrait>(herds: Seq<Seq<A>>, habitable: Seq<bool>, width: nat) -> Seq<
    Seq<A>,
> {
    Seq::new(
        herds.len(),
        |to: int| stayers(herds[to], habitable, width) + arrivals(herds, habitable, width, to, herds.len()),
    )
}

/// The number of animals in the first `k` herds.
pub open spec fn census<A>(herds: Seq<Seq<A>>, k: nat) -> nat
    decreases k,
{
    if k == 0 {
        0
    } else {
        census(herds, (k - 1) as nat) + herds[k - 1].len()
    }
}

/// Whether no animal of the herds has a destination.
pub open spec fn all_settled<A: AnimalTrait>(herds: Seq<Seq<A>>) -> bool {
    forall|i: int, j: int|
        0 <= i < herds.len() && 0 <= j < herds[i].len() ==> (#[trigger] herds[i][j]).stats().move_to is None
}

/// Whether every animal of `after` is an animal of `before` that lost its
/// destination and nothing else.
pub open spec fn all_from<A: AnimalTrait>(after: Seq<Seq<A>>, before: Seq<Seq<A>>) -> bool {
    forall|i: int, j: int|
        0 <= i < after.len() && 0 <= j < after[i].len() ==> exists|k: int, l: int|
            0 <= k < before.len() && 0 <= l < before[k].len() && #[trigger] after[i][j] == settled(
                #[trigger] before[k][l],
            )
}

/// Whether every animal of the herds is alive and has the fitness of its
/// age and weight.
pub open spec fn all_well<A: AnimalTrait>(herds: Seq<Seq<A>>) -> bool {
    forall|i: int, j: int|
        0 <= i < herds.len() && 0 <= j < herds[i].len() ==> (#[trigger] herds[i][j]).stats().alive
            && herds[i][j].stats().current(herds[i][j].parameters())
}

/// Animals that only lost their destination are as well as they were.
pub proof fn lemma_settled_well<A: AnimalTrait>(after: Seq<Seq<A>>, before: Seq<Seq<A>>)
    requires
        all_from(after, before),
        all_well(before),
    ensures
        all_well(after),
{
    assert forall|i: int, j: int| 0 <= i < after.len() && 0 <= j < after[i].len() implies (
    #[trigger] after[i][j]).stats().alive && after[i][j].stats().current(after[i][j].parameters()) by {
        let (k, l) = choose|k: int, l: int|
            0 <= k < before.len() && 0 <= l < before[k].len() && after[i][j] == settled(
                #[trigger] before[k][l],
            );
        let a = before[k][l];
        a.lemma_with_stats(Stats { move_to: None, ..a.stats() });
        assert(a.stats().alive);
    }
}

/// The census counts each herd once.
proof fn lemma_census_update<A>(herds: Seq<Seq<A>>, i: int, herd: Seq<A>, k: nat)
    requires
        0 <= i < herds.len(),
        k <= herds.len(),
    ensures
        census(herds.update(i, herd), k) == if i < k {
            census(herds, k) - herds[i].len() + herd.len()
        } else {
            census(herds, k) as int
        },
        i < k ==> census(herds, k) >= herds[i].len(),
    decreases k,
{
    if k > 0 {
        lemma_census_update(herds, i, herd, (k - 1) as nat);
    }
}

/// The index of the cell an animal with the given destination moves to.
fn destination(habitable: &Vec<bool>, width: usize, move_to: Option<(u32, u32)>) -> (r: Option<usize>)
    ensures
        match r {
            Some(index) => target(habitable@, width as nat, move_to) == Some(index as int),
            None => target(habitable@, width as nat, move_to) is None,
        },
{
    match move_to {
        Some(loc) => {
            if (loc.0 as u128) < width as u128 {
                assert(0 <= loc.1 * width <= 0xffff_ffff * 0xffff_ffff_ffff_ffff) by (nonlinear_arith)
                    requires
                        0 <= loc.1 <= 0xffff_ffff,
                        0 <= width <= 0xffff_ffff_ffff_ffff,
                ;
                let index: u128 = (loc.1 as u128) * (width as u128) + (loc.0 as u128);
                if index < habitable.len() as u128 && habitable[index as usize] {
                    Some(index as usize)
                } else {
                    None
                }
            } else {
                None
            }
        },
        None => None,
    }
}

/// Every animal that stays is one of the herd, without its destination.
proof fn lemma_stayers_from<A: AnimalTrait>(herd: Seq<A>, habitable: Seq<bool>, width: nat)
    ensures
        forall|j: int|
            0 <= j < stayers(herd, habitable, width).len() ==> exists|l: int|
                0 <= l < herd.len() && #[trigger] stayers(herd, habitable, width)[j] == settled(
                    #[trigger] herd[l],
                ),
    decreases herd.len(),
{
    if herd.len() > 0 {
        let rest = stayers(herd.drop_first(), habitable, width);
        lemma_stayers_from(herd.drop_first(), habitable, width);
        let out = stayers(herd, habitable, width);
        assert forall|j: int| 0 <= j < out.len() implies exists|l: int|
            0 <= l < herd.len() && #[trigger] out[j] == settled(#[trigger] herd[l]) by {
            if target(habitable, width, herd[0].stats().move_to) is None && j == 0 {
                assert(out[j] == settled(herd[0]));
            } else {
                let r = if target(habitable, width, herd[0].stats().move_to) is None {
                    j - 1
                } else {
                    j
                };
                assert(out[j] == rest[r]);
                let l = choose|l: int|
                    0 <= l < herd.drop_first().len() && rest[r] == settled(
                        #[trigger] herd.drop_first()[l],
                    );
                assert(herd.drop_first()[l] == herd[l + 1]);
            }
        }
    }
}

/// Every animal that leaves is one of the herd, without its destination.
proof fn lemma_leavers_from<A: AnimalTrait>(herd: Seq<A>, habitable: Seq<bool>, width: nat, to: int)
    ensures
        forall|j: int|
            0 <= j < leavers(herd, habitable, width, to).len() ==> exists|l: int|
                0 <= l < herd.len() && #[trigger] leavers(herd, habitable, width, to)[j] == settled(
                    #[trigger] herd[l],
                ),
    decreases herd.len(),
{
    if herd.len() > 0 {
        let rest = leavers(herd.drop_first(), habitable, width, to);
        lemma_leavers_from(herd.drop_first(), habitable, width, to);
        let out = leavers(herd, habitable, width, to);
        assert forall|j: int| 0 <= j < out.len() implies exists|l: int|
            0 <= l < herd.len() && #[trigger] out[j] == settled(#[trigger] herd[l]) by {
            if j == rest.len() {
                assert(out[j] == settled(herd[0]));
            } else {
                assert(out[j] == rest[j]);
                let l = choose|l: int|
                    0 <= l < herd.drop_first().len() && rest[j] == settled(
                        #[trigger] herd.drop_first()[l],
                    );
                assert(herd.drop_first()[l] == herd[l + 1]);
            }
        }
    }
}

/// Every animal that arrives is one of the herds, without its destination.
proof fn lemma_arrivals_from<A: AnimalTrait>(
    herds: Seq<Seq<A>>,
    habitable: Seq<bool>,
    width: nat,
    to: int,
    k: nat,
)
    requires
        k <= herds.len(),
    ensures
        forall|j: int|
            0 <= j < arrivals(herds, habitable, width, to, k).len() ==> exists|i: int, l: int|
                0 <= i < k && 0 <= l < herds[i].len() && #[trigger] arrivals(
                    herds,
                    habitable,
                    width,
                    to,
                    k,
                )[j] == settled(#[trigger] herds[i][l]),
    decreases k,
{
    if k > 0 {
        let before = arrivals(herds, habitable, width, to, (k - 1) as nat);
        let last = leavers(herds[k - 1], habitable, width, to);
        lemma_arrivals_from(herds, habitable, width, to, (k - 1) as nat);
        lemma_leavers_from(herds[k - 1], habitable, width, to);
        let out = arrivals(herds, habitable, width, to, k);
        assert forall|j: int| 0 <= j < out.len() implies exists|i: int, l: int|
            0 <= i < k && 0 <= l < herds[i].len() && #[trigger] out[j] == settled(
                #[trigger] herds[i][l],
            ) by {
            if j < before.len() {
                assert(out[j] == before[j]);
                let (i, l) = choose|i: int, l: int|
                    0 <= i < k - 1 && 0 <= l < herds[i].len() && before[j] == settled(
                        #[trigger] herds[i][l],
                    );
                assert(out[j] == settled(herds[i][l]));
            } else {
                assert(out[j] == last[j - before.len()]);
                let l = choose|l: int|
                    0 <= l < herds[k - 1].len() && last[j - before.len()] == settled(
                        #[trigger] herds[k - 1][l],
                    );
                assert(out[j] == settled(herds[k - 1][l]));
            }
        }
    }
}

/// After the move every animal is one of those before, without its
/// destination and otherwise the same.
pub proof fn lemma_relocated_from<A: AnimalTrait>(herds: Seq<Seq<A>>, habitable: Seq<bool>, width: nat)
    ensures
        all_from(relocated(herds, habitable, width), herds),
        all_settled(relocated(herds, habitable, width)),
{
    let after = relocated(herds, habitable, width);
    assert forall|i: int, j: int| 0 <= i < after.len() && 0 <= j < after[i].len() implies (exists|
        k: int,
        l: int,
    |
        0 <= k < herds.len() && 0 <= l < herds[k].len() && #[trigger] after[i][j] == settled(
            #[trigger] herds[k][l],
        )) && after[i][j].stats().move_to is None by {
        let stay = stayers(herds[i], habitable, width);
        let come = arrivals(herds, habitable, width, i, herds.len());
        lemma_stayers_from(herds[i], habitable, width);
        lemma_arrivals_from(herds, habitable, width, i, herds.len());
        if j < stay.len() {
            assert(after[i][j] == stay[j]);
            let l = choose|l: int| 0 <= l < herds[i].len() && stay[j] == settled(#[trigger] herds[i][l]);
            assert(after[i][j] == settled(herds[i][l]));
            herds[i][l].lemma_with_stats(Stats { move_to: None, ..herds[i][l].stats() });
        } else {
            assert(after[i][j] == come[j - stay.len()]);
            let (k, l) = choose|k: int, l: int|
                0 <= k < herds.len() && 0 <= l < herds[k].len() && come[j - stay.len()] == settled(
                    #[trigger] herds[k][l],
                );
            assert(after[i][j] == settled(herds[k][l]));
            herds[k][l].lemma_with_stats(Stats { move_to: None, ..herds[k][l].stats() });
        }
    }
}

/// No animal leaves for a cell that holds no fauna.
proof fn lemma_no_leavers<A: AnimalTrait>(herd: Seq<A>, habitable: Seq<bool>, width: nat, to: int)
    requires
        0 <= to < habitable.len() ==> !habitable[to],
    ensures
        leavers(herd, habitable, width, to).len() == 0,
    decreases herd.len(),
{
    if herd.len() > 0 {
        lemma_no_leavers(herd.drop_first(), habitable, width, to);
    }
}

/// A cell that holds no fauna and no animals holds none after the move.
pub proof fn lemma_no_arrivals<A: AnimalTrait>(herds: Seq<Seq<A>>, habitable: Seq<bool>, width: nat, to: int)
    requires
        0 <= to < herds.len(),
        0 <= to < habitable.len() ==> !habitable[to],
        herds[to].len() == 0,
    ensures
        relocated(herds, habitable, width)[to].len() == 0,
{
    lemma_no_arrivals_upto(herds, habitable, width, to, herds.len());
}

/// No animal arrives in a cell that holds no fauna.
proof fn lemma_no_arrivals_upto<A: AnimalTrait>(
    herds: Seq<Seq<A>>,
    habitable: Seq<bool>,
    width: nat,
    to: int,
    k: nat,
)
    requires
        0 <= to < habitable.len() ==> !habitable[to],
    ensures
        arrivals(herds, habitable, width, to, k).len() == 0,
    decreases k,
{
    if k > 0 {
        lemma_no_arrivals_upto(herds, habitable, width, to, (k - 1) as nat);
        lemma_no_leavers(herds[k - 1], habitable, width, to);
    }
}

/// The herds' sizes.
fn herd_sizes<A>(herds: &Vec<Vec<A>>) -> (sizes: Vec<usize>)
    ensures
        sizes.len() == herds.len(),
        forall|i: int| 0 <= i < herds.len() ==> #[trigger] sizes[i] == herds[i].len(),
{
    let mut sizes: Vec<usize> = Vec::new();
    let mut i: usize = 0;
    while i < herds.len()
        invariant
            i <= herds.len(),
            sizes.len() == i,
            forall|j: int| 0 <= j < i ==> #[trigger] sizes[j] == herds[j].len(),
        decreases herds.len() - i,
    {
        sizes.push(herds[i].len());
        i = i + 1;
    }
    sizes
}

/// What stands in the herd of cell `at` while the animals of cell `from`
/// are moved, those from position `k` on being done.
pub open spec fn herd_in_transit<A: AnimalTrait>(
    herds: Seq<Seq<A>>,
    habitable: Seq<bool>,
    width: nat,
    from: int,
    k: int,
    at: int,
) -> Seq<A> {
    (if at < from {
        stayers(herds[at], habitable, width)
    } else if at == from {
        herds[from].take(k) + stayers(herds[from].skip(k), habitable, width)
    } else {
        herds[at]
    }) + arrivals(herds, habitable, width, at, from as nat) + leavers(
        herds[from].skip(k),
        habitable,
        width,
        at,
    )
}

/// Moves every animal whose destination is a cell of the grid that holds
/// fauna to the herd of that cell, and takes the destination from every
/// animal. The herds are gone through in their order and each herd from its
/// last animal to its first; an animal that moves is put behind the herd of
/// its new cell.
pub fn relocate<A: AnimalTrait + Copy>(herds: &mut Vec<Vec<A>>, habitable: &Vec<bool>, width: usize)
    requires
        old(herds).len() == habitable.len(),
    ensures
        herd_views(final(herds)@) == relocated(herd_views(old(herds)@), habitable@, width as nat),
        census(herd_views(final(herds)@), final(herds).len() as nat) == census(
            herd_views(old(herds)@),
            old(herds).len() as nat,
        ),
        all_from(herd_views(final(herds)@), herd_views(old(herds)@)),
        all_settled(herd_views(final(herds)@)),
        final(herds).len() == old(herds).len(),
{
    let n = herds.len();
    let sizes = herd_sizes(herds);
    let ghost before = herd_views(herds@);
    let ghost open = habitable@;
    let ghost w = width as nat;
    let mut i: usize = 0;
    while i < n
        invariant
            i <= n,
            herds.len() == n,
            before.len() == n,
            open == habitable@,
            habitable.len() == n,
            w == width as nat,
            sizes.len() == n,
            forall|j: int| 0 <= j < n ==> #[trigger] sizes[j] == before[j].len(),
            census(herd_views(herds@), n as nat) == census(before, n as nat),
            i < n ==> forall|at: int|
                0 <= at < n ==> #[trigger] herds@[at]@ == herd_in_transit(
                    before,
                    open,
                    w,
                    i as int,
                    before[i as int].len() as int,
                    at,
                ),
            i == n ==> forall|at: int|
                0 <= at < n ==> #[trigger] herds@[at]@ == stayers(before[at], open, w) + arrivals(
                    before,
                    open,
                    w,
                    at,
                    n as nat,
                ),
        decreases n - i,
    {
        let mut k: usize = sizes[i];
        while k > 0
            invariant
                i < n,
                herds.len() == n,
                before.len() == n,
                open == habitable@,
                habitable.len() == n,
                w == width as nat,
                k <= before[i as int].len(),
                census(herd_views(herds@), n as nat) == census(before, n as nat),
                forall|at: int|
                    0 <= at < n ==> #[trigger] herds@[at]@ == herd_in_transit(
                        before,
                        open,
                        w,
                        i as int,
                        k as int,
                        at,
                    ),
            decreases k,
        {
            k = k - 1;
            let ghost herd = before[i as int];
            let ghost done = herd.skip(k + 1);
            let ghost rest = herd.skip(k as int);
            let ghost views = herd_views(herds@);
            proof {
                assert(rest.drop_first() =~= done);
                assert(rest[0] == herd[k as int]);
                assert(herds@[i as int]@ == herd_in_transit(before, open, w, i as int, k + 1, i as int));
                assert(herds@[i as int]@[k as int] == herd[k as int]);
            }
            let a = herds[i][k];
            let mut b = a;
            let s = b.stats_as_mut();
            s.move_to = None;
            assert(b == settled(a));
            match destination(habitable, width, a.stats_as_ref().move_to) {
                Some(to) => {
                    herds[i].remove(k);
                    let ghost mid = herd_views(herds@);
                    herds[to].push(b);
                    proof {
                        assert(mid =~= views.update(i as int, views[i as int].remove(k as int)));
                        assert(herd_views(herds@) =~= mid.update(to as int, mid[to as int].push(b)));
                        lemma_census_update(views, i as int, views[i as int].remove(k as int), n as nat);
                        lemma_census_update(mid, to as int, mid[to as int].push(b), n as nat);
                        assert forall|at: int| 0 <= at < n implies #[trigger] herds@[at]@
                            == herd_in_transit(before, open, w, i as int, k as int, at) by {
                            assert(views[at] == herd_in_transit(
                                before,
                                open,
                                w,
                                i as int,
                                k + 1,
                                at,
                            ));
                            if at == i {
                                assert(herd.take(k + 1).remove(k as int) =~= herd.take(k as int));
                            }
                            assert(herds@[at]@ =~= herd_in_transit(
                                before,
                                open,
                                w,
                                i as int,
                                k as int,
                                at,
                            ));
                        }
                    }
                },
                None => {
                    herds[i][k] = b;
                    proof {
                        assert(herd_views(herds@) =~= views.update(
                            i as int,
                            views[i as int].update(k as int, b),
                        ));
                        lemma_census_update(
                            views,
                            i as int,
                            views[i as int].update(k as int, b),
                            n as nat,
                        );
                        assert forall|at: int| 0 <= at < n implies #[trigger] herds@[at]@
                            == herd_in_transit(before, open, w, i as int, k as int, at) by {
                            assert(views[at] == herd_in_transit(
                                before,
                                open,
                                w,
                                i as int,
                                k + 1,
                                at,
                            ));
                            assert(herds@[at]@ =~= herd_in_transit(
                                before,
                                open,
                                w,
                                i as int,
                                k as int,
                                at,
                            ));
                        }
                    }
                },
            }
        }
        proof {
            let herd = before[i as int];
            assert(herd.skip(0) =~= herd);
            assert(herd.take(0) =~= Seq::<A>::empty());
            if i + 1 < n {
                let next = before[i + 1];
                assert(next.skip(next.len() as int) =~= Seq::<A>::empty());
                assert(next.take(next.len() as int) =~= next);
                assert forall|at: int| 0 <= at < n implies #[trigger] herds@[at]@
                    == herd_in_transit(before, open, w, i + 1, next.len() as int, at) by {
                    assert(herds@[at]@ == herd_in_transit(before, open, w, i as int, 0, at));
                    assert(herds@[at]@ =~= herd_in_transit(
                        before,
                        open,
                        w,
                        i + 1,
                        next.len() as int,
                        at,
                    ));
                }
            } else {
                assert forall|at: int| 0 <= at < n implies #[trigger] herds@[at]@ == stayers(
                    before[at],
                    open,
                    w,
                ) + arrivals(before, open, w, at, n as nat) by {
                    assert(herds@[at]@ == herd_in_transit(before, open, w, i as int, 0, at));
                    assert(herds@[at]@ =~= stayers(before[at], open, w) + arrivals(
                        before,
                        open,
                        w,
                        at,
                        n as nat,
                    ));
                }
            }
        }
        i = i + 1;
    }
    proof {
        assert(herd_views(herds@) =~= relocated(before, open, w));
        lemma_relocated_from(before, open, w);
    }
}

} // verus!
