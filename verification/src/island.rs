//! The island: a grid of cells, the year that passes over all of them, and
//! the migration between them.
//!
//! The cells stand row by row in one vector, the cell at `(x, y)` at index
//! `y * width + x`.

use vstd::prelude::*;
use crate::animal::{AnimalTrait, Carnivore, Herbivore};
use crate::cell::{from_char, max_fodder, terrain_of, Cell, Chance};
use crate::mapping::{all_allowed, allowed, chars_of, fault, find_line_end, find_text_end, find_text_start};
use crate::mapping::{lemma_allowed_width, lemma_fault_skip, lemma_faultless, lemma_rows_fit, map_fault};
use crate::mapping::{row_fault, row_views};
use crate::mapping::{rows, rows_from, span_allowed};
pub use crate::mapping::{MapError, Parameters};
use crate::migration::{all_from, all_settled, census, herd_views, lemma_no_arrivals, relocate, relocated};
use crate::migration::{all_well, lemma_settled_well};
use crate::population::{all_alive, all_current};
use vstd::arithmetic::div_mod::lemma_fundamental_div_mod_converse;
use vstd::string::{StringSliceAdditionalSpecFns, StrSliceExecFns};
use vstd::utf8::encode_utf8;

verus! {

/// The island.
#[derive(Debug)]
pub struct Island<'a> {
    pub raw_str: String,
    pub map_vec: Vec<&'a str>,
    pub height: usize,
    pub width: usize,
    pub map: Vec<Cell>,
}

/// The herbivores of every cell.
pub open spec fn herbivore_herds(cells: Seq<Cell>) -> Seq<Seq<Herbivore>> {
    Seq::new(cells.len(), |i: int| cells[i].herbivores())
}

/// The carnivores of every cell.
pub open spec fn carnivore_herds(cells: Seq<Cell>) -> Seq<Seq<Carnivore>> {
    Seq::new(cells.len(), |i: int| cells[i].carnivores())
}

/// Which cells hold fauna.
pub open spec fn habitable(cells: Seq<Cell>) -> Seq<bool> {
    Seq::new(cells.len(), |i: int| cells[i].fauna is Some)
}

/// Whether the cells of `after` are those of `before` but for their animals:
/// each has the terrain, the coordinate and the fodder of the cell it was.
pub open spec fn same_grounds(after: Seq<Cell>, before: Seq<Cell>) -> bool {
    &&& after.len() == before.len()
    &&& forall|i: int|
        0 <= i < after.len() ==> (#[trigger] after[i]).ground() == before[i].ground() && after[i].fodder
            == before[i].fodder
}

/// Whether every herd is empty.
pub open spec fn all_empty<A>(herds: Seq<Seq<A>>) -> bool {
    forall|i: int| 0 <= i < herds.len() ==> (#[trigger] herds[i]).len() == 0
}

/// Takes the animals out of the cells, the herds of the cell at index `i` to
/// index `i` of the results.
fn take_herds(cells: &mut Vec<Cell>) -> (herds: (Vec<Vec<Herbivore>>, Vec<Vec<Carnivore>>))
    ensures
        same_grounds(final(cells)@, old(cells)@),
        herds.0.len() == old(cells).len(),
        herds.1.len() == old(cells).len(),
        herd_views(herds.0@) == herbivore_herds(old(cells)@),
        herd_views(herds.1@) == carnivore_herds(old(cells)@),
        all_empty(herbivore_herds(final(cells)@)),
        all_empty(carnivore_herds(final(cells)@)),
{
    let n = cells.len();
    let mut herbs: Vec<Vec<Herbivore>> = Vec::new();
    let mut carns: Vec<Vec<Carnivore>> = Vec::new();
    let mut i: usize = 0;
    while i < n
        invariant
            i <= n,
            cells.len() == n,
            old(cells).len() == n,
            herbs.len() == i,
            carns.len() == i,
            same_grounds(cells@, old(cells)@),
            forall|j: int| 0 <= j < i ==> #[trigger] herbs@[j]@ == old(cells)@[j].herbivores(),
            forall|j: int| 0 <= j < i ==> #[trigger] carns@[j]@ == old(cells)@[j].carnivores(),
            forall|j: int| 0 <= j < i ==> (#[trigger] cells@[j]).herbivores().len() == 0,
            forall|j: int| 0 <= j < i ==> (#[trigger] cells@[j]).carnivores().len() == 0,
            forall|j: int| i <= j < n ==> #[trigger] cells@[j] == old(cells)@[j],
        decreases n - i,
    {
        let mut herd: Vec<Herbivore> = Vec::new();
        let mut pack: Vec<Carnivore> = Vec::new();
        match &mut cells[i].fauna {
            Some(fauna) => {
                core::mem::swap(&mut herd, &mut fauna.herbivore);
                core::mem::swap(&mut pack, &mut fauna.carnivore);
            },
            None => {},
        }
        herbs.push(herd);
        carns.push(pack);
        i = i + 1;
    }
    proof {
        assert(herd_views(herbs@) =~= herbivore_herds(old(cells)@));
        assert(herd_views(carns@) =~= carnivore_herds(old(cells)@));
    }
    (herbs, carns)
}

/// Puts the animals into the cells, the herds at index `i` into the cell at
/// index `i`.
fn put_herds(cells: &mut Vec<Cell>, herbs: Vec<Vec<Herbivore>>, carns: Vec<Vec<Carnivore>>)
    requires
        herbs.len() == old(cells).len(),
        carns.len() == old(cells).len(),
        forall|i: int|
            0 <= i < old(cells).len() && old(cells)@[i].fauna is None ==> (#[trigger] herbs@[i]).len()
                == 0 && carns@[i].len() == 0,
    ensures
        same_grounds(final(cells)@, old(cells)@),
        herbivore_herds(final(cells)@) == herd_views(herbs@),
        carnivore_herds(final(cells)@) == herd_views(carns@),
{
    let n = cells.len();
    let mut herbs = herbs;
    let mut carns = carns;
    let ghost herds = herd_views(herbs@);
    let ghost packs = herd_views(carns@);
    let mut i: usize = 0;
    while i < n
        invariant
            i <= n,
            cells.len() == n,
            old(cells).len() == n,
            herbs.len() == n,
            carns.len() == n,
            herds.len() == n,
            packs.len() == n,
            same_grounds(cells@, old(cells)@),
            forall|j: int| i <= j < n ==> #[trigger] herbs@[j]@ == herds[j],
            forall|j: int| i <= j < n ==> #[trigger] carns@[j]@ == packs[j],
            forall|j: int|
                0 <= j < n && old(cells)@[j].fauna is None ==> (#[trigger] herds[j]).len() == 0
                    && packs[j].len() == 0,
            forall|j: int| 0 <= j < i ==> (#[trigger] cells@[j]).herbivores() == herds[j],
            forall|j: int| 0 <= j < i ==> (#[trigger] cells@[j]).carnivores() == packs[j],
            forall|j: int| i <= j < n ==> #[trigger] cells@[j] == old(cells)@[j],
        decreases n - i,
    {
        assert(herbs@[i as int]@ == herds[i as int]);
        assert(carns@[i as int]@ == packs[i as int]);
        match &mut cells[i].fauna {
            Some(fauna) => {
                core::mem::swap(&mut herbs[i], &mut fauna.herbivore);
                core::mem::swap(&mut carns[i], &mut fauna.carnivore);
            },
            None => {
                assert(herds[i as int].len() == 0);
                assert(cells@[i as int].herbivores() =~= herds[i as int]);
                assert(cells@[i as int].carnivores() =~= packs[i as int]);
            },
        }
        i = i + 1;
    }
    proof {
        assert(herbivore_herds(cells@) =~= herds);
        assert(carnivore_herds(cells@) =~= packs);
    }
}

/// Which cells hold fauna.
fn habitable_cells(cells: &Vec<Cell>) -> (open: Vec<bool>)
    ensures
        open@ == habitable(cells@),
{
    let mut open: Vec<bool> = Vec::new();
    let mut i: usize = 0;
    while i < cells.len()
        invariant
            i <= cells.len(),
            open.len() == i,
            forall|j: int| 0 <= j < i ==> #[trigger] open@[j] == (cells@[j].fauna is Some),
        decreases cells.len() - i,
    {
        open.push(cells[i].fauna.is_some());
        i = i + 1;
    }
    assert(open@ =~= habitable(cells@));
    open
}

/// The weights for the newborns of the cell at index `i`: of the weights
/// given, as many as the cell holds animals, behind those for the cells
/// before it.
pub open spec fn share<A>(weights: Seq<i64>, herds: Seq<Seq<A>>, i: int) -> Seq<i64> {
    let from = census(herds, i as nat);
    let to = from + herds[i].len();
    weights.subrange(
        if from < weights.len() {
            from as int
        } else {
            weights.len() as int
        },
        if to < weights.len() {
            to as int
        } else {
            weights.len() as int
        },
    )
}

/// Whether `chances` holds for every cell a chance of its year.
pub open spec fn admit_all(
    cells: Seq<Cell>,
    herbivore_weights: Seq<i64>,
    carnivore_weights: Seq<i64>,
    chances: Seq<Chance>,
) -> bool {
    &&& chances.len() == cells.len()
    &&& forall|i: int|
        0 <= i < cells.len() ==> (#[trigger] cells[i]).admits(
            share(herbivore_weights, herbivore_herds(cells), i),
            share(carnivore_weights, carnivore_herds(cells), i),
            chances[i],
        )
}

/// The herbivores of every cell at the end of its year, before the
/// migration.
pub open spec fn herbivores_after_years(cells: Seq<Cell>, herbivore_weights: Seq<i64>, chances: Seq<Chance>) -> Seq<
    Seq<Herbivore>,
> {
    Seq::new(
        cells.len(),
        |i: int|
            cells[i].herbivores_after_year(
                share(herbivore_weights, herbivore_herds(cells), i),
                chances[i],
            ),
    )
}

/// The carnivores of every cell at the end of its year, before the
/// migration.
pub open spec fn carnivores_after_years(cells: Seq<Cell>, herbivore_weights: Seq<i64>, chances: Seq<Chance>) -> Seq<
    Seq<Carnivore>,
> {
    Seq::new(
        cells.len(),
        |i: int|
            cells[i].carnivores_after_year(
                share(herbivore_weights, herbivore_herds(cells), i),
                chances[i],
            ),
    )
}

/// Whether `cell` is the cell that the symbol stands for, at `loc`, with its
/// fodder and no animals.
pub open spec fn is_new_cell(cell: Cell, symbol: char, loc: (u32, u32)) -> bool {
    &&& Some(cell.terrain()) == terrain_of(symbol)
    &&& cell.loc == loc
    &&& cell.fodder == max_fodder(cell.terrain())
    &&& cell.herbivores().len() == 0
    &&& cell.carnivores().len() == 0
    &&& cell.wf()
}

impl<'a> Island<'a> {
    /// The island's invariant: the cells stand row by row, each at its
    /// coordinate, and each is well formed.
    pub open spec fn wf(&self) -> bool {
        &&& self.map@.len() == self.width * self.height
        &&& forall|i: int|
            0 <= i < self.map@.len() ==> (#[trigger] self.map@[i]).wf() && self.map@[i].loc == (
                (i % self.width as int) as u32,
                (i / self.width as int) as u32,
            )
    }

    /// The rows of a map: its lines without the white space around them, but
    /// for the lines that hold nothing else. A row that is not as long as the
    /// first, or holds a character that is no terrain symbol, is rejected;
    /// of several the first counts, and in one row its length.
    pub fn raw_map_to_vec(input_str: &'a str) -> (r: Result<Vec<&'a str>, MapError>)
        ensures
            match r {
                Ok(lines) => map_fault(input_str@) is None && row_views(lines@) == rows(input_str@),
                Err(e) => map_fault(input_str@) == Some(e),
            },
    {
        let text = chars_of(input_str);
        let n = text.len();
        let mut lines: Vec<&'a str> = Vec::new();
        let mut width: usize = 0;
        let mut from: usize = 0;
        let mut more = true;
        while more
            invariant
                text@ == input_str@,
                n == text.len(),
                from <= n,
                rows(text@) == row_views(lines@) + (if more {
                    rows_from(text@, from as int)
                } else {
                    Seq::empty()
                }),
                lines.len() > 0 ==> width == encode_utf8(rows(text@)[0]).len(),
                forall|i: int|
                    0 <= i < lines.len() ==> row_fault(#[trigger] row_views(lines@)[i], width as nat) is None,
            decreases n - from + (if more { 1int } else { 0int }),
        {
            let end = find_line_end(&text, from);
            let first = find_text_start(&text, from, end);
            let last = find_text_end(&text, first, end);
            let ghost rest = if end < n {
                rows_from(text@, end + 1)
            } else {
                Seq::empty()
            };
            let ghost done = row_views(lines@);
            if first < last {
                let row = input_str.substring_char(first, last);
                let ghost tail = seq![row@] + rest;
                proof {
                    assert(row@ == text@.subrange(first as int, last as int));
                    assert(rows_from(text@, from as int) == tail);
                    assert(rows(text@) == done + tail);
                    assert(tail[0] == row@);
                    assert(tail.drop_first() =~= rest);
                    if lines.len() == 0 {
                        assert(done + tail =~= tail);
                    } else {
                        assert((done + tail)[0] == done[0]);
                    }
                }
                let bytes = row.as_bytes().len();
                assert(bytes == encode_utf8(row@).len()) by {
                    assert(row.spec_bytes() == encode_utf8(row@));
                }
                if lines.len() == 0 {
                    width = bytes;
                }
                proof {
                    lemma_fault_skip(done, tail, width as nat);
                    assert(fault(rows(text@), width as nat) == fault(tail, width as nat));
                    assert(map_fault(text@) == fault(tail, width as nat));
                }
                if bytes != width {
                    assert(row_fault(row@, width as nat) == Some(MapError::UnequalLines));
                    return Err(MapError::UnequalLines);
                }
                if !span_allowed(&text, first, last) {
                    assert(row_fault(row@, width as nat) == Some(MapError::InvalidCharacter));
                    return Err(MapError::InvalidCharacter);
                }
                lines.push(row);
                proof {
                    assert(row_fault(row@, width as nat) is None);
                    assert(row_views(lines@) =~= done.push(row@));
                    assert(done + tail =~= done.push(row@) + rest);
                    assert forall|i: int| 0 <= i < lines.len() implies row_fault(
                        #[trigger] row_views(lines@)[i],
                        width as nat,
                    ) is None by {
                        if i < done.len() {
                            assert(row_views(lines@)[i] == done[i]);
                        }
                    }
                }
            }
            if end < n {
                from = end + 1;
            } else {
                more = false;
            }
        }
        proof {
            assert(rows(text@) =~= row_views(lines@));
            lemma_fault_skip(row_views(lines@), Seq::empty(), width as nat);
            assert(row_views(lines@) + Seq::<Seq<char>>::empty() =~= row_views(lines@));
        }
        Ok(lines)
    }

    /// The cells that the rows stand for, row by row, each at its
    /// coordinate, with its fodder and no animals.
    fn vec_to_map(map_vec: &Vec<&str>, width: usize) -> (cells: Vec<Cell>)
        requires
            map_vec.len() <= u32::MAX,
            width <= u32::MAX,
            forall|y: int|
                0 <= y < map_vec.len() ==> (#[trigger] map_vec@[y])@.len() == width && all_allowed(
                    map_vec@[y]@,
                ),
        ensures
            cells.len() == width * map_vec.len(),
            forall|i: int|
                0 <= i < cells.len() ==> is_new_cell(
                    #[trigger] cells@[i],
                    map_vec@[i / width as int]@[i % width as int],
                    ((i % width as int) as u32, (i / width as int) as u32),
                ),
    {
        let height = map_vec.len();
        let mut cells: Vec<Cell> = Vec::new();
        let mut y: usize = 0;
        while y < height
            invariant
                y <= height,
                height == map_vec.len(),
                height <= u32::MAX,
                width <= u32::MAX,
                cells.len() == width * y,
                forall|r: int|
                    0 <= r < map_vec.len() ==> (#[trigger] map_vec@[r])@.len() == width && all_allowed(
                        map_vec@[r]@,
                    ),
                forall|i: int|
                    0 <= i < cells.len() ==> is_new_cell(
                        #[trigger] cells@[i],
                        map_vec@[i / width as int]@[i % width as int],
                        ((i % width as int) as u32, (i / width as int) as u32),
                    ),
            decreases height - y,
        {
            let row = chars_of(map_vec[y]);
            let mut x: usize = 0;
            while x < width
                invariant
                    x <= width,
                    y < height,
                    height == map_vec.len(),
                    height <= u32::MAX,
                    width <= u32::MAX,
                    row@ == map_vec@[y as int]@,
                    row@.len() == width,
                    all_allowed(row@),
                    cells.len() == width * y + x,
                    forall|i: int|
                        0 <= i < cells.len() ==> is_new_cell(
                            #[trigger] cells@[i],
                            map_vec@[i / width as int]@[i % width as int],
                            ((i % width as int) as u32, (i / width as int) as u32),
                        ),
                decreases width - x,
            {
                let symbol = row[x];
                assert(allowed(row@[x as int]));
                let mut cell = from_char(symbol);
                cell.loc = (x as u32, y as u32);
                proof {
                    let i = cells.len() as int;
                    assert(i == y * width + x) by (nonlinear_arith)
                        requires
                            i == width * y + x,
                    ;
                    lemma_fundamental_div_mod_converse(i, width as int, y as int, x as int);
                }
                cells.push(cell);
                x = x + 1;
            }
            assert(width * y + width == width * (y + 1)) by (nonlinear_arith);
            y = y + 1;
        }
        cells
    }

    /// Reads a map and builds the island it describes: a cell for each
    /// symbol, with its fodder and no animals. A malformed map is rejected;
    /// a map without rows gives an island without cells. The map has no more
    /// than `u32::MAX` characters, so that every coordinate is a `u32`.
    pub fn build(raw_str: &'a str) -> (r: Result<Island<'a>, MapError>)
        requires
            raw_str@.len() <= u32::MAX,
        ensures
            match r {
                Ok(island) => {
                    &&& map_fault(raw_str@) is None
                    &&& island.wf()
                    &&& island.raw_str@ == raw_str@
                    &&& row_views(island.map_vec@) == rows(raw_str@)
                    &&& island.height == rows(raw_str@).len()
                    &&& island.width == if rows(raw_str@).len() > 0 {
                        rows(raw_str@)[0].len()
                    } else {
                        0
                    }
                    &&& forall|i: int|
                        0 <= i < island.map@.len() ==> is_new_cell(
                            #[trigger] island.map@[i],
                            rows(raw_str@)[i / island.width as int][i % island.width as int],
                            ((i % island.width as int) as u32, (i / island.width as int) as u32),
                        )
                },
                Err(e) => map_fault(raw_str@) == Some(e),
            },
    {
        let map_vec = match Island::raw_map_to_vec(raw_str) {
            Ok(lines) => lines,
            Err(e) => {
                return Err(e);
            },
        };
        let ghost table = rows(raw_str@);
        proof {
            lemma_rows_fit(raw_str@, 0);
            assert(row_views(map_vec@).len() == map_vec@.len());
            if table.len() > 0 {
                lemma_faultless(table, encode_utf8(table[0]).len());
                lemma_allowed_width(table[0]);
                assert forall|y: int| 0 <= y < map_vec.len() implies (#[trigger] map_vec@[y])@.len()
                    == table[0].len() && all_allowed(map_vec@[y]@) by {
                    assert(row_views(map_vec@)[y] == map_vec@[y]@);
                    lemma_allowed_width(table[y]);
                }
                assert(map_vec@[0]@ == row_views(map_vec@)[0]);
            }
        }
        let height = map_vec.len();
        let width = if height > 0 {
            map_vec[0].unicode_len()
        } else {
            0
        };
        let map = Island::vec_to_map(&map_vec, width);
        let island = Island { raw_str: raw_str.to_owned(), map_vec, height, width, map };
        proof {
            assert forall|i: int| 0 <= i < island.map@.len() implies is_new_cell(
                #[trigger] island.map@[i],
                table[i / width as int][i % width as int],
                ((i % width as int) as u32, (i / width as int) as u32),
            ) by {
                let y = i / width as int;
                let x = i % width as int;
                assert(0 <= y < height && 0 <= x < width) by (nonlinear_arith)
                    requires
                        0 <= i < width * height,
                        y == i / width as int,
                        x == i % width as int,
                        width > 0,
                ;
                assert(row_views(island.map_vec@)[y] == island.map_vec@[y]@);
            }
        }
        Ok(island)
    }

    /// The index of the cell at `loc`, if the grid has such a cell.
    pub fn index_of(&self, loc: (u32, u32)) -> (r: Option<usize>)
        ensures
            r is Some <==> loc.0 < self.width && loc.1 * self.width + loc.0 < self.map@.len(),
            r is Some ==> r == Some((loc.1 * self.width + loc.0) as usize),
    {
        if (loc.0 as u128) < self.width as u128 {
            assert(0 <= loc.1 * self.width <= 0xffff_ffff * 0xffff_ffff_ffff_ffff) by (nonlinear_arith)
                requires
                    0 <= loc.1 <= 0xffff_ffff,
                    0 <= self.width <= 0xffff_ffff_ffff_ffff,
            ;
            let index: u128 = (loc.1 as u128) * (self.width as u128) + (loc.0 as u128);
            if index < self.map.len() as u128 {
                Some(index as usize)
            } else {
                None
            }
        } else {
            None
        }
    }

    /// The numbers of herbivores and of carnivores on the island; a number
    /// above `usize::MAX` is given as `usize::MAX`.
    pub fn get_pop(&self) -> (pop: (usize, usize))
        ensures
            pop.0 == if census(herbivore_herds(self.map@), self.map@.len()) <= usize::MAX {
                census(herbivore_herds(self.map@), self.map@.len())
            } else {
                usize::MAX as nat
            },
            pop.1 == if census(carnivore_herds(self.map@), self.map@.len()) <= usize::MAX {
                census(carnivore_herds(self.map@), self.map@.len())
            } else {
                usize::MAX as nat
            },
    {
        let n = self.map.len();
        let mut herbs: usize = 0;
        let mut carns: usize = 0;
        let mut i: usize = 0;
        while i < n
            invariant
                i <= n,
                n == self.map@.len(),
                herbs == if census(herbivore_herds(self.map@), i as nat) <= usize::MAX {
                    census(herbivore_herds(self.map@), i as nat)
                } else {
                    usize::MAX as nat
                },
                carns == if census(carnivore_herds(self.map@), i as nat) <= usize::MAX {
                    census(carnivore_herds(self.map@), i as nat)
                } else {
                    usize::MAX as nat
                },
            decreases n - i,
        {
            match &self.map[i].fauna {
                Some(fauna) => {
                    herbs = herbs.saturating_add(fauna.herbivore.len());
                    carns = carns.saturating_add(fauna.carnivore.len());
                },
                None => {},
            }
            i = i + 1;
        }
        (herbs, carns)
    }

    /// The year of every cell, in the order of the cells, before the
    /// migration.
    fn year_in_every_cell(&mut self, herbivore_weights: &[i64], carnivore_weights: &[i64])
        ensures
            final(self).width == old(self).width,
            final(self).height == old(self).height,
            final(self).map_vec == old(self).map_vec,
            final(self).raw_str == old(self).raw_str,
            final(self).map@.len() == old(self).map@.len(),
            exists|chances: Seq<Chance>|
                {
                    &&& #[trigger] admit_all(
                        old(self).map@,
                        herbivore_weights@,
                        carnivore_weights@,
                        chances,
                    )
                    &&& herbivore_herds(final(self).map@) == herbivores_after_years(
                        old(self).map@,
                        herbivore_weights@,
                        chances,
                    )
                    &&& carnivore_herds(final(self).map@) == carnivores_after_years(
                        old(self).map@,
                        herbivore_weights@,
                        chances,
                    )
                },
            forall|i: int|
                0 <= i < final(self).map@.len() ==> {
                    let cell = #[trigger] final(self).map@[i];
                    &&& cell.ground() == old(self).map@[i].ground()
                    &&& cell.fodder == cell.fodder_max()
                    &&& old(self).map@[i].wf() ==> cell.wf()
                },
            all_well(herbivore_herds(final(self).map@)),
            all_well(carnivore_herds(final(self).map@)),
    {
        let n = self.map.len();
        let ghost start = self.map@;
        let ghost herds = herbivore_herds(start);
        let ghost packs = carnivore_herds(start);
        let ghost mut chances: Seq<Chance> = Seq::empty();
        let mut herbivore_from: usize = 0;
        let mut carnivore_from: usize = 0;
        let mut i: usize = 0;
        while i < n
            invariant
                i <= n,
                self.map@.len() == n,
                start == old(self).map@,
                start.len() == n,
                herds == herbivore_herds(start),
                packs == carnivore_herds(start),
                self.width == old(self).width,
                self.height == old(self).height,
                self.map_vec == old(self).map_vec,
                self.raw_str == old(self).raw_str,
                herbivore_from == if census(herds, i as nat) < herbivore_weights@.len() {
                    census(herds, i as nat)
                } else {
                    herbivore_weights@.len()
                },
                carnivore_from == if census(packs, i as nat) < carnivore_weights@.len() {
                    census(packs, i as nat)
                } else {
                    carnivore_weights@.len()
                },
                chances.len() == i,
                forall|j: int|
                    0 <= j < i ==> (#[trigger] start[j]).admits(
                        share(herbivore_weights@, herds, j),
                        share(carnivore_weights@, packs, j),
                        chances[j],
                    ),
                forall|j: int|
                    0 <= j < i ==> {
                        let cell = #[trigger] self.map@[j];
                        &&& cell.ground() == start[j].ground()
                        &&& cell.herbivores() == start[j].herbivores_after_year(
                            share(herbivore_weights@, herds, j),
                            chances[j],
                        )
                        &&& cell.carnivores() == start[j].carnivores_after_year(
                            share(herbivore_weights@, herds, j),
                            chances[j],
                        )
                        &&& cell.fodder == cell.fodder_max()
                        &&& all_alive(cell.herbivores())
                        &&& all_alive(cell.carnivores())
                        &&& all_current(cell.herbivores())
                        &&& all_current(cell.carnivores())
                        &&& start[j].wf() ==> cell.wf()
                    },
                forall|j: int| i <= j < n ==> #[trigger] self.map@[j] == start[j],
            decreases n - i,
        {
            let (herbivores, carnivores) = match &self.map[i].fauna {
                Some(fauna) => (fauna.herbivore.len(), fauna.carnivore.len()),
                None => (0, 0),
            };
            let herbivore_to = if herbivores <= herbivore_weights.len() - herbivore_from {
                herbivore_from + herbivores
            } else {
                herbivore_weights.len()
            };
            let carnivore_to = if carnivores <= carnivore_weights.len() - carnivore_from {
                carnivore_from + carnivores
            } else {
                carnivore_weights.len()
            };
            let herbivore_share = &herbivore_weights[herbivore_from..herbivore_to];
            let carnivore_share = &carnivore_weights[carnivore_from..carnivore_to];
            proof {
                assert(herds[i as int] == start[i as int].herbivores());
                assert(packs[i as int] == start[i as int].carnivores());
                assert(census(herds, (i + 1) as nat) == census(herds, i as nat) + herds[i as int].len());
                assert(census(packs, (i + 1) as nat) == census(packs, i as nat) + packs[i as int].len());
                assert(herbivore_share@ == share(herbivore_weights@, herds, i as int));
                assert(carnivore_share@ == share(carnivore_weights@, packs, i as int));
            }
            let ghost before = chances;
            self.map[i].year(herbivore_share, carnivore_share);
            proof {
                let cell = self.map@[i as int];
                let chance = choose|chance: Chance|
                    {
                        &&& #[trigger] start[i as int].admits(herbivore_share@, carnivore_share@, chance)
                        &&& cell.herbivores() == start[i as int].herbivores_after_year(
                            herbivore_share@,
                            chance,
                        )
                        &&& cell.carnivores() == start[i as int].carnivores_after_year(
                            herbivore_share@,
                            chance,
                        )
                    };
                chances = before.push(chance);
                assert forall|j: int| 0 <= j < i implies chances[j] == before[j] by {}
            }
            herbivore_from = herbivore_to;
            carnivore_from = carnivore_to;
            i = i + 1;
        }
        proof {
            assert(admit_all(start, herbivore_weights@, carnivore_weights@, chances));
            assert(herbivore_herds(self.map@) =~= herbivores_after_years(
                start,
                herbivore_weights@,
                chances,
            ));
            assert(carnivore_herds(self.map@) =~= carnivores_after_years(
                start,
                herbivore_weights@,
                chances,
            ));
            assert forall|c: int, l: int|
                0 <= c < herbivore_herds(self.map@).len() && 0 <= l < herbivore_herds(
                    self.map@,
                )[c].len() implies (#[trigger] herbivore_herds(self.map@)[c][l]).stats().alive
                && herbivore_herds(self.map@)[c][l].stats().current(
                    herbivore_herds(self.map@)[c][l].parameters(),
                ) by {
                assert(herbivore_herds(self.map@)[c] == self.map@[c].herbivores());
                assert(all_alive(self.map@[c].herbivores()));
            }
            assert forall|c: int, l: int|
                0 <= c < carnivore_herds(self.map@).len() && 0 <= l < carnivore_herds(
                    self.map@,
                )[c].len() implies (#[trigger] carnivore_herds(self.map@)[c][l]).stats().alive
                && carnivore_herds(self.map@)[c][l].stats().current(
                    carnivore_herds(self.map@)[c][l].parameters(),
                ) by {
                assert(carnivore_herds(self.map@)[c] == self.map@[c].carnivores());
                assert(all_alive(self.map@[c].carnivores()));
            }
        }
    }

    /// One year on the island: first the year of every cell, then the
    /// migration. The animals of a species bear newborns of the weights
    /// given for that species, in the order of the cells and of the animals
    /// in each cell: the `i`-th animal of the species, if it bears a
    /// newborn, one of the `i`-th weight. What the year leaves is what the
    /// rules make of some chance in every cell.
    pub fn yearly_cycle(&mut self, herbivore_weights: &[i64], carnivore_weights: &[i64])
        ensures
            final(self).width == old(self).width,
            final(self).height == old(self).height,
            final(self).map_vec == old(self).map_vec,
            final(self).raw_str == old(self).raw_str,
            final(self).map@.len() == old(self).map@.len(),
            exists|chances: Seq<Chance>|
                {
                    &&& #[trigger] admit_all(
                        old(self).map@,
                        herbivore_weights@,
                        carnivore_weights@,
                        chances,
                    )
                    &&& herbivore_herds(final(self).map@) == relocated(
                        herbivores_after_years(old(self).map@, herbivore_weights@, chances),
                        habitable(old(self).map@),
                        old(self).width as nat,
                    )
                    &&& carnivore_herds(final(self).map@) == relocated(
                        carnivores_after_years(old(self).map@, herbivore_weights@, chances),
                        habitable(old(self).map@),
                        old(self).width as nat,
                    )
                },
            forall|i: int|
                0 <= i < final(self).map@.len() ==> {
                    let cell = #[trigger] final(self).map@[i];
                    &&& cell.ground() == old(self).map@[i].ground()
                    &&& cell.fodder == cell.fodder_max()
                    &&& old(self).map@[i].wf() ==> cell.wf()
                },
            all_well(herbivore_herds(final(self).map@)),
            all_well(carnivore_herds(final(self).map@)),
            all_settled(herbivore_herds(final(self).map@)),
            all_settled(carnivore_herds(final(self).map@)),
            old(self).wf() ==> final(self).wf(),
    {
        self.year_in_every_cell(herbivore_weights, carnivore_weights);
        let ghost cells = self.map@;
        let ghost chances = choose|chances: Seq<Chance>|
            {
                &&& #[trigger] admit_all(old(self).map@, herbivore_weights@, carnivore_weights@, chances)
                &&& herbivore_herds(cells) == herbivores_after_years(
                    old(self).map@,
                    herbivore_weights@,
                    chances,
                )
                &&& carnivore_herds(cells) == carnivores_after_years(
                    old(self).map@,
                    herbivore_weights@,
                    chances,
                )
            };
        self.move_all_animals();
        proof {
            assert(habitable(cells) =~= habitable(old(self).map@));
            lemma_settled_well(herbivore_herds(self.map@), herbivore_herds(cells));
            lemma_settled_well(carnivore_herds(self.map@), carnivore_herds(cells));
        }
    }

    /// The rows of the map.
    pub fn map_vec(&self) -> (rows: &Vec<&'a str>)
        ensures
            rows == self.map_vec,
    {
        &self.map_vec
    }

    /// The cells, row by row.
    pub fn map(&self) -> (cells: &Vec<Cell>)
        ensures
            cells == self.map,
    {
        &self.map
    }

    /// The migration of the year: every animal whose destination is a cell
    /// of the grid that holds fauna moves there, behind the animals of its
    /// species; every other animal stays. The cells are gone through in
    /// their order and the animals of each cell from the last to the first.
    /// No animal is left with a destination, and none is added or lost.
    pub fn move_all_animals(&mut self)
        ensures
            herbivore_herds(final(self).map@) == relocated(
                herbivore_herds(old(self).map@),
                habitable(old(self).map@),
                old(self).width as nat,
            ),
            carnivore_herds(final(self).map@) == relocated(
                carnivore_herds(old(self).map@),
                habitable(old(self).map@),
                old(self).width as nat,
            ),
            same_grounds(final(self).map@, old(self).map@),
            all_settled(herbivore_herds(final(self).map@)),
            all_settled(carnivore_herds(final(self).map@)),
            all_from(herbivore_herds(final(self).map@), herbivore_herds(old(self).map@)),
            all_from(carnivore_herds(final(self).map@), carnivore_herds(old(self).map@)),
            census(herbivore_herds(final(self).map@), final(self).map@.len()) == census(
                herbivore_herds(old(self).map@),
                old(self).map@.len(),
            ),
            census(carnivore_herds(final(self).map@), final(self).map@.len()) == census(
                carnivore_herds(old(self).map@),
                old(self).map@.len(),
            ),
            final(self).width == old(self).width,
            final(self).height == old(self).height,
            final(self).map_vec == old(self).map_vec,
            final(self).raw_str == old(self).raw_str,
            old(self).wf() ==> final(self).wf(),
    {
        let open = habitable_cells(&self.map);
        let (mut herbs, mut carns) = take_herds(&mut self.map);
        relocate(&mut herbs, &open, self.width);
        relocate(&mut carns, &open, self.width);
        proof {
            let cells = old(self).map@;
            assert forall|i: int| 0 <= i < cells.len() && self.map@[i].fauna is None implies (
            #[trigger] herbs@[i]).len() == 0 && carns@[i].len() == 0 by {
                assert(self.map@[i].ground() == cells[i].ground());
                assert(!habitable(cells)[i]);
                lemma_no_arrivals(herbivore_herds(cells), habitable(cells), self.width as nat, i);
                lemma_no_arrivals(carnivore_herds(cells), habitable(cells), self.width as nat, i);
                assert(herd_views(herbs@)[i] == herbs@[i]@);
                assert(herd_views(carns@)[i] == carns@[i]@);
            }
        }
        put_herds(&mut self.map, herbs, carns);
    }
}

} // verus!
