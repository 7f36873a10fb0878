use biosim_rust::animal::{AnimalTrait, Carnivore, Herbivore, Stats};
use biosim_rust::cell::{desert, from_char, highland, lowland, water, Cell, CellType, Fauna, StockError};

/// The fixed-point number that stands for `x`.
fn fx(x: f64) -> i64 {
    (x * 1_000_000.0).round() as i64
}

fn ten_herbivores() -> Vec<Herbivore> {
    let herb1 = Herbivore::new();
    let herb2 = Herbivore::new();
    let herb3 = Herbivore::new();
    let herb4 = Herbivore::new();
    let herb5 = Herbivore::new();
    let herb6 = Herbivore::new();
    let herb7 = Herbivore::new();
    let herb8 = Herbivore::new();
    let herb9 = Herbivore::new();
    let herb10 = Herbivore::new();

    vec![
        herb1, herb2, herb3, herb4, herb5, herb6, herb7, herb8, herb9, herb10,
    ]
}

fn ten_carnivores() -> Vec<Carnivore> {
    let carn1 = Carnivore::new();
    let carn2 = Carnivore::new();
    let carn3 = Carnivore::new();
    let carn4 = Carnivore::new();
    let carn5 = Carnivore::new();
    let carn6 = Carnivore::new();
    let carn7 = Carnivore::new();
    let carn8 = Carnivore::new();
    let carn9 = Carnivore::new();
    let carn10 = Carnivore::new();

    vec![
        carn1, carn2, carn3, carn4, carn5, carn6, carn7, carn8, carn9, carn10,
    ]
}

#[test]
fn test_herb_struct() {
    let mut cell = lowland((1, 1));
    cell.add_carn_struct(Carnivore::new());
    cell.add_carn_struct(Carnivore::new());
    cell.add_herb_struct(Herbivore::new());

    println!("{:#?}", cell.fauna);

    assert_eq!(cell.fauna.as_ref().unwrap().herbivore.len(), 1);
    assert_eq!(cell.fauna.as_ref().unwrap().carnivore.len(), 2);
}

#[test]
fn test_water() {
    let cell = water((1, 1));
    assert_eq!(cell.get_cell(), CellType::Water);
}

#[test]
fn test_desert() {
    let cell = desert((1, 1));
    assert_eq!(cell.get_cell(), CellType::Desert);
}

#[test]
fn test_lowland() {
    let cell = lowland((1, 1));
    assert_eq!(cell.get_cell(), CellType::Lowland);
}

#[test]
fn test_highland() {
    let cell = highland((1, 1));
    assert_eq!(cell.get_cell(), CellType::Highland);
}

#[test]
fn test_from_char() {
    let cell = from_char('W');
    assert_eq!(cell.get_cell(), CellType::Water);
}

// test sort_herbivore_after_fitness
#[test]
fn test_sort_herbivore_after_fitness() {
    let mut cell = lowland((1, 1));
    let mut herb_vec = ten_herbivores();

    for (i, herb) in herb_vec.iter_mut().enumerate() {
        herb.stats.fitness = fx(i as f64);
    }

    cell.fauna.as_mut().unwrap().herbivore = herb_vec;

    println!("{:#?}", cell.fauna.as_ref().unwrap().herbivore);

    cell.sort_herbivore_after_fitness(true);

    println!("--------------------------------------------------------");
    println!("{:#?}", cell.fauna.as_ref().unwrap().herbivore);

    let sorted_herb = &cell.fauna.as_ref().unwrap().herbivore;

    for i in 0..sorted_herb.len() - 1 {
        assert!(
            sorted_herb[i].stats.fitness >= sorted_herb[i + 1].stats.fitness,
            "List not sorted in descending order"
        );
    }
}

// test feed herbivores
#[test]
fn test_feed_herbivores() {
    let mut cell = lowland((1, 1));

    cell.fauna.as_mut().unwrap().herbivore = ten_herbivores();

    cell.feed_animals();

    assert_ne!(cell.fodder, fx(800.0));
}

// test feed carnivores
#[test]
fn test_feed_carnivores() {
    // A kill is a matter of chance: the meal is served until a herbivore has
    // died, which each time has a chance of about three in four.
    let mut died = false;
    let mut meals = 0;
    while !died && meals < 1000 {
        let mut cell = lowland((1, 1));

        cell.fauna.as_mut().unwrap().herbivore = ten_herbivores();
        cell.fauna.as_mut().unwrap().carnivore = ten_carnivores();

        cell.feed_animals();

        println!(
            "len of hebivores: {:#?}",
            cell.fauna.as_ref().unwrap().herbivore.len()
        );

        println!("{:#?}", cell.fauna.as_ref().unwrap().carnivore);

        let alive = cell.fauna.as_ref().unwrap().herbivore.iter().filter(|h| h.stats.alive).count();
        died = alive < 10;
        meals += 1;
    }

    assert!(died, "No herb died");
}

// test reset fodder
#[test]
fn test_reset_fodder() {
    let mut cell = lowland((1, 1));
    cell.fodder = fx(0.0);
    cell.reset_fodder();

    assert_eq!(cell.fodder, fx(800.0));
}

#[test]
fn cells_by_terrain() {
    let w = water((3, 4));
    assert_eq!(w.loc, (3, 4));
    assert_eq!(w.fauna, None);
    assert_eq!(w.fodder, 0);
    assert_eq!(w.f_max, 0);
    let d = desert((0, 9));
    assert_eq!(d.loc, (0, 9));
    assert_eq!(d.fauna, Some(Fauna::new()));
    assert_eq!(d.fodder, 0);
    let l = lowland((7, 7));
    assert_eq!(l.loc, (7, 7));
    assert_eq!(l.fauna, Some(Fauna::new()));
    assert_eq!(l.fodder, fx(800.0));
    assert_eq!(l.f_max, fx(800.0));
    let h = highland((2, 1));
    assert_eq!(h.loc, (2, 1));
    assert_eq!(h.fauna, Some(Fauna::new()));
    assert_eq!(h.fodder, fx(300.0));
    assert_eq!(h.f_max, fx(300.0));
    assert_eq!(from_char('W'), water((0, 0)));
    assert_eq!(from_char('D'), desert((0, 0)));
    assert_eq!(from_char('L'), lowland((0, 0)));
    assert_eq!(from_char('H'), highland((0, 0)));
    assert_eq!(h.clone(), h);
}

#[test]
fn stocking_by_name() {
    let mut cell = lowland((1, 1));
    assert_eq!(cell.add_animal_from("Herbivore".to_string(), 3), Ok(()));
    assert_eq!(cell.add_animal_from("Carnivore".to_string(), 2), Ok(()));
    assert_eq!(cell.add_animal_from("Herbivore".to_string(), 0), Ok(()));
    let fauna = cell.fauna.as_ref().unwrap();
    assert_eq!(fauna.herbivore, vec![Herbivore::new(); 3]);
    assert_eq!(fauna.carnivore, vec![Carnivore::new(); 2]);
}

#[test]
fn stocking_rejects_other_names() {
    let mut cell = highland((1, 1));
    cell.add_herb_struct(Herbivore::new());
    let before = cell.clone();
    assert_eq!(cell.add_animal_from("Omnivore".to_string(), 5), Err(StockError::WrongSpecies));
    assert_eq!(cell.add_animal_from("herbivore".to_string(), 5), Err(StockError::WrongSpecies));
    assert_eq!(cell.add_animal_from("".to_string(), 5), Err(StockError::WrongSpecies));
    assert_eq!(cell, before);
}

#[test]
fn sorting_is_stable() {
    let mut cell = lowland((0, 0));
    let fitnesses = [5, 3, 5, 1, 3, 5];
    for (i, f) in fitnesses.iter().enumerate() {
        let mut herb = Herbivore::new();
        herb.stats.fitness = *f;
        herb.stats.age = i as u32;
        cell.add_herb_struct(herb);
    }
    cell.sort_herbivore_after_fitness(false);
    let order: Vec<(i64, u32)> =
        cell.fauna.as_ref().unwrap().herbivore.iter().map(|h| (h.stats.fitness, h.stats.age)).collect();
    assert_eq!(order, vec![(1, 3), (3, 1), (3, 4), (5, 0), (5, 2), (5, 5)]);
    cell.sort_herbivore_after_fitness(true);
    let order: Vec<(i64, u32)> =
        cell.fauna.as_ref().unwrap().herbivore.iter().map(|h| (h.stats.fitness, h.stats.age)).collect();
    assert_eq!(order, vec![(5, 0), (5, 2), (5, 5), (3, 1), (3, 4), (1, 3)]);
}

#[test]
fn the_weakest_graze_first() {
    let mut cell = highland((0, 0));
    cell.fodder = fx(25.0);
    // fitter with more weight
    for weight in [40.0, 10.0, 30.0, 20.0] {
        cell.add_herb_struct(Herbivore::from(Stats::from(5, fx(weight))));
    }
    cell.feed_animals();
    let weights: Vec<i64> = cell.fauna.as_ref().unwrap().herbivore.iter().map(|h| h.stats.weight).collect();
    // 10 eats 10, 20 eats 10, 30 eats the last 5, 40 eats nothing
    assert_eq!(weights, vec![fx(19.0), fx(29.0), fx(34.5), fx(40.0)]);
    assert_eq!(cell.fodder, 0);
    for herb in &cell.fauna.as_ref().unwrap().herbivore {
        assert_eq!(herb.stats.fitness, herb.calc_fitness());
    }
}

#[test]
fn grazing_takes_the_fodder() {
    let mut cell = lowland((0, 0));
    cell.fauna.as_mut().unwrap().herbivore = ten_herbivores();
    cell.feed_animals();
    assert_eq!(cell.fodder, fx(700.0));
    for herb in &cell.fauna.as_ref().unwrap().herbivore {
        assert_eq!(herb.stats.weight, fx(29.0));
    }
    let mut empty = lowland((0, 0));
    empty.feed_animals();
    assert_eq!(empty.fodder, fx(800.0));
    let mut sea = water((0, 0));
    sea.feed_animals();
    assert_eq!(sea, water((0, 0)));
}

#[test]
fn carnivores_hunt_in_a_random_order() {
    // each carnivore is known by its age; no herbivores, so nothing else changes
    let mut changed = false;
    let mut tries = 0;
    while !changed && tries < 100 {
        let mut cell = desert((0, 0));
        for age in 0..30 {
            cell.add_carn_struct(Carnivore::from(Stats::from(age, fx(20.0))));
        }
        let before = cell.fauna.as_ref().unwrap().carnivore.clone();
        cell.feed_animals();
        let after = cell.fauna.as_ref().unwrap().carnivore.clone();
        let mut sorted = after.clone();
        sorted.sort_by_key(|c| c.stats.age);
        assert_eq!(sorted, before);
        changed = after != before;
        tries += 1;
    }
    assert!(changed);
}

#[test]
fn the_killed_stay_until_the_deaths() {
    let mut cell = lowland((0, 0));
    for _ in 0..4 {
        // too light to be fit, too old to flee
        cell.add_herb_struct(Herbivore::from(Stats::from(90, fx(1.0))));
    }
    let mut carn = Carnivore::new();
    carn.stats.fitness = fx(11.0);
    cell.add_carn_struct(carn);
    cell.feed_animals();
    let fauna = cell.fauna.as_ref().unwrap();
    assert_eq!(fauna.herbivore.len(), 4);
    // the first falls for sure; then the carnivore's fitness is its own again
    assert!(!fauna.herbivore[0].stats.alive);
    cell.animal_death();
    let fauna = cell.fauna.as_ref().unwrap();
    assert!(fauna.herbivore.len() < 4);
    assert!(fauna.herbivore.iter().all(|h| h.stats.alive));
    assert!(fauna.carnivore.iter().all(|c| c.stats.alive));
}

#[test]
fn no_dead_animal_is_left_after_the_deaths() {
    let mut cell = lowland((0, 0));
    for i in 0..50 {
        let mut herb = Herbivore::from(Stats::from(5, fx((i % 3) as f64 * 10.0)));
        herb.stats.alive = i % 5 != 0;
        cell.add_herb_struct(herb);
        let mut carn = Carnivore::from(Stats::from(5, fx((i % 2) as f64 * 10.0)));
        carn.stats.alive = i % 7 != 0;
        cell.add_carn_struct(carn);
    }
    cell.animal_death();
    let fauna = cell.fauna.as_ref().unwrap();
    assert!(fauna.herbivore.iter().all(|h| h.stats.alive && h.stats.weight > 0));
    assert!(fauna.carnivore.iter().all(|c| c.stats.alive && c.stats.weight > 0));
    assert!(fauna.herbivore.len() <= 27);
    assert!(fauna.carnivore.len() <= 21);
}

#[test]
fn the_weightless_die() {
    let mut cell = desert((0, 0));
    for _ in 0..10 {
        cell.add_herb_struct(Herbivore::from(Stats::from(5, 0)));
        cell.add_carn_struct(Carnivore::from(Stats::from(5, -1)));
    }
    cell.animal_death();
    assert_eq!(cell.fauna, Some(Fauna::new()));
}

#[test]
fn the_fit_mostly_live() {
    let mut cell = desert((0, 0));
    for _ in 0..200 {
        let mut herb = Herbivore::new();
        herb.stats.fitness = fx(1.0);
        cell.add_herb_struct(herb);
    }
    cell.animal_death();
    assert_eq!(cell.fauna.as_ref().unwrap().herbivore.len(), 200);
}

#[test]
fn ageing_and_metabolism_reach_every_animal() {
    let mut cell = lowland((0, 0));
    cell.add_herb_struct(Herbivore::from(Stats::from(1, fx(10.0))));
    cell.add_herb_struct(Herbivore::from(Stats::from(2, fx(20.0))));
    cell.add_carn_struct(Carnivore::from(Stats::from(3, fx(8.0))));
    cell.age_animals();
    cell.loss_of_weight();
    let fauna = cell.fauna.as_ref().unwrap();
    assert_eq!(fauna.herbivore[0], Herbivore::from(Stats::from(2, fx(9.5))));
    assert_eq!(fauna.herbivore[1], Herbivore::from(Stats::from(3, fx(19.0))));
    assert_eq!(fauna.carnivore[0], Carnivore::from(Stats::from(4, fx(7.0))));
    let mut sea = water((0, 0));
    sea.age_animals();
    sea.loss_of_weight();
    sea.animal_death();
    sea.get_moving_animals();
    sea.add_newborns(&[fx(8.0)], &[fx(6.0)]);
    assert_eq!(sea, water((0, 0)));
}

#[test]
fn fodder_reset_twice() {
    let mut cell = highland((0, 0));
    cell.fodder = fx(12.5);
    cell.reset_fodder();
    assert_eq!(cell.fodder, fx(300.0));
    let once = cell.clone();
    cell.reset_fodder();
    assert_eq!(cell.fodder, fx(300.0));
    assert_eq!(cell, once);
    let mut sand = desert((0, 0));
    sand.reset_fodder();
    sand.reset_fodder();
    assert_eq!(sand.fodder, 0);
}

#[test]
fn neighbours_in_all_directions() {
    let cell = lowland((5, 9));
    let mut seen = Vec::new();
    for _ in 0..400 {
        let n = cell.get_random_neighboring_cell().unwrap();
        assert!(n == (5, 10) || n == (6, 9) || n == (5, 8) || n == (4, 9));
        if !seen.contains(&n) {
            seen.push(n);
        }
    }
    assert_eq!(seen.len(), 4);
    let corner = lowland((0, 0));
    let mut none = 0;
    for _ in 0..400 {
        match corner.get_random_neighboring_cell() {
            Some(n) => assert!(n == (0, 1) || n == (1, 0)),
            None => none += 1,
        }
    }
    assert!(none > 0);
}

#[test]
fn newborns_join_their_species() {
    let mut cell = lowland((0, 0));
    for _ in 0..60 {
        cell.add_herb_struct(Herbivore::from(Stats::from(5, fx(60.0))));
    }
    for _ in 0..10 {
        cell.add_carn_struct(Carnivore::from(Stats::from(5, fx(10.0))));
    }
    // 0.2 * fitness * 60 is beyond 1: every herbivore with a weight for its newborn bears it
    let weights: Vec<i64> = (0..40).map(|i| fx(5.0) + i).collect();
    cell.add_newborns(&weights, &[fx(6.0); 10]);
    let fauna = cell.fauna.as_ref().unwrap();
    assert_eq!(fauna.herbivore.len(), 100);
    assert_eq!(fauna.carnivore.len(), 10);
    for i in 0..40 {
        assert_eq!(fauna.herbivore[i].stats.weight, fx(60.0) - (fx(5.0) + i as i64) * 12 / 10);
        assert_eq!(fauna.herbivore[60 + i], Herbivore::from(Stats::from(0, fx(5.0) + i as i64)));
    }
    for i in 40..60 {
        assert_eq!(fauna.herbivore[i], Herbivore::from(Stats::from(5, fx(60.0))));
    }
}

#[test]
fn only_the_living_decide_to_migrate() {
    let mut cell = lowland((3, 3));
    for i in 0..300 {
        let mut herb = Herbivore::new();
        herb.stats.fitness = fx(4.0);
        herb.stats.alive = i % 2 == 0;
        cell.add_herb_struct(herb);
        let mut carn = Carnivore::new();
        carn.stats.fitness = 0;
        cell.add_carn_struct(carn);
    }
    cell.get_moving_animals();
    let fauna = cell.fauna.as_ref().unwrap();
    let mut seen = Vec::new();
    for herb in &fauna.herbivore {
        if herb.stats.alive {
            let to = herb.stats.move_to.unwrap();
            assert!(to == (3, 4) || to == (4, 3) || to == (3, 2) || to == (2, 3));
            if !seen.contains(&to) {
                seen.push(to);
            }
        } else {
            assert_eq!(herb.stats.move_to, None);
        }
    }
    assert_eq!(seen.len(), 4);
    for carn in &fauna.carnivore {
        assert_eq!(carn.stats.move_to, None);
    }
}

#[test]
fn a_year_in_a_cell() {
    let mut cell: Cell = highland((1, 0));
    for _ in 0..50 {
        cell.add_herb_struct(Herbivore::new());
    }
    cell.add_carn_struct(Carnivore::new());
    cell.year(&[fx(8.0); 50], &[fx(6.0)]);
    let fauna = cell.fauna.as_ref().unwrap();
    assert_eq!(cell.fodder, fx(300.0));
    assert_eq!(cell.loc, (1, 0));
    assert_eq!(cell.get_cell(), CellType::Highland);
    assert!(fauna.herbivore.len() <= 50);
    for herb in &fauna.herbivore {
        assert!(herb.stats.alive);
        assert_eq!(herb.stats.age, 6);
        assert_eq!(herb.stats.fitness, herb.calc_fitness());
    }
    for carn in &fauna.carnivore {
        assert!(carn.stats.alive);
        assert_eq!(carn.stats.fitness, carn.calc_fitness());
    }
}
