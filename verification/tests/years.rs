use biosim_rust::animal::{Carnivore, Herbivore, Parameters};
use biosim_rust::cell::CellType;
use biosim_rust::island::Island;
use rand_distr::{Distribution, LogNormal};

/// The fixed-point number that stands for `x`.
fn fx(x: f64) -> i64 {
    (x * 1_000_000.0).round() as i64
}

/// Log-normal weights for the newborns of a species.
fn birth_weights(params: &Parameters, count: usize) -> Vec<i64> {
    let w_birth = params.w_birth as f64 / 1e6;
    let sigma_birth = params.sigma_birth as f64 / 1e6;
    let mu = f64::ln(w_birth.powi(2) / f64::sqrt(w_birth.powi(2) + sigma_birth.powi(2)));
    let sigma = f64::sqrt(f64::ln(1.0 + (sigma_birth.powi(2) / w_birth.powi(2))));
    let log_normal = LogNormal::new(mu, sigma).unwrap();
    let mut rng = rand::thread_rng();
    (0..count).map(|_| fx(log_normal.sample(&mut rng))).collect()
}

fn year(island: &mut Island) {
    let (herbs, carns) = island.get_pop();
    let herbivore_weights = birth_weights(&Parameters::herbivore(), herbs);
    let carnivore_weights = birth_weights(&Parameters::carnivore(), carns);
    island.yearly_cycle(&herbivore_weights, &carnivore_weights);
}

fn check_year_end(island: &Island) {
    for (i, cell) in island.map().iter().enumerate() {
        assert_eq!(cell.loc, ((i % island.width) as u32, (i / island.width) as u32));
        assert_eq!(cell.fodder, cell.f_max);
        match &cell.fauna {
            Some(fauna) => {
                assert_ne!(cell.get_cell(), CellType::Water);
                for herb in &fauna.herbivore {
                    assert!(herb.stats.alive);
                    assert_eq!(herb.stats.move_to, None);
                    assert!(0 <= herb.stats.fitness && herb.stats.fitness <= 1_000_000);
                    assert!(herb.stats.weight > 0);
                }
                for carn in &fauna.carnivore {
                    assert!(carn.stats.alive);
                    assert_eq!(carn.stats.move_to, None);
                    assert!(0 <= carn.stats.fitness && carn.stats.fitness <= 1_000_000);
                    assert!(carn.stats.weight > 0);
                }
            },
            None => assert_eq!(cell.get_cell(), CellType::Water),
        }
    }
}

#[test]
fn one_year_on_a_highland() {
    let mut island = Island::build("WHW").unwrap();
    island.map[1].add_animal_from("Herbivore".to_string(), 200).unwrap();
    assert_eq!(island.get_pop(), (200, 0));
    for herb in &island.map[1].fauna.as_ref().unwrap().herbivore {
        assert_eq!(herb.stats.age, 5);
        assert_eq!(herb.stats.weight, fx(20.0));
    }
    // the meal alone: 30 herbivores eat the 300 of the highland
    let mut meal = island.map[1].clone();
    meal.feed_animals();
    assert_eq!(meal.fodder, 0);
    let fed = meal.fauna.as_ref().unwrap().herbivore.iter().filter(|h| h.stats.weight == fx(29.0)).count();
    assert_eq!(fed, 30);

    year(&mut island);

    let fodder = island.map[1].fodder;
    assert!(fodder <= fx(300.0));
    assert!(fodder > 0);
    check_year_end(&island);
    let (herbs, carns) = island.get_pop();
    assert!(herbs <= 400);
    assert_eq!(carns, 0);
    // nowhere to go but water
    assert_eq!(island.map[0].fauna, None);
    assert_eq!(island.map[2].fauna, None);
    assert_eq!(island.map[1].fauna.as_ref().unwrap().herbivore.len(), herbs);
}

#[test]
fn a_hundred_years_of_herbivores() {
    let mut island = Island::build("WHW").unwrap();
    island.map[1].add_animal_from("Herbivore".to_string(), 200).unwrap();
    let mut before = 200;
    for _ in 0..100 {
        year(&mut island);
        check_year_end(&island);
        let (herbs, carns) = island.get_pop();
        // no more newborns than parents
        assert!(herbs <= 2 * before);
        assert_eq!(carns, 0);
        before = herbs;
    }
    // what 300 of fodder a year can raise
    assert!(before < 10_000);
}

#[test]
fn a_carnivore_among_herbivores() {
    let mut island = Island::build("L").unwrap();
    island.map[0].add_animal_from("Herbivore".to_string(), 80).unwrap();
    island.map[0].add_animal_from("Carnivore".to_string(), 1).unwrap();
    assert_eq!(island.get_pop(), (80, 1));
    let mut years = 0;
    while island.get_pop().0 >= 80 && years < 200 {
        year(&mut island);
        check_year_end(&island);
        years += 1;
    }
    assert!(island.get_pop().0 < 80);
}

#[test]
fn herbivores_spread_over_the_island() {
    let mut island = Island::build("WWWWW\nWLLLW\nWLLLW\nWLLLW\nWWWWW").unwrap();
    let middle = island.index_of((2, 2)).unwrap();
    island.map[middle].add_animal_from("Herbivore".to_string(), 150).unwrap();
    island.map[middle].add_animal_from("Carnivore".to_string(), 20).unwrap();
    let mut spread = false;
    for _ in 0..30 {
        year(&mut island);
        check_year_end(&island);
        let elsewhere: usize = island
            .map()
            .iter()
            .enumerate()
            .filter(|(i, _)| *i != middle)
            .map(|(_, cell)| cell.fauna.as_ref().map_or(0, |f| f.herbivore.len() + f.carnivore.len()))
            .sum();
        spread = spread || elsewhere > 0;
    }
    assert!(spread);
    for cell in island.map() {
        if cell.get_cell() == CellType::Water {
            assert_eq!(cell.fauna, None);
        }
    }
    let _ = (Herbivore::new(), Carnivore::new());
}
