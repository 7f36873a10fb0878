use biosim_rust::animal::{unit_draws, AnimalTrait, Carnivore, Herbivore, Stats};
use biosim_rust::feeding::{graze, hunt_all, sort_by_fitness};
use biosim_rust::fixed::{floor_div, saturate, scale, ONE};
use biosim_rust::mapping::{
    chars_of, find_line_end, find_text_end, find_text_start, is_allowed, is_space_char, span_allowed, Parameters,
};
use biosim_rust::migration::relocate;
use biosim_rust::population::{
    age_all, breed, breed_with_draws, cull, cull_with_draws, neighbour_at, plan, plan_with_draws, random_steps,
    waste_all,
};

/// The fixed-point number that stands for `x`.
fn fx(x: f64) -> i64 {
    (x * 1_000_000.0).round() as i64
}

#[test]
fn rounding_down() {
    assert_eq!(floor_div(7, 2), 3);
    assert_eq!(floor_div(-7, 2), -4);
    assert_eq!(floor_div(-8, 2), -4);
    assert_eq!(floor_div(-1, 1_000_000), -1);
    assert_eq!(floor_div(0, 5), 0);
    assert_eq!(floor_div(i128::MIN, 1), i128::MIN);
    assert_eq!(floor_div(i128::MIN, i128::MAX), -2);
    assert_eq!(floor_div(i128::MAX, i128::MAX), 1);
    assert_eq!(scale(fx(1.5), fx(2.5)), fx(3.75) as i128);
    assert_eq!(scale(fx(-1.5), fx(2.5)), fx(-3.75) as i128);
    assert_eq!(scale(1, 1), 0);
    assert_eq!(scale(-1, 1), -1);
    assert_eq!(scale(i64::MIN, i64::MIN), (1i128 << 126) / 1_000_000);
    assert_eq!(ONE, 1_000_000);
}

#[test]
fn rounding_to_the_nearest() {
    assert_eq!(saturate(0), 0);
    assert_eq!(saturate(-5), -5);
    assert_eq!(saturate(i64::MAX as i128), i64::MAX);
    assert_eq!(saturate(i64::MAX as i128 + 1), i64::MAX);
    assert_eq!(saturate(i64::MIN as i128 - 1), i64::MIN);
    assert_eq!(saturate(i128::MAX), i64::MAX);
    assert_eq!(saturate(i128::MIN), i64::MIN);
}

#[test]
fn draws_lie_in_the_unit_interval() {
    let draws = unit_draws(2000);
    assert_eq!(draws.len(), 2000);
    assert!(draws.iter().all(|d| 0 <= *d && *d < ONE));
    // not all the same, and spread over the interval
    assert!(draws.iter().any(|d| *d < ONE / 4));
    assert!(draws.iter().any(|d| *d >= 3 * (ONE / 4)));
    assert_eq!(unit_draws(0), Vec::<i64>::new());
}

#[test]
fn steps_are_orthogonal() {
    let steps = random_steps(400);
    assert_eq!(steps.len(), 400);
    for step in [(0, 1), (1, 0), (0, -1), (-1, 0)] {
        assert!(steps.contains(&step));
    }
    assert!(steps.iter().all(|s| [(0, 1), (1, 0), (0, -1), (-1, 0)].contains(s)));
}

#[test]
fn neighbours() {
    assert_eq!(neighbour_at((3, 4), (0, 1)), Some((3, 5)));
    assert_eq!(neighbour_at((3, 4), (1, 0)), Some((4, 4)));
    assert_eq!(neighbour_at((3, 4), (0, -1)), Some((3, 3)));
    assert_eq!(neighbour_at((3, 4), (-1, 0)), Some((2, 4)));
    assert_eq!(neighbour_at((0, 4), (-1, 0)), None);
    assert_eq!(neighbour_at((3, 0), (0, -1)), None);
    assert_eq!(neighbour_at((u32::MAX, 0), (1, 0)), None);
    assert_eq!(neighbour_at((0, u32::MAX), (0, 1)), None);
    assert_eq!(neighbour_at((u32::MAX, u32::MAX), (-1, 0)), Some((u32::MAX - 1, u32::MAX)));
}

#[test]
fn every_animal_ages_and_wastes() {
    let mut herbs = vec![Herbivore::from(Stats::from(0, fx(8.0))), Herbivore::from(Stats::from(7, fx(40.0)))];
    age_all(&mut herbs);
    assert_eq!(herbs, vec![Herbivore::from(Stats::from(1, fx(8.0))), Herbivore::from(Stats::from(8, fx(40.0)))]);
    waste_all(&mut herbs);
    assert_eq!(herbs, vec![Herbivore::from(Stats::from(1, fx(7.6))), Herbivore::from(Stats::from(8, fx(38.0)))]);
    let mut none: Vec<Carnivore> = Vec::new();
    age_all(&mut none);
    waste_all(&mut none);
    assert!(none.is_empty());
}

#[test]
fn the_dead_are_removed_in_order() {
    let mut carns = Vec::new();
    for age in 0..6 {
        let mut carn = Carnivore::from(Stats::from(age, fx(20.0)));
        // the chance of dying is 0.8 * (1 - 0.5) = 0.4
        carn.stats.fitness = fx(0.5);
        carns.push(carn);
    }
    carns[4].stats.alive = false;
    carns[5].stats.weight = 0;
    cull_with_draws(&mut carns, &vec![400_000, 399_999, 0, 999_999, 999_999, 999_999]);
    let ages: Vec<u32> = carns.iter().map(|c| c.stats.age).collect();
    assert_eq!(ages, vec![0, 3]);
    assert!(carns.iter().all(|c| c.stats.alive));
    let mut herbs = vec![Herbivore::from(Stats::from(5, 0)); 20];
    cull(&mut herbs);
    assert!(herbs.is_empty());
}

#[test]
fn migration_decisions_on_draws() {
    let mut herbs = vec![Herbivore::new(); 5];
    herbs[3].stats.alive = false;
    herbs[4].stats.move_to = Some((9, 9));
    // the chance is 0.25 * 0.731059 = 0.182764
    let draws = vec![182_763, 182_764, 0, 0, 999_999];
    let steps = vec![(0, 1), (1, 0), (-1, 0), (0, -1), (1, 0)];
    plan_with_draws(&mut herbs, (0, 2), &draws, &steps);
    let targets: Vec<Option<(u32, u32)>> = herbs.iter().map(|h| h.stats.move_to).collect();
    assert_eq!(targets, vec![Some((0, 3)), None, None, None, Some((9, 9))]);
    let mut herbs = vec![Herbivore::new(); 5];
    herbs[0].stats.fitness = 0;
    plan(&mut herbs, (7, 7));
    assert_eq!(herbs.len(), 5);
    assert_eq!(herbs[0].stats.move_to, None);
}

#[test]
fn births_on_draws() {
    let mut herbs = vec![Herbivore::from(Stats::from(5, fx(50.0))); 4];
    herbs[2] = Herbivore::from(Stats::from(5, fx(42.0)));
    // the chance is 0.2 * fitness * 4
    let chance = 200_000 * herbs[0].stats.fitness * 4 / 1_000_000;
    assert!(chance < ONE);
    let draws = vec![chance, chance + 1, 0, 0];
    breed_with_draws(&mut herbs, &draws, &[fx(7.0), fx(8.0), fx(9.0)]);
    // the first bears, the second draws too high, the third is too light, the fourth has no weight given
    assert_eq!(herbs.len(), 5);
    assert_eq!(herbs[0], Herbivore::from(Stats::from(5, fx(50.0 - 8.4))));
    assert_eq!(herbs[1], Herbivore::from(Stats::from(5, fx(50.0))));
    assert_eq!(herbs[2], Herbivore::from(Stats::from(5, fx(42.0))));
    assert_eq!(herbs[3], Herbivore::from(Stats::from(5, fx(50.0))));
    assert_eq!(herbs[4], Herbivore::from(Stats::from(0, fx(7.0))));
    assert_eq!(Herbivore::newborn(fx(7.0)), herbs[4]);
    assert_eq!(Carnivore::newborn(fx(6.0)), Carnivore::from(Stats::from(0, fx(6.0))));

    let mut carns = vec![Carnivore::from(Stats::from(5, fx(30.0))); 40];
    breed(&mut carns, &[fx(6.0); 40]);
    // 0.8 * fitness * 40 is beyond 1
    assert_eq!(carns.len(), 80);
    let mut carns = vec![Carnivore::from(Stats::from(5, fx(30.0))); 40];
    breed(&mut carns, &[]);
    assert_eq!(carns.len(), 40);
}

#[test]
fn sorting_by_fitness() {
    let mut herbs = Vec::new();
    for (age, fitness) in [7, 2, 9, 2, 0, 7, 7].iter().enumerate() {
        let mut herb = Herbivore::new();
        herb.stats.age = age as u32;
        herb.stats.fitness = *fitness;
        herbs.push(herb);
    }
    sort_by_fitness(&mut herbs, false);
    let ages: Vec<u32> = herbs.iter().map(|h| h.stats.age).collect();
    assert_eq!(ages, vec![4, 1, 3, 0, 5, 6, 2]);
    sort_by_fitness(&mut herbs, true);
    let ages: Vec<u32> = herbs.iter().map(|h| h.stats.age).collect();
    assert_eq!(ages, vec![2, 0, 5, 6, 1, 3, 4]);
    let mut none: Vec<Herbivore> = Vec::new();
    sort_by_fitness(&mut none, false);
    assert!(none.is_empty());
}

#[test]
fn grazing_in_order() {
    let mut herbs = vec![Herbivore::new(); 4];
    assert_eq!(graze(&mut herbs, fx(25.0)), 0);
    let weights: Vec<i64> = herbs.iter().map(|h| h.stats.weight).collect();
    assert_eq!(weights, vec![fx(29.0), fx(29.0), fx(24.5), fx(20.0)]);
    let mut herbs = vec![Herbivore::new(); 4];
    assert_eq!(graze(&mut herbs, fx(100.0)), fx(60.0));
    assert!(herbs.iter().all(|h| h.stats.weight == fx(29.0)));
    let mut herbs = vec![Herbivore::new(); 4];
    assert_eq!(graze(&mut herbs, 0), 0);
    assert_eq!(herbs, vec![Herbivore::new(); 4]);
    assert_eq!(graze(&mut Vec::new(), fx(3.0)), fx(3.0));
}

#[test]
fn every_carnivore_hunts() {
    let mut carns = Vec::new();
    for _ in 0..3 {
        let mut carn = Carnivore::new();
        carn.stats.fitness = fx(11.0);
        carns.push(carn);
    }
    let mut herbs = Vec::new();
    for _ in 0..3 {
        let mut herb = Herbivore::from(Stats::from(5, fx(60.0)));
        herb.stats.fitness = fx(0.5);
        herbs.push(herb);
    }
    hunt_all(&mut carns, &mut herbs);
    // each kills the first that lives for sure, and eats 50 of it
    assert_eq!(herbs.len(), 3);
    assert!(herbs.iter().all(|h| !h.stats.alive));
    assert!(carns.iter().all(|c| c.stats.weight >= fx(57.5)));
    assert!(carns.iter().all(|c| c.stats.fitness == c.calc_fitness()));
}

fn traveller(age: u32, to: Option<(u32, u32)>) -> Carnivore {
    let mut carn = Carnivore::from(Stats::from(age, fx(20.0)));
    carn.stats.move_to = to;
    carn
}

#[test]
fn relocation() {
    // width 2: the cells (0, 0), (1, 0), (0, 1), (1, 1); the last holds no fauna
    let mut herds = vec![
        vec![traveller(0, Some((1, 0))), traveller(1, Some((1, 1))), traveller(2, Some((0, 1)))],
        vec![traveller(3, Some((0, 1))), traveller(4, None), traveller(5, Some((0, 0)))],
        vec![traveller(6, Some((2, 0))), traveller(7, Some((0, 2))), traveller(8, Some((0, 1)))],
        Vec::new(),
    ];
    let open = vec![true, true, true, false];
    relocate(&mut herds, &open, 2);
    let ages: Vec<Vec<u32>> = herds.iter().map(|h| h.iter().map(|c| c.stats.age).collect()).collect();
    assert_eq!(ages, vec![vec![1, 5], vec![4, 0], vec![6, 7, 2, 3, 8], vec![]]);
    assert!(herds.iter().all(|h| h.iter().all(|c| c.stats.move_to == None)));
    assert!(herds.iter().all(|h| h.iter().all(|c| c.stats.weight == fx(20.0) && c.stats.alive)));
}

#[test]
fn characters() {
    assert_eq!(chars_of("WH\u{e9}\n"), vec!['W', 'H', '\u{e9}', '\n']);
    assert_eq!(chars_of(""), Vec::<char>::new());
    for c in ['W', 'H', 'L', 'D'] {
        assert!(is_allowed(c));
    }
    for c in ['w', 'E', ' ', '\n', '\u{e9}'] {
        assert!(!is_allowed(c));
    }
    assert_eq!(Parameters::island().allowed_cells, ['W', 'H', 'L', 'D']);
    for code in 0..0x11000u32 {
        if let Some(c) = char::from_u32(code) {
            assert_eq!(is_space_char(c), c.is_whitespace(), "{code:x}");
        }
    }
}

#[test]
fn lines_and_their_text() {
    let text = chars_of("  WH \n\nLD");
    assert_eq!(find_line_end(&text, 0), 5);
    assert_eq!(find_line_end(&text, 5), 5);
    assert_eq!(find_line_end(&text, 6), 6);
    assert_eq!(find_line_end(&text, 7), 9);
    assert_eq!(find_line_end(&text, 9), 9);
    assert_eq!(find_text_start(&text, 0, 5), 2);
    assert_eq!(find_text_end(&text, 2, 5), 4);
    assert_eq!(find_text_start(&text, 4, 5), 5);
    assert_eq!(find_text_end(&text, 0, 2), 0);
    assert_eq!(find_text_start(&text, 7, 9), 7);
    assert_eq!(find_text_end(&text, 7, 9), 9);
    assert!(span_allowed(&text, 2, 4));
    assert!(!span_allowed(&text, 1, 4));
    assert!(span_allowed(&text, 3, 3));
}
