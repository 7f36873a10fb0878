use biosim_rust::mapping::MapError;
use biosim_rust::{run, Config};

#[test]
fn config_init() {
    let input_map = "WHW".to_string();
    let input_pop = vec![((1, 1), "Herbivore".to_string(), 200)];
    let test_config = Config::build(input_map.clone(), input_pop.clone()).unwrap();
    let Config {
        island_map,
        ini_pop,
    } = test_config;

    assert_eq!((island_map, ini_pop), (input_map, input_pop));
}

#[test]
fn run_accepts_a_map() {
    let config = Config::build("WHW".to_string(), vec![((1, 0), "Herbivore".to_string(), 200)]).unwrap();
    assert_eq!(run(config), Ok(()));
}

#[test]
fn run_rejects_a_malformed_map() {
    let config = Config::build("WHW\nWXW".to_string(), Vec::new()).unwrap();
    assert_eq!(run(config), Err(MapError::InvalidCharacter));
    let config = Config::build("WHW\nWW".to_string(), Vec::new()).unwrap();
    assert_eq!(run(config), Err(MapError::UnequalLines));
}
