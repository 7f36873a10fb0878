use biosim_rust::animal::{Carnivore, Herbivore, Stats};
use biosim_rust::cell;
use biosim_rust::cell::{Cell, CellType};
use biosim_rust::island::Island;
use biosim_rust::mapping::MapError;

/// The fixed-point number that stands for `x`.
fn fx(x: f64) -> i64 {
    (x * 1_000_000.0).round() as i64
}

#[test]
fn island_test_process() {
    let input_str = "
WWW
WHW
WLW
WWW";
    println!("{input_str}");
    let correct = vec!["WWW", "WHW", "WLW", "WWW"];

    let island = Island::build(input_str).unwrap();

    let map_vec = island.map_vec();

    assert_eq!(correct, map_vec.clone());
}

#[test]
#[should_panic]
fn island_test_wrong_char() {
    let input_str = "
        WWW
        WEW
        WLW
        WWW";

    let _ = Island::build(input_str).unwrap();
}

#[test]
#[should_panic]
fn island_test_wrong_len() {
    let input_str = "
        WWWW
        WEW
        WLW
        WWW";

    let _ = Island::build(input_str).unwrap();
}

#[test]
fn island_test_map_dict() {
    let input_str = "
        WWWWW
        WDHLW
        WWWWW";

    let island = Island::build(input_str).unwrap();

    let island_map = island.map().clone();

    let map_vec: Vec<((u32, u32), Cell)> = [
        ((0, 0), cell::water((0, 0))),
        ((1, 0), cell::water((1, 0))),
        ((2, 0), cell::water((2, 0))),
        ((3, 0), cell::water((3, 0))),
        ((4, 0), cell::water((4, 0))),
        ((0, 1), cell::water((0, 1))),
        ((1, 1), cell::desert((1, 1))),
        ((2, 1), cell::highland((2, 1))),
        ((3, 1), cell::lowland((3, 1))),
        ((4, 1), cell::water((4, 1))),
        ((0, 2), cell::water((0, 2))),
        ((1, 2), cell::water((1, 2))),
        ((2, 2), cell::water((2, 2))),
        ((3, 2), cell::water((3, 2))),
        ((4, 2), cell::water((4, 2))),
    ]
    .iter()
    .cloned()
    .collect();

    let expected: Vec<Cell> = map_vec.iter().map(|(_, cell)| cell.clone()).collect();

    assert_eq!(island_map, expected, "Hashmap of map is not equal");
    for (loc, cell) in &map_vec {
        assert_eq!(&island.map[island.index_of(*loc).unwrap()], cell);
    }
}

#[test]
fn add_anim_struct() {
    let input_str = "L";

    let island = Island::build(input_str).unwrap();

    let mut map = island.map;

    let cell = &mut map[0];

    //cell.add_carn_struct(Carnivore::new());
    cell.add_carn_struct(Carnivore::new());
    cell.add_herb_struct(Herbivore::new());

    println!("{:#?}", cell.fauna);

    assert_eq!(cell.fauna.as_ref().unwrap().herbivore.len(), 1);
    assert_eq!(cell.fauna.as_ref().unwrap().carnivore.len(), 1);
}

#[test]
fn mod_test_process() {
    let input_str = "
WWW
WHW
WLW
WWW";
    println!("{input_str}");
    let correct = vec!["WWW", "WHW", "WLW", "WWW"];

    let island = Island::build(input_str).unwrap();

    let map_vec = island.map_vec();

    assert_eq!(correct, map_vec.clone());
}

#[test]
#[should_panic]
fn mod_test_wrong_char() {
    let input_str = "
        WWW
        WEW
        WLW
        WWW";

    let _ = Island::build(input_str).unwrap();
}

#[test]
#[should_panic]
fn mod_test_wrong_len() {
    let input_str = "
        WWWW
        WEW
        WLW
        WWW";

    let _ = Island::build(input_str).unwrap();
}

#[test]
fn mod_test_map_dict() {
    let island = Island::build("WDHLW").unwrap();
    let kinds: Vec<CellType> = island.map().iter().map(|cell| cell.get_cell()).collect();
    assert_eq!(
        kinds,
        vec![CellType::Water, CellType::Desert, CellType::Highland, CellType::Lowland, CellType::Water]
    );
}

#[test]
fn rows_of_a_map() {
    assert_eq!(Island::raw_map_to_vec("WHW"), Ok(vec!["WHW"]));
    assert_eq!(Island::raw_map_to_vec("WHW\n"), Ok(vec!["WHW"]));
    assert_eq!(Island::raw_map_to_vec("\n\n  WHW \t\r\n\n   \n\tWLW\n \n"), Ok(vec!["WHW", "WLW"]));
    assert_eq!(Island::raw_map_to_vec("\u{3000}WD\u{a0}\nLH"), Ok(vec!["WD", "LH"]));
    assert_eq!(Island::raw_map_to_vec(""), Ok(Vec::new()));
    assert_eq!(Island::raw_map_to_vec(" \n\t\n"), Ok(Vec::new()));
    assert_eq!(Island::raw_map_to_vec("W W"), Err(MapError::InvalidCharacter));
}

#[test]
fn malformed_maps() {
    assert_eq!(Island::raw_map_to_vec("WWW\nWEW\nWLW"), Err(MapError::InvalidCharacter));
    assert_eq!(Island::raw_map_to_vec("WWWW\nWEW\nWLW"), Err(MapError::UnequalLines));
    assert_eq!(Island::raw_map_to_vec("WWW\nWL\nWEW"), Err(MapError::UnequalLines));
    assert_eq!(Island::raw_map_to_vec("WWW\nWEW\nWL"), Err(MapError::InvalidCharacter));
    assert_eq!(Island::raw_map_to_vec("wlw"), Err(MapError::InvalidCharacter));
    // the length of a row counts in bytes
    assert_eq!(Island::raw_map_to_vec("WWW\nW\u{e9}"), Err(MapError::InvalidCharacter));
    assert_eq!(Island::raw_map_to_vec("WWW\nW\u{e9}W"), Err(MapError::UnequalLines));
    assert_eq!(Island::build("WWW\nWEW").err(), Some(MapError::InvalidCharacter));
    assert_eq!(Island::build("WWW\nWW").err(), Some(MapError::UnequalLines));
    assert_eq!(MapError::UnequalLines.message(), "Lines are not the same length");
    assert_eq!(MapError::InvalidCharacter.message(), "Invalid character in line");
}

#[test]
fn an_island_without_cells() {
    let mut island = Island::build(" \n").unwrap();
    assert_eq!(island.width, 0);
    assert_eq!(island.height, 0);
    assert!(island.map().is_empty());
    assert!(island.map_vec().is_empty());
    assert_eq!(island.index_of((0, 0)), None);
    island.yearly_cycle(&[], &[]);
    island.move_all_animals();
    assert_eq!(island.get_pop(), (0, 0));
}

#[test]
fn an_island_from_its_map() {
    let island = Island::build(" WHW \n WLD ").unwrap();
    assert_eq!(island.raw_str, " WHW \n WLD ");
    assert_eq!(island.width, 3);
    assert_eq!(island.height, 2);
    assert_eq!(island.map.len(), 6);
    assert_eq!(island.map[4], cell::lowland((1, 1)));
    assert_eq!(island.map[5], cell::desert((2, 1)));
    assert_eq!(island.index_of((1, 1)), Some(4));
    assert_eq!(island.index_of((2, 1)), Some(5));
    assert_eq!(island.index_of((3, 0)), None);
    assert_eq!(island.index_of((0, 2)), None);
    assert_eq!(island.index_of((u32::MAX, u32::MAX)), None);
    assert_eq!(island.get_pop(), (0, 0));
}

fn mover(to: Option<(u32, u32)>, age: u32) -> Herbivore {
    let mut herb = Herbivore::from(Stats::from(age, fx(20.0)));
    herb.stats.move_to = to;
    herb
}

fn ages(cell: &Cell) -> Vec<u32> {
    cell.fauna.as_ref().unwrap().herbivore.iter().map(|h| h.stats.age).collect()
}

#[test]
fn migration_moves_and_clears() {
    // L L W
    // L D L
    let mut island = Island::build("LLW\nLDL").unwrap();
    // cell (0, 0): ages 0..5
    island.map[0].add_herb_struct(mover(Some((1, 0)), 0));
    island.map[0].add_herb_struct(mover(None, 1));
    island.map[0].add_herb_struct(mover(Some((1, 0)), 2));
    island.map[0].add_herb_struct(mover(Some((0, 1)), 3));
    island.map[0].add_herb_struct(mover(Some((0, 0)), 4));
    // cell (1, 0): ages 10..14
    island.map[1].add_herb_struct(mover(Some((2, 0)), 10)); // water
    island.map[1].add_herb_struct(mover(Some((0, 0)), 11));
    island.map[1].add_herb_struct(mover(Some((1, 2)), 12)); // beyond the grid
    island.map[1].add_herb_struct(mover(Some((3, 0)), 13)); // beyond the row
    // cell (1, 1): a carnivore on its way
    let mut carn = Carnivore::new();
    carn.stats.move_to = Some((2, 1));
    island.map[4].add_carn_struct(carn);
    assert_eq!(island.get_pop(), (9, 1));

    island.move_all_animals();

    assert_eq!(island.get_pop(), (9, 1));
    // the stayers in their order, then the arrivals, cell by cell, the last of each cell first
    assert_eq!(ages(&island.map[0]), vec![1, 4, 11]);
    assert_eq!(ages(&island.map[1]), vec![10, 12, 13, 2, 0]);
    assert_eq!(ages(&island.map[3]), vec![3]);
    assert_eq!(ages(&island.map[4]), Vec::<u32>::new());
    assert_eq!(island.map[2], cell::water((2, 0)));
    assert_eq!(island.map[4].fauna.as_ref().unwrap().carnivore.len(), 0);
    assert_eq!(island.map[5].fauna.as_ref().unwrap().carnivore.len(), 1);
    for cell in island.map() {
        if let Some(fauna) = &cell.fauna {
            for herb in &fauna.herbivore {
                assert_eq!(herb.stats.move_to, None);
                assert_eq!(herb.stats.weight, fx(20.0));
            }
            for carn in &fauna.carnivore {
                assert_eq!(carn.stats.move_to, None);
            }
        }
    }
}

#[test]
fn migration_moves_each_animal_once() {
    let mut island = Island::build("LLL").unwrap();
    for cell in 0..3 {
        for i in 0..5 {
            island.map[cell].add_herb_struct(mover(Some(((i % 3) as u32, 0)), (10 * cell + i) as u32));
        }
    }
    island.move_all_animals();
    assert_eq!(ages(&island.map[0]), vec![3, 0, 13, 10, 23, 20]);
    assert_eq!(ages(&island.map[1]), vec![4, 1, 14, 11, 24, 21]);
    assert_eq!(ages(&island.map[2]), vec![2, 12, 22]);
    assert_eq!(island.get_pop(), (15, 0));
}
