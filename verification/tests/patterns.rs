use wasm_game_of_life::Cell;
use wasm_game_of_life::InitMode;
use wasm_game_of_life::Universe;

fn live_cells(universe: &Universe) -> Vec<(u32, u32)> {
    let width = universe.width();
    let mut live = Vec::new();
    for (i, cell) in universe.get_cells().iter().enumerate() {
        if *cell == Cell::Alive {
            live.push((i as u32 / width, i as u32 % width));
        }
    }
    live
}

fn pulsar_cells(row: u32, col: u32) -> Vec<(u32, u32)> {
    let mut cells = Vec::new();
    for r in 0..13u32 {
        for c in 0..13u32 {
            let line = |i: u32| i == 0 || i == 5 || i == 7 || i == 12;
            let span = |i: u32| (2..=4).contains(&i) || (8..=10).contains(&i);
            if (line(r) && span(c)) || (span(r) && line(c)) {
                cells.push((row + r - 6, col + c - 6));
            }
        }
    }
    cells
}

#[test]
fn insert_glider_stamps_five_cells() {
    let mut universe = Universe::new(InitMode::Empty);
    universe.insert_glider(0, 0);
    assert_eq!(live_cells(&universe), vec![(0, 2), (1, 0), (1, 2), (2, 1), (2, 2)]);
}

#[test]
fn insert_glider_counts_from_the_given_corner() {
    let mut universe = Universe::new(InitMode::Empty);
    universe.insert_glider(20, 40);
    assert_eq!(live_cells(&universe), vec![(20, 42), (21, 40), (21, 42), (22, 41), (22, 42)]);
}

#[test]
fn insert_glider_fits_in_the_last_corner() {
    let mut universe = Universe::new(InitMode::Empty);
    universe.insert_glider(61, 61);
    assert_eq!(live_cells(&universe), vec![(61, 63), (62, 61), (62, 63), (63, 62), (63, 63)]);
}

#[test]
fn insert_glider_does_not_clear_what_is_there() {
    let mut universe = Universe::new(InitMode::Empty);
    universe.set_cells(&[(0, 0), (1, 1), (2, 2), (5, 5)]);
    universe.insert_glider(0, 0);
    assert_eq!(
        live_cells(&universe),
        vec![(0, 0), (0, 2), (1, 0), (1, 1), (1, 2), (2, 1), (2, 2), (5, 5)]
    );
}

#[test]
fn glider_moves_one_down_and_one_right_in_four_ticks() {
    let mut universe = Universe::new(InitMode::Empty);
    universe.insert_glider(0, 0);
    universe.tick();
    assert_eq!(live_cells(&universe), vec![(0, 1), (1, 2), (1, 3), (2, 1), (2, 2)]);
    universe.tick();
    assert_eq!(live_cells(&universe), vec![(0, 2), (1, 3), (2, 1), (2, 2), (2, 3)]);
    universe.tick();
    assert_eq!(live_cells(&universe), vec![(1, 1), (1, 3), (2, 2), (2, 3), (3, 2)]);
    universe.tick();
    assert_eq!(live_cells(&universe), vec![(1, 3), (2, 1), (2, 3), (3, 2), (3, 3)]);

    let mut moved = Universe::new(InitMode::Empty);
    moved.insert_glider(1, 1);
    assert_eq!(universe.get_cells(), moved.get_cells());
}

#[test]
fn glider_crosses_the_edge_of_the_torus() {
    let mut universe = Universe::new(InitMode::Empty);
    universe.set_width(8);
    universe.set_height(8);
    universe.insert_glider(0, 0);
    let start = universe.get_cells().to_vec();
    for _ in 0..32 {
        universe.tick();
    }
    assert_eq!(universe.get_cells(), &start[..]);
}

#[test]
fn insert_pulsar_stamps_forty_eight_cells() {
    let mut universe = Universe::new(InitMode::Empty);
    universe.insert_pulsar(20, 30);
    let live = live_cells(&universe);
    assert_eq!(live.len(), 48);
    assert_eq!(live, pulsar_cells(20, 30));
    assert_eq!(&live[..6], &[(14, 26), (14, 27), (14, 28), (14, 32), (14, 33), (14, 34)]);
    assert_eq!(&live[6..10], &[(16, 24), (16, 29), (16, 31), (16, 36)]);
    assert_eq!(&live[42..], &[(26, 26), (26, 27), (26, 28), (26, 32), (26, 33), (26, 34)]);
}

#[test]
fn insert_pulsar_fits_in_the_first_corner() {
    let mut universe = Universe::new(InitMode::Empty);
    universe.insert_pulsar(6, 6);
    let live = live_cells(&universe);
    assert_eq!(live, pulsar_cells(6, 6));
    assert_eq!(live[0], (0, 2));
    assert_eq!(live[6], (2, 0));
}

#[test]
fn insert_pulsar_fits_in_the_last_corner() {
    let mut universe = Universe::new(InitMode::Empty);
    universe.insert_pulsar(57, 57);
    let live = live_cells(&universe);
    assert_eq!(live, pulsar_cells(57, 57));
    assert_eq!(live[47], (63, 61));
}

#[test]
fn insert_pulsar_does_not_clear_what_is_there() {
    let mut universe = Universe::new(InitMode::Empty);
    universe.set_cells(&[(20, 30), (14, 26)]);
    universe.insert_pulsar(20, 30);
    let live = live_cells(&universe);
    assert_eq!(live.len(), 49);
    assert!(live.contains(&(20, 30)));
    assert!(live.contains(&(14, 26)));
}

#[test]
fn pulsar_comes_back_after_three_ticks() {
    let mut universe = Universe::new(InitMode::Empty);
    universe.insert_pulsar(20, 30);
    let start = universe.get_cells().to_vec();
    universe.tick();
    assert_eq!(live_cells(&universe).len(), 56);
    assert_ne!(universe.get_cells(), &start[..]);
    universe.tick();
    assert_eq!(live_cells(&universe).len(), 72);
    assert_ne!(universe.get_cells(), &start[..]);
    universe.tick();
    assert_eq!(universe.get_cells(), &start[..]);
}
