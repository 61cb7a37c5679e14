use std::collections::HashSet;
use toroidal_life::GridError;
use toroidal_life::Universe;

fn cell(u: &Universe, width: u32, row: u32, col: u32) -> bool {
    u.get_cells().contains((row * width + col) as usize)
}

fn live_set(u: &Universe, width: u32, height: u32) -> HashSet<(u32, u32)> {
    let mut s = HashSet::new();
    for row in 0..height {
        for col in 0..width {
            if cell(u, width, row, col) {
                s.insert((row, col));
            }
        }
    }
    s
}

#[test]
fn new_empty_all_dead() {
    let u = Universe::new_empty(8, 8).unwrap();
    assert_eq!(u.get_cells().len(), 64);
    assert!(live_set(&u, 8, 8).is_empty());
}

#[test]
fn new_empty_rejects_zero_dimension() {
    assert!(matches!(Universe::new_empty(0, 5), Err(GridError::InvalidDimensions)));
    assert!(matches!(Universe::new_empty(5, 0), Err(GridError::InvalidDimensions)));
    assert!(matches!(Universe::new_empty(0, 0), Err(GridError::InvalidDimensions)));
}

#[test]
fn new_rejects_zero_dimension() {
    assert!(matches!(Universe::new(0, 7, Vec::new()), Err(GridError::InvalidDimensions)));
    assert!(matches!(Universe::new(7, 0, Vec::new()), Err(GridError::InvalidDimensions)));
}

#[test]
fn new_matches_seed() {
    let width = 5u32;
    let height = 4u32;
    let seed: Vec<bool> = (0..width * height).map(|i| i % 3 == 0).collect();
    let u = Universe::new(width, height, seed.clone()).unwrap();
    assert_eq!(u.get_cells().len(), (width * height) as usize);
    for row in 0..height {
        for col in 0..width {
            assert_eq!(cell(&u, width, row, col), seed[(row * width + col) as usize]);
        }
    }
}

#[test]
fn tick_is_deterministic() {
    let width = 9u32;
    let height = 7u32;
    let seed: Vec<bool> = (0..width * height).map(|i| (i * 7) % 5 < 2).collect();
    let mut a = Universe::new(width, height, seed.clone()).unwrap();
    let mut b = Universe::new(width, height, seed).unwrap();
    a.tick();
    a.tick();
    b.tick();
    b.tick();
    assert_eq!(live_set(&a, width, height), live_set(&b, width, height));
}

#[test]
fn block_is_still_life() {
    let mut u = Universe::new_empty(8, 8).unwrap();
    let block = [(3u32, 3u32), (3, 4), (4, 3), (4, 4)];
    u.set_cells(&block);
    let before = live_set(&u, 8, 8);
    assert_eq!(before.len(), 4);
    for _ in 0..5 {
        u.tick();
        assert_eq!(live_set(&u, 8, 8), before);
    }
}

#[test]
fn blinker_has_period_two() {
    let mut u = Universe::new_empty(7, 7).unwrap();
    u.set_cells(&[(3, 2), (3, 3), (3, 4)]);
    let horizontal = live_set(&u, 7, 7);
    u.tick();
    let vertical: HashSet<(u32, u32)> = [(2u32, 3u32), (3, 3), (4, 3)].into_iter().collect();
    assert_eq!(live_set(&u, 7, 7), vertical);
    u.tick();
    assert_eq!(live_set(&u, 7, 7), horizontal);
}

#[test]
fn lone_cell_dies_of_underpopulation() {
    let mut u = Universe::new_empty(5, 5).unwrap();
    u.set_cell(2, 2);
    u.tick();
    assert!(live_set(&u, 5, 5).is_empty());
}

#[test]
fn l_corner_becomes_block() {
    let mut u = Universe::new_empty(6, 6).unwrap();
    u.set_cells(&[(1, 1), (1, 2), (2, 1)]);
    u.tick();
    let block: HashSet<(u32, u32)> = [(1u32, 1u32), (1, 2), (2, 1), (2, 2)].into_iter().collect();
    assert_eq!(live_set(&u, 6, 6), block);
}

#[test]
fn crowded_cell_dies_of_overpopulation() {
    let mut u = Universe::new_empty(6, 6).unwrap();
    u.set_cells(&[(2, 2), (1, 1), (1, 3), (3, 1), (3, 3)]);
    u.tick();
    assert!(!cell(&u, 6, 2, 2));
}

#[test]
fn glider_translates_after_four_ticks() {
    let mut u = Universe::new_empty(16, 16).unwrap();
    u.glider(5, 5);
    let start: HashSet<(u32, u32)> =
        [(4u32, 5u32), (5, 6), (6, 4), (6, 5), (6, 6)].into_iter().collect();
    assert_eq!(live_set(&u, 16, 16), start);
    for _ in 0..4 {
        u.tick();
    }
    let expected: HashSet<(u32, u32)> = start.into_iter().map(|(r, c)| (r + 1, c + 1)).collect();
    assert_eq!(live_set(&u, 16, 16), expected);
}

#[test]
fn glider_near_edge_is_noop() {
    let mut u = Universe::new_empty(8, 8).unwrap();
    u.glider(0, 4);
    u.glider(4, 0);
    u.glider(7, 4);
    u.glider(4, 7);
    assert!(live_set(&u, 8, 8).is_empty());
}

#[test]
fn corner_counts_wrapped_diagonal_neighbor() {
    let mut u = Universe::new_empty(4, 4).unwrap();
    u.set_cells(&[(3, 3), (3, 0), (0, 3)]);
    u.tick();
    let expected: HashSet<(u32, u32)> =
        [(0u32, 0u32), (0, 3), (3, 0), (3, 3)].into_iter().collect();
    assert_eq!(live_set(&u, 4, 4), expected);
}

#[test]
fn buffer_length_is_width_times_height() {
    for (width, height) in [(1u32, 1u32), (3, 5), (8, 8), (13, 2)] {
        let mut u = Universe::new_empty(width, height).unwrap();
        assert_eq!(u.get_cells().len(), (width * height) as usize);
        u.tick();
        assert_eq!(u.get_cells().len(), (width * height) as usize);
    }
}

#[test]
fn set_cell_and_toggle_cell() {
    let mut u = Universe::new_empty(5, 5).unwrap();
    u.set_cell(1, 2);
    assert!(cell(&u, 5, 1, 2));
    u.toggle_cell(1, 2);
    assert!(!cell(&u, 5, 1, 2));
    u.toggle_cell(4, 4);
    assert!(cell(&u, 5, 4, 4));
}

#[test]
fn pulsar_sets_exactly_48_cells() {
    let mut u = Universe::new_empty(15, 15).unwrap();
    u.pulsar(7, 7);
    let quarter = [
        (6u32, 4u32),
        (6, 3),
        (6, 2),
        (2, 1),
        (3, 1),
        (4, 1),
        (1, 2),
        (1, 3),
        (1, 4),
        (2, 6),
        (3, 6),
        (4, 6),
    ];
    let mut expected = HashSet::new();
    for &(r, c) in quarter.iter() {
        expected.insert((7 + r, 7 + c));
        expected.insert((7 + r, 7 - c));
        expected.insert((7 - r, 7 + c));
        expected.insert((7 - r, 7 - c));
    }
    assert_eq!(expected.len(), 48);
    assert_eq!(live_set(&u, 15, 15), expected);
}

#[test]
fn pulsar_without_room_is_noop() {
    let mut u = Universe::new_empty(15, 15).unwrap();
    u.pulsar(3, 7);
    u.pulsar(7, 3);
    u.pulsar(12, 7);
    u.pulsar(7, 12);
    assert!(live_set(&u, 15, 15).is_empty());
    let mut small = Universe::new_empty(10, 10).unwrap();
    small.pulsar(7, 7);
    assert!(live_set(&small, 10, 10).is_empty());
}

#[test]
fn stamp_is_visible_before_and_after_tick_input() {
    let mut u = Universe::new_empty(8, 8).unwrap();
    u.set_cells(&[(3, 3), (3, 4), (4, 3), (4, 4)]);
    assert_eq!(live_set(&u, 8, 8).len(), 4);
    u.tick();
    assert_eq!(live_set(&u, 8, 8).len(), 4);
}
