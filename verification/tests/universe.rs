use game_of_life::{Cell, Universe, UniverseError};

const D: Cell = Cell::Dead;
const A: Cell = Cell::Alive;

fn blank(width: u32, height: u32) -> Universe {
    let seed = vec![false; (width * height) as usize];
    Universe::new(width, height, &seed).unwrap()
}

fn with_alive(width: u32, height: u32, coords: &[(u32, u32)]) -> Universe {
    let mut universe = blank(width, height);
    universe.set_cells(coords).unwrap();
    universe
}

#[test]
fn new_takes_each_cell_from_the_seed() {
    let seed = [true, false, false, false, true, true];
    let universe = Universe::new(3, 2, &seed).unwrap();
    assert_eq!(universe.width(), 3);
    assert_eq!(universe.height(), 2);
    assert_eq!(universe.get_cells(), &[A, D, D, D, A, A]);
}

#[test]
fn new_refuses_a_zero_width() {
    assert_eq!(Universe::new(0, 4, &[]).err(), Some(UniverseError::InvalidDimension));
}

#[test]
fn new_refuses_a_zero_height() {
    assert_eq!(Universe::new(4, 0, &[]).err(), Some(UniverseError::InvalidDimension));
}

#[test]
fn new_reports_the_dimension_before_the_seed() {
    assert_eq!(
        Universe::new(0, 0, &[true]).err(),
        Some(UniverseError::InvalidDimension)
    );
}

#[test]
fn new_refuses_a_short_seed() {
    assert_eq!(
        Universe::new(2, 2, &[true, false, true]).err(),
        Some(UniverseError::SeedLength)
    );
}

#[test]
fn new_refuses_a_long_seed() {
    assert_eq!(
        Universe::new(2, 2, &[true, false, true, false, true]).err(),
        Some(UniverseError::SeedLength)
    );
}

#[test]
fn new_accepts_the_default_eight_by_eight() {
    let seed: Vec<bool> = (0..64).map(|i| i % 5 < 2).collect();
    let universe = Universe::new(8, 8, &seed).unwrap();
    assert_eq!(universe.get_cells().len(), 64);
    for (i, cell) in universe.get_cells().iter().enumerate() {
        assert_eq!(*cell == A, seed[i]);
    }
}

#[test]
fn cell_count_is_width_times_height_in_every_state() {
    let mut universe = Universe::new(3, 2, &[true, true, false, false, true, false]).unwrap();
    let check = |u: &Universe| {
        assert_eq!(u.get_cells().len(), u.width() as usize * u.height() as usize);
    };
    check(&universe);
    universe.tick();
    check(&universe);
    universe.set_cells(&[(1, 2)]).unwrap();
    check(&universe);
    universe.set_width(7).unwrap();
    check(&universe);
    universe.set_height(5).unwrap();
    check(&universe);
    assert!(universe.set_width(0).is_err());
    check(&universe);
    assert!(universe.set_cells(&[(5, 0)]).is_err());
    check(&universe);
    universe.tick();
    check(&universe);
    assert_eq!(universe.get_cells().len(), 35);
}

#[test]
fn get_index_is_row_major() {
    let universe = blank(5, 3);
    assert_eq!(universe.get_index(0, 0), Ok(0));
    assert_eq!(universe.get_index(0, 4), Ok(4));
    assert_eq!(universe.get_index(1, 0), Ok(5));
    assert_eq!(universe.get_index(2, 3), Ok(13));
    assert_eq!(universe.get_index(2, 4), Ok(14));
}

#[test]
fn get_index_refuses_a_row_outside() {
    let universe = blank(5, 3);
    assert_eq!(universe.get_index(3, 0), Err(UniverseError::OutOfBounds));
    assert_eq!(universe.get_index(u32::MAX, 0), Err(UniverseError::OutOfBounds));
}

#[test]
fn get_index_refuses_a_column_outside() {
    let universe = blank(5, 3);
    assert_eq!(universe.get_index(0, 5), Err(UniverseError::OutOfBounds));
    assert_eq!(universe.get_index(2, u32::MAX), Err(UniverseError::OutOfBounds));
}

#[test]
fn corner_counts_each_of_its_eight_wrapped_neighbors() {
    let (width, height) = (4u32, 3u32);
    let neighbors = [
        (height - 1, width - 1),
        (height - 1, 0),
        (height - 1, 1),
        (0, width - 1),
        (0, 1),
        (1, width - 1),
        (1, 0),
        (1, 1),
    ];
    for position in neighbors {
        let universe = with_alive(width, height, &[position]);
        assert_eq!(universe.live_neighbor_count(0, 0), Ok(1), "{:?}", position);
    }
    let universe = with_alive(width, height, &neighbors);
    assert_eq!(universe.live_neighbor_count(0, 0), Ok(8));
}

#[test]
fn corner_does_not_count_itself_or_distant_cells() {
    let universe = with_alive(4, 4, &[(0, 0), (0, 2), (2, 0), (2, 2), (1, 2), (2, 1), (3, 2)]);
    assert_eq!(universe.live_neighbor_count(0, 0), Ok(0));
}

#[test]
fn far_corner_wraps_to_the_first_row_and_column() {
    let universe = with_alive(5, 4, &[(0, 0), (0, 4), (3, 0), (0, 3), (2, 3)]);
    assert_eq!(universe.live_neighbor_count(3, 4), Ok(5));
}

#[test]
fn inner_cell_counts_its_eight_neighbors() {
    let universe = with_alive(5, 5, &[(1, 1), (1, 2), (1, 3), (2, 1), (2, 2), (3, 3), (4, 4)]);
    assert_eq!(universe.live_neighbor_count(2, 2), Ok(5));
}

#[test]
fn single_cell_universe_is_its_own_eight_neighbors() {
    let alive = Universe::new(1, 1, &[true]).unwrap();
    assert_eq!(alive.live_neighbor_count(0, 0), Ok(8));
    let dead = Universe::new(1, 1, &[false]).unwrap();
    assert_eq!(dead.live_neighbor_count(0, 0), Ok(0));
}

#[test]
fn two_by_two_universe_counts_neighbors_through_both_edges() {
    let universe = Universe::new(2, 2, &[false, true, false, false]).unwrap();
    assert_eq!(universe.live_neighbor_count(0, 0), Ok(2));
    assert_eq!(universe.live_neighbor_count(1, 0), Ok(4));
    assert_eq!(universe.live_neighbor_count(1, 1), Ok(2));
    assert_eq!(universe.live_neighbor_count(0, 1), Ok(0));
}

#[test]
fn single_row_counts_the_row_as_its_own_neighbor() {
    let universe = Universe::new(4, 1, &[false, true, false, false]).unwrap();
    assert_eq!(universe.live_neighbor_count(0, 0), Ok(3));
    assert_eq!(universe.live_neighbor_count(0, 1), Ok(2));
    assert_eq!(universe.live_neighbor_count(0, 3), Ok(0));
}

#[test]
fn live_neighbor_count_refuses_a_position_outside() {
    let universe = blank(4, 3);
    assert_eq!(universe.live_neighbor_count(3, 0), Err(UniverseError::OutOfBounds));
    assert_eq!(universe.live_neighbor_count(0, 4), Err(UniverseError::OutOfBounds));
    assert_eq!(universe.live_neighbor_count(3, 4), Err(UniverseError::OutOfBounds));
}

#[test]
fn set_cells_makes_the_addressed_cells_alive() {
    let mut universe = blank(3, 2);
    assert_eq!(universe.set_cells(&[(0, 1), (1, 2)]), Ok(()));
    assert_eq!(universe.get_cells(), &[D, A, D, D, D, A]);
}

#[test]
fn set_cells_leaves_other_live_cells_alive() {
    let mut universe = Universe::new(3, 2, &[true, false, false, false, false, true]).unwrap();
    universe.set_cells(&[(0, 0), (1, 0)]).unwrap();
    assert_eq!(universe.get_cells(), &[A, D, D, A, D, A]);
}

#[test]
fn set_cells_with_no_coordinates_changes_nothing() {
    let mut universe = Universe::new(2, 2, &[true, false, false, true]).unwrap();
    assert_eq!(universe.set_cells(&[]), Ok(()));
    assert_eq!(universe.get_cells(), &[A, D, D, A]);
}

#[test]
fn set_cells_twice_is_set_cells_once() {
    let coords = [(0, 0), (2, 3), (1, 1), (2, 3)];
    let mut universe = Universe::new(4, 3, &[false, true, false, false, false, false, false,
        false, true, false, false, false]).unwrap();
    universe.set_cells(&coords).unwrap();
    let once = universe.get_cells().to_vec();
    universe.set_cells(&coords).unwrap();
    assert_eq!(universe.get_cells(), &once[..]);
    assert_eq!(once, vec![A, A, D, D, D, A, D, D, A, D, D, A]);
}

#[test]
fn set_cells_does_not_depend_on_the_order() {
    let forward = with_alive(4, 4, &[(0, 1), (3, 3), (2, 0)]);
    let backward = with_alive(4, 4, &[(2, 0), (3, 3), (0, 1), (3, 3)]);
    assert_eq!(forward.get_cells(), backward.get_cells());
}

#[test]
fn set_cells_refuses_a_row_outside_and_changes_nothing() {
    let mut universe = Universe::new(3, 2, &[true, false, false, false, false, true]).unwrap();
    assert_eq!(universe.set_cells(&[(0, 1), (2, 0)]), Err(UniverseError::OutOfBounds));
    assert_eq!(universe.get_cells(), &[A, D, D, D, D, A]);
}

#[test]
fn set_cells_refuses_a_column_outside_and_changes_nothing() {
    let mut universe = blank(3, 2);
    assert_eq!(universe.set_cells(&[(1, 1), (0, 3)]), Err(UniverseError::OutOfBounds));
    assert_eq!(universe.get_cells(), &[D, D, D, D, D, D]);
}

#[test]
fn set_width_resets_every_cell() {
    let mut universe = Universe::new(2, 3, &[true; 6]).unwrap();
    assert_eq!(universe.set_width(5), Ok(()));
    assert_eq!(universe.width(), 5);
    assert_eq!(universe.height(), 3);
    assert_eq!(universe.get_cells().len(), 15);
    assert!(universe.get_cells().iter().all(|cell| *cell == D));
}

#[test]
fn set_width_to_the_same_width_still_resets() {
    let mut universe = Universe::new(2, 2, &[true, false, true, true]).unwrap();
    assert_eq!(universe.set_width(2), Ok(()));
    assert_eq!(universe.get_cells(), &[D, D, D, D]);
}

#[test]
fn set_height_resets_every_cell() {
    let mut universe = Universe::new(2, 3, &[true; 6]).unwrap();
    assert_eq!(universe.set_height(1), Ok(()));
    assert_eq!(universe.width(), 2);
    assert_eq!(universe.height(), 1);
    assert_eq!(universe.get_cells(), &[D, D]);
}

#[test]
fn set_width_refuses_zero_and_changes_nothing() {
    let mut universe = Universe::new(2, 2, &[true, false, false, true]).unwrap();
    assert_eq!(universe.set_width(0), Err(UniverseError::InvalidDimension));
    assert_eq!(universe.width(), 2);
    assert_eq!(universe.height(), 2);
    assert_eq!(universe.get_cells(), &[A, D, D, A]);
}

#[test]
fn set_height_refuses_zero_and_changes_nothing() {
    let mut universe = Universe::new(2, 2, &[true, false, false, true]).unwrap();
    assert_eq!(universe.set_height(0), Err(UniverseError::InvalidDimension));
    assert_eq!(universe.width(), 2);
    assert_eq!(universe.height(), 2);
    assert_eq!(universe.get_cells(), &[A, D, D, A]);
}

#[test]
fn cells_gives_one_byte_for_each_cell() {
    let universe = Universe::new(3, 2, &[true, false, false, false, true, true]).unwrap();
    assert_eq!(universe.cells(), vec![1u8, 0, 0, 0, 1, 1]);
}

#[test]
fn cells_agrees_with_get_cells() {
    let mut universe = with_alive(6, 5, &[(0, 0), (1, 3), (4, 5), (2, 2), (2, 3), (2, 4)]);
    universe.tick();
    let bytes = universe.cells();
    assert_eq!(bytes.len(), universe.get_cells().len());
    for (byte, cell) in bytes.iter().zip(universe.get_cells()) {
        assert_eq!(*byte == 1, *cell == A);
        assert_eq!(*byte == 0, *cell == D);
    }
}

#[test]
fn new_refuses_a_grid_too_large_to_allocate() {
    assert_eq!(
        Universe::new(u32::MAX, u32::MAX, &[]).err(),
        Some(UniverseError::InvalidDimension)
    );
}

#[test]
fn default_size_is_eight_by_eight() {
    assert_eq!(game_of_life::DEFAULT_WIDTH, 8);
    assert_eq!(game_of_life::DEFAULT_HEIGHT, 8);
}
