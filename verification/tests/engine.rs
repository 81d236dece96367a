use game_of_life::game_of_life::GameOfLife;

fn grid_with(h: usize, w: usize, alive: &[(usize, usize)]) -> GameOfLife {
    let mut game = GameOfLife::new(h, w);
    for &(x, y) in alive {
        assert_eq!(Some(()), game.set(x, y, true));
    }
    game
}

#[test]
fn lone_cell_dies_of_underpopulation() {
    let mut game = grid_with(5, 5, &[(2, 2)]);
    game.step();
    assert!(game.alive_cells().is_empty());
}

#[test]
fn pair_dies_of_underpopulation() {
    // Each of the two adjacent cells has exactly one neighbor.
    let mut game = grid_with(5, 5, &[(2, 2), (3, 2)]);
    game.step();
    assert!(game.alive_cells().is_empty());
}

#[test]
fn overpopulated_cell_dies() {
    // The center has 4 alive neighbors.
    let mut game = grid_with(5, 5, &[(2, 2), (1, 1), (3, 1), (1, 3), (3, 3)]);
    game.step();
    assert_eq!(Some(false), game.get(2, 2));
}

#[test]
fn dead_cell_with_three_neighbors_is_born() {
    let mut game = grid_with(5, 5, &[(1, 1), (3, 1), (2, 3)]);
    assert_eq!(Some(false), game.get(2, 2));
    game.step();
    assert_eq!(Some(true), game.get(2, 2));
}

#[test]
fn dead_cell_with_two_neighbors_stays_dead() {
    let mut game = grid_with(5, 5, &[(1, 1), (3, 1)]);
    game.step();
    assert_eq!(Some(false), game.get(2, 2));
}

#[test]
fn dead_cell_with_four_neighbors_stays_dead() {
    let mut game = grid_with(5, 5, &[(1, 1), (3, 1), (1, 3), (3, 3)]);
    game.step();
    assert_eq!(Some(false), game.get(2, 2));
}

#[test]
fn alive_cell_with_two_or_three_neighbors_survives() {
    // Two neighbors on a diagonal.
    let mut game = grid_with(5, 5, &[(1, 1), (2, 2), (3, 3)]);
    game.step();
    assert_eq!(Some(true), game.get(2, 2));

    // Three neighbors.
    let mut game = grid_with(5, 5, &[(2, 2), (1, 1), (3, 1), (1, 3)]);
    game.step();
    assert_eq!(Some(true), game.get(2, 2));
}

#[test]
fn l_seed_becomes_stable_block() {
    // Three cells in an L: each alive cell has 2 neighbors and survives,
    // and the dead corner at (2, 2) has exactly 3 and is born.
    let mut game = grid_with(5, 5, &[(1, 1), (2, 1), (1, 2)]);
    game.step();
    assert_eq!(vec![(1, 1), (2, 1), (1, 2), (2, 2)], game.alive_cells());

    // The block is a still life.
    game.step();
    assert_eq!(vec![(1, 1), (2, 1), (1, 2), (2, 2)], game.alive_cells());
}

#[test]
fn blinker_oscillates_synchronously() {
    // A horizontal blinker flips to vertical and back. Deciding any cell
    // from an already-updated neighbor would break this exact period-2
    // cycle.
    let mut game = grid_with(5, 5, &[(1, 2), (2, 2), (3, 2)]);
    game.step();
    assert_eq!(vec![(2, 1), (2, 2), (2, 3)], game.alive_cells());
    game.step();
    assert_eq!(vec![(1, 2), (2, 2), (3, 2)], game.alive_cells());
}

#[test]
fn border_cells_count_no_outside_neighbors() {
    // A lone corner cell on a 1x1 grid has no neighbors at all: were the
    // positions past the edge counted, it could not die of
    // underpopulation.
    let mut game = grid_with(1, 1, &[(0, 0)]);
    game.step();
    assert_eq!(Some(false), game.get(0, 0));

    // A full 2x2 block is stable: every cell has exactly its 3 real
    // neighbors, and none of the positions past the edge is counted.
    let mut game = grid_with(2, 2, &[(0, 0), (1, 0), (0, 1), (1, 1)]);
    game.step();
    assert_eq!(vec![(0, 0), (1, 0), (0, 1), (1, 1)], game.alive_cells());
}

#[test]
fn step_on_empty_grid_is_a_no_op() {
    let mut game = GameOfLife::new(0, 0);
    game.step();
    assert_eq!(0, game.get_height());

    let mut flat = GameOfLife::new(3, 0);
    flat.step();
    assert_eq!(3, flat.get_height());
    assert_eq!(0, flat.get_width());
}
