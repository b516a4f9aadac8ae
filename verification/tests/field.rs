use minefield::cell::{initial_bomb_locations, initial_cells, CellState, CELL_SIDE, CELL_SIZE};
use minefield::input::{click_action, movement_direction, ClickAction};
use minefield::position::{LogicalPosition, TilePosition};
use minefield::tiles::{roll_tiles, tile_data_from_rolls, RngState, TILESET_LAYERS, TILE_ROLLS};
use minefield::world::{initial_world, CHUNK_TILES, RANDOM_SEED};
use rand::{RngExt, SeedableRng};
use rand_chacha::ChaCha8Rng;

fn state_of(rng: &ChaCha8Rng) -> RngState {
    RngState { seed: rng.get_seed(), stream: rng.get_stream(), word_pos: rng.get_word_pos() }
}

fn count_bombs(tiles: &[[bool; CELL_SIDE]; CELL_SIDE]) -> usize {
    tiles.iter().map(|row| row.iter().filter(|b| **b).count()).sum()
}

#[test]
fn initial_bombs_lie_on_the_diagonal_but_the_last_tile() {
    let bombs = initial_bomb_locations();
    for row in 0..CELL_SIDE {
        for col in 0..CELL_SIDE {
            assert_eq!(bombs[row][col], row == col && row < CELL_SIDE - 1, "({row}, {col})");
        }
    }
    assert!(bombs[14][14]);
    assert!(!bombs[15][15]);
}

#[test]
fn initial_cell_hides_one_bomb_fewer_than_its_side() {
    assert_eq!(count_bombs(&initial_bomb_locations()), CELL_SIZE as usize - 1);
}

#[test]
fn initial_cells_are_fresh_at_their_positions() {
    let cells = initial_cells();
    let expected = [(0, 0), (2, 0), (2, 2), (-1, -1)];
    assert_eq!(cells.len(), expected.len());
    for (cell, (x, y)) in cells.iter().zip(expected) {
        assert_eq!(cell.logical_position, LogicalPosition { x, y });
        assert!(matches!(cell.state, CellState::Fresh));
        assert_eq!(cell.bomb_locations, initial_bomb_locations());
    }
}

#[test]
fn rolls_map_to_tileset_layers() {
    let rolls: Vec<u16> = vec![0, 1, 14, 7, 0];
    assert_eq!(
        tile_data_from_rolls(&rolls),
        vec![None, Some(0), Some(13), Some(6), None]
    );
    assert_eq!(tile_data_from_rolls(&Vec::new()), Vec::<Option<u16>>::new());
}

#[test]
fn rolls_stay_in_range() {
    let mut rng = state_of(&ChaCha8Rng::seed_from_u64(RANDOM_SEED));
    let rolls = roll_tiles(&mut rng, 1000);
    assert_eq!(rolls.len(), 1000);
    assert!(rolls.iter().all(|r| *r < TILE_ROLLS));
    assert!(rolls.iter().any(|r| *r == 0));
    assert!(rolls.iter().any(|r| *r == TILE_ROLLS - 1));
}

#[test]
fn initial_world_fills_a_chunk_with_tileset_layers() {
    let world = initial_world();
    assert_eq!(world.tile_data.len(), CHUNK_TILES);
    assert_eq!(CHUNK_TILES, CELL_SIDE * CELL_SIDE);
    for tile in &world.tile_data {
        if let Some(layer) = tile {
            assert!(*layer < TILE_ROLLS - 1);
            assert!(*layer < TILESET_LAYERS);
        }
    }
    assert!(world.tile_data.iter().any(|t| t.is_some()));
    assert_eq!(world.cells.len(), 4);
}

#[test]
fn initial_world_is_the_same_on_every_run() {
    let first = initial_world();
    let second = initial_world();
    assert_eq!(first.tile_data, second.tile_data);
    assert_eq!(first.rng, second.rng);
}

#[test]
fn initial_world_deals_the_seeded_rolls() {
    let world = initial_world();
    let mut rng = ChaCha8Rng::seed_from_u64(RANDOM_SEED);
    let rolls: Vec<u16> = (0..CHUNK_TILES).map(|_| rng.random_range(0..15)).collect();
    assert_eq!(world.tile_data, tile_data_from_rolls(&rolls));
    assert_eq!(world.rng, state_of(&rng));
}

#[test]
fn rolling_continues_the_generator() {
    let mut generator = ChaCha8Rng::seed_from_u64(7);
    let mut state = state_of(&generator);
    let first = roll_tiles(&mut state, 3);
    let second = roll_tiles(&mut state, 5);
    let expected: Vec<u16> = (0..8).map(|_| generator.random_range(0..TILE_ROLLS)).collect();
    assert_eq!([first, second].concat(), expected);
    assert_eq!(state, state_of(&generator));
    assert_ne!(state.word_pos, 0);
}

#[test]
fn no_rolls_leave_the_generator_alone() {
    let mut state = state_of(&ChaCha8Rng::seed_from_u64(RANDOM_SEED));
    let before = state;
    assert_eq!(roll_tiles(&mut state, 0), Vec::<u16>::new());
    assert_eq!(state, before);
}

#[test]
fn movement_follows_held_keys() {
    assert_eq!(movement_direction(false, false, false, false), (0, 0));
    assert_eq!(movement_direction(true, false, false, false), (0, 1));
    assert_eq!(movement_direction(false, true, false, false), (0, -1));
    assert_eq!(movement_direction(false, false, true, false), (-1, 0));
    assert_eq!(movement_direction(false, false, false, true), (1, 0));
    assert_eq!(movement_direction(true, false, false, true), (1, 1));
    assert_eq!(movement_direction(false, true, true, false), (-1, -1));
}

#[test]
fn opposite_keys_cancel() {
    assert_eq!(movement_direction(true, true, false, false), (0, 0));
    assert_eq!(movement_direction(false, false, true, true), (0, 0));
    assert_eq!(movement_direction(true, true, true, true), (0, 0));
    assert_eq!(movement_direction(true, true, false, true), (1, 0));
}

#[test]
fn clicks_reveal_or_flag() {
    assert_eq!(click_action(true, false), Some(ClickAction::Reveal));
    assert_eq!(click_action(false, true), Some(ClickAction::Flag));
    assert_eq!(click_action(false, false), None);
}

#[test]
fn left_click_wins_over_right_click() {
    assert_eq!(click_action(true, true), Some(ClickAction::Reveal));
}

#[test]
fn displacement_and_shift() {
    let cursor = LogicalPosition { x: 3, y: -2 };
    let cell = LogicalPosition { x: -1, y: 5 };
    assert_eq!(cursor.displacement_from(cell), (4, -7));
    assert_eq!(cell.displacement_from(cursor), (-4, 7));
    assert_eq!(cursor.shifted(-5, 10), LogicalPosition { x: -2, y: 8 });
    assert_eq!(cursor.displacement_from(cursor), (0, 0));
    assert_eq!(cursor.shifted(0, 0), cursor);
}

#[test]
fn shifting_by_a_displacement_lands_on_the_origin_of_it() {
    let from = LogicalPosition { x: i64::MAX - 3, y: 17 };
    let to = LogicalPosition { x: 9, y: -40 };
    let (dx, dy) = from.displacement_from(to);
    assert_eq!(to.shifted(dx, dy), from);
    let moved = to.shifted(-12, 6);
    assert_eq!(moved.displacement_from(to), (-12, 6));
}

#[test]
fn tile_positions_compare_by_fields() {
    let a = TilePosition { cell: LogicalPosition { x: 1, y: 2 }, x: 3, y: 4 };
    let b = a;
    assert_eq!(a, b);
    assert_ne!(a, TilePosition { x: 5, ..a });
}
