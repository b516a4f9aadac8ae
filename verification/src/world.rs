use vstd::prelude::*;

use crate::cell::{initial_cell_positions, initial_cells, has_initial_bombs, Cell};
use crate::tiles::{
    chacha8_seeded, roll_tiles, rolls_from, seeded_state, tile_data_from_rolls, tile_from_roll,
    tile_in_tileset, RngState,
};

verus! {

/// The seed of the field's generator, fixed so that every run deals the same field.
pub const RANDOM_SEED: u64 = 34;

/// Tiles in the tilemap chunk drawn for one cell: `CELL_SIZE` squared.
pub const CHUNK_TILES: usize = 256;

/// The rolls a new field deals, one per tile of a chunk, from the generator
/// seeded with `RANDOM_SEED`, and the word position the generator stops at.
pub open spec fn field_deal() -> (Seq<u16>, u128) {
    let (key, stream, word_pos) = chacha8_seeded(RANDOM_SEED);
    rolls_from(key, stream, word_pos, CHUNK_TILES as nat)
}

/// The tiles a new field shows: the tile of each roll of `field_deal`.
pub open spec fn field_tiles() -> Seq<Option<u16>> {
    field_deal().0.map_values(|roll: u16| tile_from_roll(roll))
}

/// Everything a new game starts from.
pub struct InitialWorld {
    /// The cells of the field, fresh, in the order of `initial_cell_positions`.
    pub cells: Vec<Cell>,
    /// The tile shown at each position of a chunk, row by row: a tileset
    /// layer, or `None` for a blank tile.
    pub tile_data: Vec<Option<u16>>,
    /// The generator, seeded with `RANDOM_SEED`, after dealing `tile_data`.
    pub rng: RngState,
}

/// Deals a new field: seeds the generator with `RANDOM_SEED`, rolls one tile
/// for each of the `CHUNK_TILES` positions of a chunk, and lays out the
/// initial cells.
pub fn initial_world() -> (world: InitialWorld)
    ensures
        world.tile_data@ == field_tiles(),
        world.tile_data@.len() == CHUNK_TILES,
        forall|i: int| 0 <= i < CHUNK_TILES ==> tile_in_tileset(#[trigger] world.tile_data@[i]),
        world.rng.seed@ == chacha8_seeded(RANDOM_SEED).0,
        world.rng.stream == chacha8_seeded(RANDOM_SEED).1,
        world.rng.word_pos == field_deal().1,
        world.cells@.len() == initial_cell_positions().len(),
        forall|i: int|
            0 <= i < world.cells@.len() ==> {
                &&& (#[trigger] world.cells@[i]).logical_position == initial_cell_positions()[i]
                &&& world.cells@[i].state is Fresh
                &&& has_initial_bombs(world.cells@[i].bomb_locations)
            },
{
    let mut rng = seeded_state(RANDOM_SEED);
    let rolls = roll_tiles(&mut rng, CHUNK_TILES);
    let tile_data = tile_data_from_rolls(&rolls);
    assert(tile_data@ == field_tiles());
    let cells = initial_cells();
    InitialWorld { cells, tile_data, rng }
}

/// Every new field is the same: any two worlds as `initial_world` returns
/// them show equal tiles and hold generators in equal states.
pub proof fn lemma_field_is_deterministic(a: InitialWorld, b: InitialWorld)
    requires
        a.tile_data@ == field_tiles(),
        b.tile_data@ == field_tiles(),
        a.rng.seed@ == chacha8_seeded(RANDOM_SEED).0,
        b.rng.seed@ == chacha8_seeded(RANDOM_SEED).0,
        a.rng.stream == chacha8_seeded(RANDOM_SEED).1,
        b.rng.stream == chacha8_seeded(RANDOM_SEED).1,
        a.rng.word_pos == field_deal().1,
        b.rng.word_pos == field_deal().1,
    ensures
        a.tile_data@ == b.tile_data@,
        a.rng == b.rng,
{
    assert(a.rng.seed =~= b.rng.seed);
}

} // verus!
