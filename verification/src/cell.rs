use vstd::prelude::*;

use crate::position::LogicalPosition;

verus! {

/// Tiles along each side of a cell.
pub const CELL_SIZE: u8 = 16;

/// `CELL_SIZE` as an index bound.
pub const CELL_SIDE: usize = 16;

/// One flag per tile of a cell, indexed by row and then column.
pub type TilesArray = [[bool; CELL_SIDE]; CELL_SIDE];

#[verifier::external_type_specification]
#[verifier::external_body]
pub struct ExUtcDateTime(time::UtcDateTime);

/// The progress of play inside one cell.
pub enum CellState {
    Fresh,
    InProgress { revealed_tiles: TilesArray },
    LockedOut {
        lock_start_time: time::UtcDateTime,
        cause_tile: (usize, usize),
        revealed_tiles: TilesArray,
    },
    Solved,
}

/// A square of `CELL_SIZE` by `CELL_SIZE` tiles at a lattice position.
pub struct Cell {
    pub logical_position: LogicalPosition,
    pub state: CellState,
    pub bomb_locations: TilesArray,
}

/// Where a new cell hides its bombs: on the diagonal, every tile but the last.
pub open spec fn initial_bomb_at(row: int, col: int) -> bool {
    row == col && row < CELL_SIZE - 1
}

/// The flag at `row`, `col` of a tile array.
pub open spec fn tile_at(tiles: TilesArray, row: int, col: int) -> bool {
    tiles@[row]@[col]
}

/// The bomb layout every new cell starts with.
pub fn initial_bomb_locations() -> (bombs: TilesArray)
    ensures
        has_initial_bombs(bombs),
{
    let mut bombs: TilesArray = [[false; CELL_SIDE]; CELL_SIDE];
    for i in 1..CELL_SIDE
        invariant
            forall|row: int, col: int|
                0 <= row < CELL_SIZE && 0 <= col < CELL_SIZE ==> #[trigger] tile_at(bombs, row, col)
                    == (row == col && row < i - 1),
    {
        let ghost before = bombs;
        let mut row = bombs[i - 1];
        row[i - 1] = true;
        bombs[i - 1] = row;
        assert forall|r: int, c: int|
            0 <= r < CELL_SIZE && 0 <= c < CELL_SIZE implies #[trigger] tile_at(bombs, r, c) == (
            r == c && r < i) by {
            assert(tile_at(before, r, c) == (r == c && r < i - 1));
            if r != i - 1 {
                assert(bombs@[r] == before@[r]);
            }
        }
    }
    bombs
}

/// Whether `bombs` holds the layout of a new cell.
pub open spec fn has_initial_bombs(bombs: TilesArray) -> bool {
    forall|row: int, col: int|
        0 <= row < CELL_SIZE && 0 <= col < CELL_SIZE ==> #[trigger] tile_at(bombs, row, col)
            == initial_bomb_at(row, col)
}

/// Bombs among the first `cols` tiles of row `row`.
pub open spec fn bombs_in_row(tiles: TilesArray, row: int, cols: nat) -> nat
    decreases cols,
{
    if cols == 0 {
        0
    } else {
        bombs_in_row(tiles, row, (cols - 1) as nat) + if tile_at(tiles, row, cols - 1) {
            1nat
        } else {
            0nat
        }
    }
}

/// Bombs among the first `rows` rows of a tile array.
pub open spec fn bombs_in_rows(tiles: TilesArray, rows: nat) -> nat
    decreases rows,
{
    if rows == 0 {
        0
    } else {
        bombs_in_rows(tiles, (rows - 1) as nat) + bombs_in_row(tiles, rows - 1, CELL_SIZE as nat)
    }
}

/// Bombs in a whole tile array.
pub open spec fn bomb_count(tiles: TilesArray) -> nat {
    bombs_in_rows(tiles, CELL_SIZE as nat)
}

proof fn lemma_initial_row_count(tiles: TilesArray, row: int, cols: nat)
    requires
        has_initial_bombs(tiles),
        0 <= row < CELL_SIZE,
        cols <= CELL_SIZE,
    ensures
        bombs_in_row(tiles, row, cols) == if row < cols && row < CELL_SIZE - 1 {
            1nat
        } else {
            0nat
        },
    decreases cols,
{
    if cols > 0 {
        lemma_initial_row_count(tiles, row, (cols - 1) as nat);
        assert(tile_at(tiles, row, cols - 1) == initial_bomb_at(row, cols - 1));
    }
}

proof fn lemma_initial_rows_count(tiles: TilesArray, rows: nat)
    requires
        has_initial_bombs(tiles),
        rows <= CELL_SIZE,
    ensures
        bombs_in_rows(tiles, rows) == if rows < CELL_SIZE {
            rows
        } else {
            (CELL_SIZE - 1) as nat
        },
    decreases rows,
{
    if rows > 0 {
        lemma_initial_rows_count(tiles, (rows - 1) as nat);
        lemma_initial_row_count(tiles, rows - 1, CELL_SIZE as nat);
    }
}

/// A cell laid out with the initial bombs hides `CELL_SIZE - 1` of them, all
/// on its diagonal.
pub proof fn lemma_initial_bomb_count(tiles: TilesArray)
    requires
        has_initial_bombs(tiles),
    ensures
        bomb_count(tiles) == CELL_SIZE - 1,
        forall|row: int, col: int|
            0 <= row < CELL_SIZE && 0 <= col < CELL_SIZE && #[trigger] tile_at(tiles, row, col)
                ==> row == col,
{
    lemma_initial_rows_count(tiles, CELL_SIZE as nat);
}

/// The lattice positions of the cells a new field opens with, in order.
pub open spec fn initial_cell_positions() -> Seq<LogicalPosition> {
    seq![
        LogicalPosition { x: 0, y: 0 },
        LogicalPosition { x: 2, y: 0 },
        LogicalPosition { x: 2, y: 2 },
        LogicalPosition { x: -1i64, y: -1i64 },
    ]
}

/// A cell that nobody has played yet, at `position`.
fn fresh_cell(position: LogicalPosition, bombs: TilesArray) -> (cell: Cell)
    ensures
        cell.logical_position == position,
        cell.state is Fresh,
        cell.bomb_locations == bombs,
{
    Cell { logical_position: position, state: CellState::Fresh, bomb_locations: bombs }
}

/// The cells a new field opens with: one fresh cell at each of
/// `initial_cell_positions`, each with the initial bomb layout.
pub fn initial_cells() -> (cells: Vec<Cell>)
    ensures
        cells@.len() == initial_cell_positions().len(),
        forall|i: int|
            0 <= i < cells@.len() ==> {
                &&& (#[trigger] cells@[i]).logical_position == initial_cell_positions()[i]
                &&& cells@[i].state is Fresh
                &&& has_initial_bombs(cells@[i].bomb_locations)
            },
{
    let bombs = initial_bomb_locations();
    let mut cells: Vec<Cell> = Vec::new();
    cells.push(fresh_cell(LogicalPosition { x: 0, y: 0 }, bombs));
    cells.push(fresh_cell(LogicalPosition { x: 2, y: 0 }, bombs));
    cells.push(fresh_cell(LogicalPosition { x: 2, y: 2 }, bombs));
    cells.push(fresh_cell(LogicalPosition { x: -1, y: -1 }, bombs));
    cells
}

} // verus!
