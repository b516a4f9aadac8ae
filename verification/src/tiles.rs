use vstd::prelude::*;

use rand::RngExt;
use rand::SeedableRng;
use rand_chacha::ChaCha8Rng;

verus! {

/// The whole state of a ChaCha8 generator: its key, its stream number, and
/// its offset into the stream in 32-bit words. These three values decide
/// every value the generator gives from here on.
#[derive(Debug, Clone, Copy, PartialEq, Eq)]
pub struct RngState {
    pub seed: [u8; 32],
    pub stream: u64,
    pub word_pos: u128,
}

/// The state `(key, stream, word position)` that
/// `ChaCha8Rng::seed_from_u64(seed)` starts in.
pub uninterp spec fn chacha8_seeded(seed: u64) -> (Seq<u8>, u64, u128);

/// The value that `random_range(low..high)` draws from a ChaCha8 generator in
/// state `(key, stream, word_pos)`, and the word position it leaves it at.
pub uninterp spec fn chacha8_draw_u16(
    key: Seq<u8>,
    stream: u64,
    word_pos: u128,
    low: u16,
    high: u16,
) -> (u16, u128);

/// Rolls are drawn from `0..TILE_ROLLS`; a roll of 0 leaves the tile blank.
pub const TILE_ROLLS: u16 = 15;

/// Layers stacked in the tileset image.
pub const TILESET_LAYERS: u16 = 16;

/// The tileset layer that a roll shows, or `None` for a blank tile.
pub open spec fn tile_from_roll(roll: u16) -> Option<u16> {
    if roll == 0 {
        None
    } else {
        Some((roll - 1) as u16)
    }
}

/// Whether a tile shows nothing or a layer that a roll in `0..TILE_ROLLS` can give.
pub open spec fn tile_in_tileset(tile: Option<u16>) -> bool {
    match tile {
        Some(layer) => layer < TILE_ROLLS - 1,
        None => true,
    }
}

/// The state of `ChaCha8Rng::seed_from_u64(seed)` (rand_core's
/// `SeedableRng::seed_from_u64`, rand_chacha's `from_seed`), read back with
/// `get_seed`, `get_stream` and `get_word_pos`. It is claimed to be
/// `chacha8_seeded(seed)`: seeding is deterministic.
#[verifier::external_body]
pub(crate) fn seeded_state(seed: u64) -> (state: RngState)
    ensures
        (state.seed@, state.stream, state.word_pos) == chacha8_seeded(seed),
{
    let rng = ChaCha8Rng::seed_from_u64(seed);
    RngState { seed: rng.get_seed(), stream: rng.get_stream(), word_pos: rng.get_word_pos() }
}

/// One `RngExt::random_range(low..high)` on the ChaCha8 generator in `state`,
/// rebuilt with `from_seed`, `set_stream` and `set_word_pos`; the word position
/// is read back with `get_word_pos`. It is claimed that the draw and the new
/// position are `chacha8_draw_u16` of the state and the range, that the key and
/// stream stay, and that the value lies in `low..high` (`random_range` panics
/// only on an empty range).
#[verifier::external_body]
fn draw_u16(state: &mut RngState, low: u16, high: u16) -> (r: u16)
    requires
        low < high,
    ensures
        (r, final(state).word_pos) == chacha8_draw_u16(
            old(state).seed@,
            old(state).stream,
            old(state).word_pos,
            low,
            high,
        ),
        final(state).seed == old(state).seed,
        final(state).stream == old(state).stream,
        low <= r < high,
{
    let mut rng = ChaCha8Rng::from_seed(state.seed);
    rng.set_stream(state.stream);
    rng.set_word_pos(state.word_pos);
    let r = rng.random_range(low..high);
    state.word_pos = rng.get_word_pos();
    r
}

/// The first `count` rolls in `0..TILE_ROLLS` that a generator with key `key`
/// on stream `stream` deals from word position `word_pos`, and the word
/// position it stops at.
pub open spec fn rolls_from(key: Seq<u8>, stream: u64, word_pos: u128, count: nat) -> (Seq<u16>, u128)
    decreases count,
{
    if count == 0 {
        (Seq::empty(), word_pos)
    } else {
        let (earlier, pos) = rolls_from(key, stream, word_pos, (count - 1) as nat);
        let (roll, next) = chacha8_draw_u16(key, stream, pos, 0, TILE_ROLLS);
        (earlier.push(roll), next)
    }
}

/// `count` rolls in `0..TILE_ROLLS` dealt by the generator in `state`, which
/// is left after the last of them.
pub fn roll_tiles(state: &mut RngState, count: usize) -> (rolls: Vec<u16>)
    ensures
        (rolls@, final(state).word_pos) == rolls_from(
            old(state).seed@,
            old(state).stream,
            old(state).word_pos,
            count as nat,
        ),
        final(state).seed == old(state).seed,
        final(state).stream == old(state).stream,
        rolls@.len() == count,
        forall|i: int| 0 <= i < count ==> #[trigger] rolls@[i] < TILE_ROLLS,
        forall|i: int|
            0 <= i < count ==> #[trigger] rolls@[i] == chacha8_draw_u16(
                old(state).seed@,
                old(state).stream,
                rolls_from(old(state).seed@, old(state).stream, old(state).word_pos, i as nat).1,
                0,
                TILE_ROLLS,
            ).0,
{
    let ghost start = *state;
    let mut rolls: Vec<u16> = Vec::new();
    for i in 0..count
        invariant
            (rolls@, state.word_pos) == rolls_from(
                start.seed@,
                start.stream,
                start.word_pos,
                i as nat,
            ),
            state.seed == start.seed,
            state.stream == start.stream,
            rolls@.len() == i,
            forall|j: int| 0 <= j < i ==> #[trigger] rolls@[j] < TILE_ROLLS,
    {
        let roll = draw_u16(state, 0, TILE_ROLLS);
        rolls.push(roll);
    }
    proof {
        assert forall|i: int| 0 <= i < count implies #[trigger] rolls@[i] == chacha8_draw_u16(
            start.seed@,
            start.stream,
            rolls_from(start.seed@, start.stream, start.word_pos, i as nat).1,
            0,
            TILE_ROLLS,
        ).0 by {
            lemma_roll_is_fresh_draw(start.seed@, start.stream, start.word_pos, count as nat, i as nat);
        }
    }
    rolls
}

/// The tile each roll shows: blank for 0, layer `roll - 1` otherwise.
pub fn tile_data_from_rolls(rolls: &Vec<u16>) -> (tiles: Vec<Option<u16>>)
    ensures
        tiles@.len() == rolls@.len(),
        forall|i: int| 0 <= i < rolls@.len() ==> #[trigger] tiles@[i] == tile_from_roll(rolls@[i]),
        forall|i: int| 0 <= i < rolls@.len() ==> (#[trigger] tiles@[i] is None <==> rolls@[i] == 0),
        forall|i: int|
            0 <= i < rolls@.len() && rolls@[i] != 0 ==> #[trigger] tiles@[i] == Some(
                (rolls@[i] - 1) as u16,
            ),
{
    let mut tiles: Vec<Option<u16>> = Vec::new();
    for i in 0..rolls.len()
        invariant
            tiles@.len() == i,
            forall|j: int| 0 <= j < i ==> #[trigger] tiles@[j] == tile_from_roll(rolls@[j]),
    {
        let roll = rolls[i];
        if roll == 0 {
            tiles.push(None);
        } else {
            tiles.push(Some(roll - 1));
        }
    }
    tiles
}

/// Every roll in `0..TILE_ROLLS` shows a blank tile or a layer of the tileset.
pub proof fn lemma_rolls_show_tileset_layers(roll: u16)
    requires
        roll < TILE_ROLLS,
    ensures
        tile_in_tileset(tile_from_roll(roll)),
        match tile_from_roll(roll) {
            Some(layer) => layer < TILESET_LAYERS,
            None => true,
        },
{
}

/// Only roll 0 shows a blank tile; every other roll `r` in `0..TILE_ROLLS`
/// shows tileset layer `r - 1`, so the rolls `1..TILE_ROLLS` show the layers
/// `0..TILE_ROLLS - 1` one to one.
pub proof fn lemma_only_roll_zero_is_blank(roll: u16)
    requires
        roll < TILE_ROLLS,
    ensures
        tile_from_roll(roll) is None <==> roll == 0,
        roll != 0 ==> tile_from_roll(roll) == Some((roll - 1) as u16),
        roll != 0 ==> tile_from_roll(roll).unwrap() + 1 == roll,
{
}

/// Rolling is a plain sequence of fresh draws: rolling `a + b` tiles deals
/// the `a` rolls of the first part followed by the `b` rolls dealt from where
/// the first part left the generator, and ends where the second part ends.
pub proof fn lemma_rolls_compose(key: Seq<u8>, stream: u64, word_pos: u128, a: nat, b: nat)
    ensures
        ({
            let (first, mid) = rolls_from(key, stream, word_pos, a);
            let (second, end) = rolls_from(key, stream, mid, b);
            rolls_from(key, stream, word_pos, a + b) == (first + second, end)
        }),
    decreases b,
{
    let (first, mid) = rolls_from(key, stream, word_pos, a);
    if b == 0 {
        assert(first + Seq::<u16>::empty() =~= first);
    } else {
        lemma_rolls_compose(key, stream, word_pos, a, (b - 1) as nat);
        let (second, end) = rolls_from(key, stream, mid, (b - 1) as nat);
        let (roll, next) = chacha8_draw_u16(key, stream, end, 0, TILE_ROLLS);
        assert((first + second).push(roll) =~= first + second.push(roll));
        assert((a + b - 1) as nat == a + (b - 1) as nat);
    }
}

/// Rolling one tile is one draw of `random_range(0..TILE_ROLLS)`.
pub proof fn lemma_one_roll_is_one_draw(key: Seq<u8>, stream: u64, word_pos: u128)
    ensures
        ({
            let (roll, next) = chacha8_draw_u16(key, stream, word_pos, 0, TILE_ROLLS);
            rolls_from(key, stream, word_pos, 1) == (seq![roll], next)
        }),
{
    assert(rolls_from(key, stream, word_pos, 0) == (Seq::<u16>::empty(), word_pos));
    assert(Seq::<u16>::empty().push(
        chacha8_draw_u16(key, stream, word_pos, 0, TILE_ROLLS).0,
    ) =~= seq![chacha8_draw_u16(key, stream, word_pos, 0, TILE_ROLLS).0]);
}

/// Roll `i` of any deal is a fresh draw of `random_range(0..TILE_ROLLS)` at
/// the word position the first `i` rolls left, and there are exactly `count`
/// rolls.
pub proof fn lemma_roll_is_fresh_draw(key: Seq<u8>, stream: u64, word_pos: u128, count: nat, i: nat)
    requires
        i < count,
    ensures
        rolls_from(key, stream, word_pos, count).0.len() == count,
        rolls_from(key, stream, word_pos, count).0[i as int] == chacha8_draw_u16(
            key,
            stream,
            rolls_from(key, stream, word_pos, i).1,
            0,
            TILE_ROLLS,
        ).0,
        rolls_from(key, stream, word_pos, i + 1).1 == chacha8_draw_u16(
            key,
            stream,
            rolls_from(key, stream, word_pos, i).1,
            0,
            TILE_ROLLS,
        ).1,
{
    lemma_rolls_length(key, stream, word_pos, count);
    lemma_rolls_length(key, stream, word_pos, i);
    let mid = rolls_from(key, stream, word_pos, i).1;
    lemma_rolls_compose(key, stream, word_pos, i, (count - i) as nat);
    lemma_rolls_compose(key, stream, word_pos, i, 1);
    lemma_one_roll_is_one_draw(key, stream, mid);
    lemma_rolls_compose(key, stream, mid, 1, (count - i - 1) as nat);
    assert((i + (count - i) as nat) as nat == count);
    assert((1 + (count - i - 1) as nat) as nat == (count - i) as nat);
}

/// A deal of `count` rolls holds `count` rolls.
pub proof fn lemma_rolls_length(key: Seq<u8>, stream: u64, word_pos: u128, count: nat)
    ensures
        rolls_from(key, stream, word_pos, count).0.len() == count,
    decreases count,
{
    if count > 0 {
        lemma_rolls_length(key, stream, word_pos, (count - 1) as nat);
    }
}

} // verus!
