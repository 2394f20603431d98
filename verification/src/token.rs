//! The missile token placer: seeds one bonus token into a board from a
//! seeded random source.

use crate::board::{any_ship, lemma_tally_with, Board, Cell};
use crate::error::GameError;
use rand::rngs::StdRng;
use rand::{Rng, SeedableRng};
use vstd::prelude::*;

verus! {

/// Seed that a game uses for its token placement unless it is given another.
pub const DEFAULT_SEED: u64 = 21362241;

/// Number of random cells that the placer tries before it gives up.
pub const TOKEN_ATTEMPTS: usize = 10000;

/// The generator type `rand::rngs::StdRng`. Nothing is known of its state.
#[verifier::external_type_specification]
#[verifier::external_body]
pub struct ExStdRng(StdRng);

/// Calls `StdRng::seed_from_u64` of the rand crate, which builds a
/// generator from a 64-bit seed. Nothing is claimed of the generator.
#[verifier::external_body]
fn seeded_rng(seed: u64) -> StdRng {
    StdRng::seed_from_u64(seed)
}

/// Calls `Rng::gen_range` of the rand crate on the range from zero up to,
/// and not including, `bound`. The range must not be empty, or the call
/// panics. All that is claimed of the number drawn is that it lies in the
/// range.
#[verifier::external_body]
fn draw_below(rng: &mut StdRng, bound: usize) -> (n: usize)
    requires
        bound > 0,
    ensures
        n < bound,
{
    rng.gen_range(0..bound)
}

/// Puts the missile token into column `col` of row `row` if the board has an
/// empty cell there, and says whether it did.
pub fn place_token_at(board: &mut Board, col: usize, row: usize) -> (placed: bool)
    requires
        old(board)@.wf(),
    ensures
        final(board)@.wf(),
        placed == (old(board)@.contains(col as int, row as int) && old(board)@.at(
            col as int,
            row as int,
        ) == Cell::Empty),
        final(board)@ == if placed {
            old(board)@.with(col as int, row as int, Cell::MissileToken)
        } else {
            old(board)@
        },
{
    match board.cell(col, row) {
        Some(Cell::Empty) => {
            board.put(col, row, Cell::MissileToken);
            true
        },
        _ => false,
    }
}

/// Seeds one missile token into `board`.
///
/// A generator is built from `seed`, and cells are drawn from it, the column
/// first and then the row, until an empty cell comes up; that cell becomes
/// the token and its column and row are returned. After `TOKEN_ATTEMPTS`
/// draws without an empty cell the placer gives up with `PlacementExhausted`
/// and the board is as it was. On a board whose cells are all empty the first
/// draw succeeds.
pub fn place_missile_token(board: &mut Board, seed: u64) -> (result: Result<
    (usize, usize),
    GameError,
>)
    requires
        old(board)@.wf(),
    ensures
        final(board)@.wf(),
        final(board)@.size() == old(board)@.size(),
        final(board)@.ship_cells() == old(board)@.ship_cells(),
        match result {
            Ok((col, row)) => {
                &&& old(board)@.contains(col as int, row as int)
                &&& old(board)@.at(col as int, row as int) == Cell::Empty
                &&& final(board)@ == old(board)@.with(col as int, row as int, Cell::MissileToken)
            },
            Err(e) => e == GameError::PlacementExhausted && final(board)@ == old(board)@,
        },
        old(board)@.is_blank() ==> result is Ok,
{
    let size = board.size();
    let mut rng = seeded_rng(seed);
    let mut tries: usize = 0;
    while tries < TOKEN_ATTEMPTS
        invariant
            board@ == old(board)@,
            board@.wf(),
            size == board@.size(),
            tries <= TOKEN_ATTEMPTS,
            old(board)@.is_blank() ==> tries == 0,
        decreases TOKEN_ATTEMPTS - tries,
    {
        let col = draw_below(&mut rng, size);
        let row = draw_below(&mut rng, size);
        if place_token_at(board, col, row) {
            proof {
                lemma_tally_with(
                    old(board)@,
                    col as int,
                    row as int,
                    Cell::MissileToken,
                    any_ship(),
                );
            }
            return Ok((col, row));
        }
        assert(!old(board)@.is_blank()) by {
            assert(old(board)@.contains(col as int, row as int));
        }
        tries += 1;
    }
    Err(GameError::PlacementExhausted)
}

} // verus!
