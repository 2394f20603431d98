//! Attack resolution: what one shot, or one area missile, does to a board.

use crate::board::{Board, Cell, Grid};
use crate::error::GameError;
use vstd::prelude::*;

verus! {

/// What an attack that was resolved reports.
#[derive(Clone, Copy, Debug, PartialEq, Eq, Structural)]
pub enum AttackOutcome {
    /// A ship segment was hit.
    Hit,
    /// The missile token was hit, and so collected.
    MissileCollected,
    /// The cell was empty.
    Miss,
    /// The cell had been attacked before; nothing changed.
    AlreadyAttacked,
    /// An area missile was spent on the block anchored at the target.
    AreaResolved,
}

impl AttackOutcome {
    /// Whether the attacker collected the missile token with this attack.
    pub open spec fn collects_missile(self) -> bool {
        self is MissileCollected
    }

    /// Whether the attacker records the target as hit rather than missed.
    pub open spec fn counts_as_hit(self) -> bool {
        self is Hit || self is MissileCollected
    }

    /// Whether the attacker collected the missile token with this attack.
    pub fn missile_collected(self) -> (collected: bool)
        ensures
            collected == self.collects_missile(),
    {
        match self {
            AttackOutcome::MissileCollected => true,
            _ => false,
        }
    }

    /// The words in which the outcome is announced to the players.
    pub open spec fn label(self) -> Seq<char> {
        match self {
            AttackOutcome::Hit => "Hit!"@,
            AttackOutcome::MissileCollected => "Missile collected!"@,
            AttackOutcome::Miss => "Miss!"@,
            AttackOutcome::AlreadyAttacked => "Already attacked here!"@,
            AttackOutcome::AreaResolved => "Special missile used!"@,
        }
    }

    /// The words in which the outcome is announced to the players.
    pub fn message(self) -> (text: &'static str)
        ensures
            text@ == self.label(),
    {
        match self {
            AttackOutcome::Hit => "Hit!",
            AttackOutcome::MissileCollected => "Missile collected!",
            AttackOutcome::Miss => "Miss!",
            AttackOutcome::AlreadyAttacked => "Already attacked here!",
            AttackOutcome::AreaResolved => "Special missile used!",
        }
    }

    /// The marker that the attacker puts on the tracking board at the target:
    /// `Hit` for a hit or a collected token, `Miss` for every other outcome.
    pub open spec fn mark(self) -> Cell {
        if self.counts_as_hit() {
            Cell::Hit
        } else {
            Cell::Miss
        }
    }

    /// The marker that the attacker puts on the tracking board at the target.
    pub fn marker(self) -> (cell: Cell)
        ensures
            cell == self.mark(),
    {
        match self {
            AttackOutcome::Hit => Cell::Hit,
            AttackOutcome::MissileCollected => Cell::Hit,
            _ => Cell::Miss,
        }
    }
}

impl Cell {
    /// The state of the cell after an attack has landed on it.
    pub open spec fn struck(self) -> Cell {
        match self {
            Cell::ShipSegment(_) => Cell::Hit,
            Cell::MissileToken => Cell::Hit,
            Cell::Empty => Cell::Miss,
            Cell::Hit => Cell::Hit,
            Cell::Miss => Cell::Miss,
        }
    }

    /// What a single shot at the cell reports.
    pub open spec fn verdict(self) -> AttackOutcome {
        match self {
            Cell::ShipSegment(_) => AttackOutcome::Hit,
            Cell::MissileToken => AttackOutcome::MissileCollected,
            Cell::Empty => AttackOutcome::Miss,
            Cell::Hit => AttackOutcome::AlreadyAttacked,
            Cell::Miss => AttackOutcome::AlreadyAttacked,
        }
    }

    /// Resolves one attack on the cell: its new state and what is reported.
    pub fn strike(self) -> (resolved: (Cell, AttackOutcome))
        ensures
            resolved.0 == self.struck(),
            resolved.1 == self.verdict(),
    {
        match self {
            Cell::ShipSegment(_) => (Cell::Hit, AttackOutcome::Hit),
            Cell::MissileToken => (Cell::Hit, AttackOutcome::MissileCollected),
            Cell::Empty => (Cell::Miss, AttackOutcome::Miss),
            Cell::Hit => (Cell::Hit, AttackOutcome::AlreadyAttacked),
            Cell::Miss => (Cell::Miss, AttackOutcome::AlreadyAttacked),
        }
    }
}

/// Whether column `c` of row `r` lies in the two-by-two block anchored at
/// column `col` of row `row`: the anchor, its right and lower neighbours, and
/// the cell diagonally below to the right.
pub open spec fn in_block(col: int, row: int, c: int, r: int) -> bool {
    col <= c <= col + 1 && row <= r <= row + 1
}

impl Grid {
    /// The grid after a single shot at column `col` of row `row`.
    pub open spec fn strike(self, col: int, row: int) -> Grid {
        self.with(col, row, self.at(col, row).struck())
    }

    /// The grid after an area missile anchored at column `col` of row `row`:
    /// every cell of the block that lies on the grid is struck, the rest of
    /// the block is skipped.
    pub open spec fn blast(self, col: int, row: int) -> Grid {
        Grid {
            rows: Seq::new(
                self.size(),
                |r: int|
                    Seq::new(
                        self.size(),
                        |c: int|
                            if in_block(col, row, c, r) {
                                self.at(c, r).struck()
                            } else {
                                self.at(c, r)
                            },
                    ),
            ),
        }
    }
}

/// Strikes the cell in column `col` of row `row` if the board has one there.
fn strike_within(board: &mut Board, col: usize, row: usize)
    requires
        old(board)@.wf(),
    ensures
        final(board)@.wf(),
        final(board)@ == if old(board)@.contains(col as int, row as int) {
            old(board)@.strike(col as int, row as int)
        } else {
            old(board)@
        },
{
    let size = board.size();
    if col < size && row < size {
        let (cell, _) = board.peek(col, row).strike();
        board.put(col, row, cell);
    }
}

/// Resolves one attack on `board` at column `col` of row `row`.
///
/// A target outside the board is refused with `OutOfBounds` and nothing
/// changes. A standard attack strikes the target cell and reports what was
/// there. With `use_special_missile` the two-by-two block anchored at the
/// target is struck, as far as it lies on the board, and the report is
/// `AreaResolved` whatever the block held.
pub fn play_turn(board: &mut Board, col: usize, row: usize, use_special_missile: bool) -> (result:
    Result<AttackOutcome, GameError>)
    requires
        old(board)@.wf(),
    ensures
        final(board)@.wf(),
        final(board)@.size() == old(board)@.size(),
        !old(board)@.contains(col as int, row as int) ==> result == Err::<
            AttackOutcome,
            GameError,
        >(GameError::OutOfBounds) && final(board)@ == old(board)@,
        old(board)@.contains(col as int, row as int) && !use_special_missile ==> result == Ok::<
            AttackOutcome,
            GameError,
        >(old(board)@.at(col as int, row as int).verdict()) && final(board)@ == old(board)@.strike(
            col as int,
            row as int,
        ),
        old(board)@.contains(col as int, row as int) && use_special_missile ==> result == Ok::<
            AttackOutcome,
            GameError,
        >(AttackOutcome::AreaResolved) && final(board)@ == old(board)@.blast(
            col as int,
            row as int,
        ),
{
    let size = board.size();
    if col >= size || row >= size {
        return Err(GameError::OutOfBounds);
    }
    if use_special_missile {
        strike_within(board, col, row);
        strike_within(board, col, row + 1);
        strike_within(board, col + 1, row);
        strike_within(board, col + 1, row + 1);
        assert(board@.rows =~~= old(board)@.blast(col as int, row as int).rows);
        return Ok(AttackOutcome::AreaResolved);
    }
    let (cell, outcome) = board.peek(col, row).strike();
    board.put(col, row, cell);
    Ok(outcome)
}

/// A single shot changes nothing but the target cell.
pub proof fn strike_touches_only_target(grid: Grid, col: int, row: int, c: int, r: int)
    requires
        grid.wf(),
        grid.contains(col, row),
        grid.contains(c, r),
    ensures
        grid.strike(col, row).wf(),
        grid.strike(col, row).at(c, r) == if c == col && r == row {
            grid.at(c, r).struck()
        } else {
            grid.at(c, r)
        },
{
}

/// An area missile anchored at the last cell of the last row strikes that
/// cell alone, as a single shot there would.
pub proof fn blast_in_corner_is_single_strike(grid: Grid)
    requires
        grid.wf(),
    ensures
        grid.blast(grid.size() - 1, grid.size() - 1) == grid.strike(
            grid.size() - 1,
            grid.size() - 1,
        ),
{
    let last = grid.size() - 1;
    assert(grid.blast(last, last).rows =~~= grid.strike(last, last).rows);
}

/// Once an attack has been resolved on a cell, a shot at it reports
/// `AlreadyAttacked` and leaves the whole grid as it is.
pub proof fn resolved_cell_stays(grid: Grid, col: int, row: int)
    requires
        grid.wf(),
        grid.contains(col, row),
        grid.at(col, row).is_resolved(),
    ensures
        grid.at(col, row).verdict() == AttackOutcome::AlreadyAttacked,
        grid.strike(col, row) == grid,
{
    assert(grid.strike(col, row).rows =~~= grid.rows);
}

/// After a single shot at a cell, a second shot at it reports
/// `AlreadyAttacked` and changes nothing.
pub proof fn second_shot_is_idle(grid: Grid, col: int, row: int)
    requires
        grid.wf(),
        grid.contains(col, row),
    ensures
        grid.strike(col, row).at(col, row).is_resolved(),
        grid.strike(col, row).at(col, row).verdict() == AttackOutcome::AlreadyAttacked,
        grid.strike(col, row).strike(col, row) == grid.strike(col, row),
{
    let once = grid.strike(col, row);
    assert(once.strike(col, row).rows =~~= once.rows);
}

/// After an area missile, a shot at any cell of its block reports
/// `AlreadyAttacked` and changes nothing, and so does a second area missile
/// at the same anchor.
pub proof fn shot_after_blast_is_idle(grid: Grid, col: int, row: int, c: int, r: int)
    requires
        grid.wf(),
        grid.contains(col, row),
        grid.contains(c, r),
        in_block(col, row, c, r),
    ensures
        grid.blast(col, row).wf(),
        grid.blast(col, row).at(c, r).is_resolved(),
        grid.blast(col, row).at(c, r).verdict() == AttackOutcome::AlreadyAttacked,
        grid.blast(col, row).strike(c, r) == grid.blast(col, row),
        grid.blast(col, row).blast(col, row) == grid.blast(col, row),
{
    let once = grid.blast(col, row);
    assert(once.strike(c, r).rows =~~= once.rows);
    assert(once.blast(col, row).rows =~~= once.rows);
}

} // verus!
