//! Ship placement: the placement validator and the commit of an accepted
//! placement.

use crate::board::{any_ship, lemma_tally_with, ship_of, Board, Cell, Grid};
use crate::error::GameError;
use crate::fleet::ShipKind;
use vstd::prelude::*;

verus! {

/// Direction in which a ship runs from its origin.
#[derive(Clone, Copy, Debug, PartialEq, Eq, Structural)]
pub enum Orientation {
    /// Towards increasing columns.
    Horizontal,
    /// Towards increasing rows.
    Vertical,
}

/// Where a player asks to put a ship: the origin cell and the direction in
/// which the ship runs from there.
#[derive(Clone, Copy, Debug, PartialEq, Eq, Structural)]
pub struct Placement {
    pub col: usize,
    pub row: usize,
    pub orientation: Orientation,
}

impl Placement {
    /// Column and row of the `k`-th cell of the run, counted from the origin.
    pub open spec fn cell(self, k: int) -> (int, int) {
        match self.orientation {
            Orientation::Horizontal => (self.col + k, self.row as int),
            Orientation::Vertical => (self.col as int, self.row + k),
        }
    }

    /// Whether column `c` of row `r` is one of the first `len` cells of the
    /// run.
    pub open spec fn covers(self, len: nat, c: int, r: int) -> bool {
        match self.orientation {
            Orientation::Horizontal => r == self.row && self.col <= c < self.col + len,
            Orientation::Vertical => c == self.col && self.row <= r < self.row + len,
        }
    }
}

impl Grid {
    /// Whether every cell of a run of `len` cells lies on the grid.
    pub open spec fn fits(self, p: Placement, len: nat) -> bool {
        forall|c: int, r: int| #[trigger] p.covers(len, c, r) ==> self.contains(c, r)
    }

    /// Whether every cell of a run of `len` cells that lies on the grid is
    /// empty. The missile token counts as occupied.
    pub open spec fn clear(self, p: Placement, len: nat) -> bool {
        forall|c: int, r: int|
            #[trigger] p.covers(len, c, r) && self.contains(c, r) ==> self.at(c, r) == Cell::Empty
    }

    /// Whether a ship of kind `kind` may be put at `p`.
    pub open spec fn accepts(self, kind: ShipKind, p: Placement) -> bool {
        self.fits(p, kind.len()) && self.clear(p, kind.len())
    }

    /// What the placement validator answers: `OutOfBounds` if any cell of
    /// the run lies outside the grid, else `Overlap` if any cell of the run is
    /// occupied, else success.
    pub open spec fn placement_verdict(self, kind: ShipKind, p: Placement) -> Result<
        (),
        GameError,
    > {
        if !self.fits(p, kind.len()) {
            Err(GameError::OutOfBounds)
        } else if !self.clear(p, kind.len()) {
            Err(GameError::Overlap)
        } else {
            Ok(())
        }
    }

    /// The grid with the first `len` cells of the run turned into segments of
    /// the ship of kind `kind`.
    pub open spec fn lay(self, p: Placement, len: nat, kind: ShipKind) -> Grid {
        Grid {
            rows: Seq::new(
                self.size(),
                |r: int|
                    Seq::new(
                        self.size(),
                        |c: int|
                            if p.covers(len, c, r) {
                                Cell::ShipSegment(kind)
                            } else {
                                self.at(c, r)
                            },
                    ),
            ),
        }
    }

    /// The grid with the ship of kind `kind` put at `p`.
    pub open spec fn place(self, kind: ShipKind, p: Placement) -> Grid {
        self.lay(p, kind.len(), kind)
    }
}

/// Whether every cell of the run of the ship of kind `kind` at `p` lies on
/// the grid and holds a segment of that ship.
pub open spec fn run_holds(grid: Grid, kind: ShipKind, p: Placement) -> bool {
    forall|c: int, r: int| #[trigger]
        p.covers(kind.len(), c, r) ==> grid.contains(c, r) && grid.at(c, r) == Cell::ShipSegment(
            kind,
        )
}

/// Laying one more cell of a run is replacing that one cell.
proof fn lemma_lay_step(grid: Grid, p: Placement, k: nat, kind: ShipKind)
    requires
        grid.wf(),
        grid.fits(p, k + 1),
    ensures
        grid.lay(p, 0, kind) == grid,
        grid.lay(p, k, kind).wf(),
        grid.contains(p.cell(k as int).0, p.cell(k as int).1),
        grid.lay(p, k, kind).at(p.cell(k as int).0, p.cell(k as int).1) == grid.at(
            p.cell(k as int).0,
            p.cell(k as int).1,
        ),
        grid.lay(p, k + 1, kind) == grid.lay(p, k, kind).with(
            p.cell(k as int).0,
            p.cell(k as int).1,
            Cell::ShipSegment(kind),
        ),
{
    let (cx, cy) = p.cell(k as int);
    assert(p.covers(k + 1, cx, cy));
    assert(grid.lay(p, 0, kind).rows =~~= grid.rows);
    assert(grid.lay(p, k + 1, kind).rows =~~= grid.lay(p, k, kind).with(
        cx,
        cy,
        Cell::ShipSegment(kind),
    ).rows);
}

/// Laying a run of `len` cells on empty cells adds `len` to the tally of a
/// test that the new segments pass, and nothing to that of any other test
/// that empty cells fail.
pub proof fn lemma_lay_tally(
    grid: Grid,
    p: Placement,
    len: nat,
    kind: ShipKind,
    wanted: spec_fn(Cell) -> bool,
)
    requires
        grid.wf(),
        grid.fits(p, len),
        grid.clear(p, len),
        !wanted(Cell::Empty),
    ensures
        grid.lay(p, len, kind).wf(),
        grid.lay(p, len, kind).tally(wanted) == grid.tally(wanted) + if wanted(
            Cell::ShipSegment(kind),
        ) {
            len
        } else {
            0
        },
    decreases len,
{
    if len == 0 {
        assert(grid.lay(p, 0, kind).rows =~~= grid.rows);
    } else {
        let k = (len - 1) as nat;
        assert forall|c: int, r: int| #[trigger] p.covers(k, c, r) implies grid.contains(c, r) by {
            assert(p.covers(len, c, r));
        }
        assert forall|c: int, r: int| #[trigger]
            p.covers(k, c, r) && grid.contains(c, r) implies grid.at(c, r) == Cell::Empty by {
            assert(p.covers(len, c, r));
        }
        lemma_lay_tally(grid, p, k, kind, wanted);
        lemma_lay_step(grid, p, k, kind);
        let (cx, cy) = p.cell(k as int);
        assert(p.covers(len, cx, cy));
        lemma_tally_with(grid.lay(p, k, kind), cx, cy, Cell::ShipSegment(kind), wanted);
    }
}

/// The placement validator: whether a ship of kind `kind` may be put at `p`,
/// and if not, why. The board is only read.
pub fn check_placement(board: &Board, kind: ShipKind, p: Placement) -> (verdict: Result<
    (),
    GameError,
>)
    requires
        board@.wf(),
    ensures
        verdict == board@.placement_verdict(kind, p),
{
    let size = board.size();
    let len = kind.size();
    let inside = p.col < size && p.row < size && match p.orientation {
        Orientation::Horizontal => len <= size - p.col,
        Orientation::Vertical => len <= size - p.row,
    };
    if !inside {
        proof {
            if p.col >= size || p.row >= size {
                assert(p.covers(len as nat, p.col as int, p.row as int));
            } else {
                let (cx, cy) = p.cell(len - 1);
                assert(p.covers(len as nat, cx, cy));
                assert(!board@.contains(cx, cy));
            }
        }
        return Err(GameError::OutOfBounds);
    }
    let mut k: usize = 0;
    while k < len
        invariant
            board@.wf(),
            size == board@.size(),
            len == kind.len(),
            k <= len,
            board@.fits(p, len as nat),
            p.col < size && p.row < size,
            match p.orientation {
                Orientation::Horizontal => len <= size - p.col,
                Orientation::Vertical => len <= size - p.row,
            },
            board@.clear(p, k as nat),
        decreases len - k,
    {
        let cell = match p.orientation {
            Orientation::Horizontal => board.peek(p.col + k, p.row),
            Orientation::Vertical => board.peek(p.col, p.row + k),
        };
        proof {
            let (cx, cy) = p.cell(k as int);
            assert(p.covers(len as nat, cx, cy));
            assert(cell == board@.at(cx, cy));
        }
        match cell {
            Cell::Empty => {},
            _ => {
                return Err(GameError::Overlap);
            },
        }
        k += 1;
        proof {
            let (cx, cy) = p.cell(k - 1);
            assert(board@.at(cx, cy) == Cell::Empty);
            assert forall|c: int, r: int| #[trigger]
                p.covers(k as nat, c, r) && board@.contains(c, r) implies board@.at(c, r)
                == Cell::Empty by {
                if !(c == cx && r == cy) {
                    assert(p.covers((k - 1) as nat, c, r));
                }
            }
        }
    }
    Ok(())
}

/// Puts the ship of kind `kind` at `p`, or refuses and leaves the board as
/// it was.
///
/// The placement is validated as a whole before any cell is written:
/// `OutOfBounds` if any cell of the run lies outside the board, else
/// `Overlap` if any cell of the run is occupied by a ship or by the missile
/// token. On success every cell of the run holds a segment of the ship and
/// no other cell has changed.
pub fn place_ship(board: &mut Board, kind: ShipKind, p: Placement) -> (result: Result<
    (),
    GameError,
>)
    requires
        old(board)@.wf(),
    ensures
        final(board)@.wf(),
        result == old(board)@.placement_verdict(kind, p),
        result is Ok ==> final(board)@ == old(board)@.place(kind, p),
        result is Err ==> final(board)@ == old(board)@,
        result is Ok ==> run_holds(final(board)@, kind, p),
        result is Ok ==> final(board)@.ship_cells() == old(board)@.ship_cells() + kind.len(),
        result is Ok ==> forall|other: ShipKind|
            (#[trigger] final(board)@.cells_of(other)) == old(board)@.cells_of(other) + if other
                == kind {
                kind.len()
            } else {
                0
            },
{
    let verdict = check_placement(board, kind, p);
    if let Err(e) = verdict {
        return Err(e);
    }
    let ghost base = board@;
    let len = kind.size();
    let mut k: usize = 0;
    assert(base.lay(p, 0, kind).rows =~~= base.rows);
    while k < len
        invariant
            base.wf(),
            base.fits(p, len as nat),
            len == kind.len(),
            k <= len,
            board@.wf(),
            board@ == base.lay(p, k as nat, kind),
        decreases len - k,
    {
        proof {
            assert forall|c: int, r: int| #[trigger]
                p.covers((k + 1) as nat, c, r) implies base.contains(c, r) by {
                assert(p.covers(len as nat, c, r));
            }
            lemma_lay_step(base, p, k as nat, kind);
        }
        match p.orientation {
            Orientation::Horizontal => board.put(p.col + k, p.row, Cell::ShipSegment(kind)),
            Orientation::Vertical => board.put(p.col, p.row + k, Cell::ShipSegment(kind)),
        }
        k += 1;
    }
    proof {
        lemma_lay_tally(base, p, len as nat, kind, any_ship());
        assert forall|other: ShipKind|
            (#[trigger] board@.cells_of(other)) == base.cells_of(other) + if other == kind {
                kind.len()
            } else {
                0
            } by {
            lemma_lay_tally(base, p, len as nat, kind, ship_of(other));
        }
    }
    Ok(())
}

} // verus!
