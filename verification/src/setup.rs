//! Fleet setup: the five ships are placed in a fixed order from a stream of
//! attempts, each attempt being tried for the ship that is due.

use crate::board::{any_ship, lemma_rows_tally_zero, ship_of, Board, Cell, Grid};
use crate::fleet::{
    fleet, fleet_cells, fleet_cells_total, fleet_order, fleet_order_ranks, ShipKind, FLEET_CELLS,
    FLEET_LEN,
};
use crate::placement::{lemma_lay_tally, place_ship, run_holds, Placement};
use vstd::prelude::*;

verus! {

/// The mathematical model of a fleet setup in progress: the grid, and where
/// the ships placed so far lie. `runs[i]` is the placement of the `i`-th ship
/// of the placement order.
pub struct Setup {
    pub grid: Grid,
    pub runs: Seq<Placement>,
}

impl Setup {
    /// The setup before any ship is placed.
    pub open spec fn start(grid: Grid) -> Setup {
        Setup { grid, runs: Seq::empty() }
    }

    /// Whether all five ships have been placed.
    pub open spec fn is_complete(self) -> bool {
        self.runs.len() == FLEET_LEN
    }

    /// The setup after one attempt: if a ship is due and the grid accepts it
    /// at `p`, it is placed there and the next ship becomes due; otherwise
    /// nothing changes and the same ship stays due.
    pub open spec fn offer(self, p: Placement) -> Setup {
        if self.runs.len() < FLEET_LEN && self.grid.accepts(
            fleet_order()[self.runs.len() as int],
            p,
        ) {
            Setup {
                grid: self.grid.place(fleet_order()[self.runs.len() as int], p),
                runs: self.runs.push(p),
            }
        } else {
            self
        }
    }

    /// The setup after the attempts have been offered one after the other.
    pub open spec fn offer_all(self, attempts: Seq<Placement>) -> Setup
        decreases attempts.len(),
    {
        if attempts.len() == 0 {
            self
        } else {
            self.offer_all(attempts.drop_last()).offer(attempts.last())
        }
    }

    /// What holds of every setup that started from the grid `base`: each
    /// ship placed so far still holds every cell of its run, and the grid
    /// has gained exactly the cells of those ships.
    pub open spec fn sound(self, base: Grid) -> bool {
        &&& self.grid.wf()
        &&& self.grid.size() == base.size()
        &&& self.runs.len() <= FLEET_LEN
        &&& forall|i: int|
            0 <= i < self.runs.len() ==> run_holds(self.grid, fleet_order()[i], #[trigger] self.runs[i])
        &&& self.grid.ship_cells() == base.ship_cells() + fleet_cells(self.runs.len())
        &&& forall|kind: ShipKind|
            (#[trigger] self.grid.cells_of(kind)) == base.cells_of(kind) + if kind.rank()
                < self.runs.len() {
                kind.len()
            } else {
                0
            }
    }
}

/// One attempt keeps a setup sound.
pub proof fn lemma_offer_sound(s: Setup, base: Grid, p: Placement)
    requires
        s.sound(base),
    ensures
        s.offer(p).sound(base),
{
    let n = s.runs.len();
    fleet_order_ranks();
    if n < FLEET_LEN && s.grid.accepts(fleet_order()[n as int], p) {
        let kind = fleet_order()[n as int];
        let next = s.offer(p);
        lemma_lay_tally(s.grid, p, kind.len(), kind, any_ship());
        assert(fleet_cells(n + 1) == fleet_cells(n) + kind.len());
        assert forall|i: int| 0 <= i < next.runs.len() implies run_holds(
            next.grid,
            fleet_order()[i],
            #[trigger] next.runs[i],
        ) by {
            let ki = fleet_order()[i];
            let pi = next.runs[i];
            assert forall|c: int, r: int| #[trigger] pi.covers(ki.len(), c, r) implies next.grid.contains(
                c,
                r,
            ) && next.grid.at(c, r) == Cell::ShipSegment(ki) by {
                if i < n {
                    assert(pi == s.runs[i]);
                    assert(run_holds(s.grid, ki, s.runs[i]));
                    assert(s.grid.at(c, r) == Cell::ShipSegment(ki));
                    if p.covers(kind.len(), c, r) {
                        assert(s.grid.at(c, r) == Cell::Empty);
                    }
                } else {
                    assert(pi == p && ki == kind);
                    assert(s.grid.contains(c, r));
                }
            }
        }
        assert forall|other: ShipKind|
            (#[trigger] next.grid.cells_of(other)) == base.cells_of(other) + if other.rank()
                < next.runs.len() {
                other.len()
            } else {
                0
            } by {
            lemma_lay_tally(s.grid, p, kind.len(), kind, ship_of(other));
            assert(s.grid.cells_of(other) == base.cells_of(other) + if other.rank() < n {
                other.len()
            } else {
                0
            });
            assert(other == kind <==> other.rank() == n);
        }
    }
}

/// Every setup reached from a well-formed grid is sound.
pub proof fn lemma_offer_all_sound(base: Grid, attempts: Seq<Placement>)
    requires
        base.wf(),
    ensures
        Setup::start(base).offer_all(attempts).sound(base),
    decreases attempts.len(),
{
    if attempts.len() == 0 {
        assert(fleet_cells(0) == 0);
    } else {
        lemma_offer_all_sound(base, attempts.drop_last());
        lemma_offer_sound(Setup::start(base).offer_all(attempts.drop_last()), base, attempts.last());
    }
}

/// In a sound setup no cell belongs to two ships.
pub proof fn placed_ships_never_intersect(s: Setup, base: Grid, i: int, j: int, c: int, r: int)
    requires
        s.sound(base),
        0 <= i < s.runs.len(),
        0 <= j < s.runs.len(),
        i != j,
    ensures
        !(s.runs[i].covers(fleet_order()[i].len(), c, r) && s.runs[j].covers(
            fleet_order()[j].len(),
            c,
            r,
        )),
{
    fleet_order_ranks();
    let (ki, kj) = (fleet_order()[i], fleet_order()[j]);
    assert(ki.rank() != kj.rank());
    assert(run_holds(s.grid, ki, s.runs[i]));
    assert(run_holds(s.grid, kj, s.runs[j]));
}

/// A board that held no ship and on which the whole fleet has been set up
/// holds exactly seventeen ship cells, as many of each kind as that kind is
/// long; every ship holds each cell of its run, and no two ships share a
/// cell.
pub proof fn complete_setup_holds_whole_fleet(base: Grid, attempts: Seq<Placement>)
    requires
        base.wf(),
        base.ship_cells() == 0,
        Setup::start(base).offer_all(attempts).is_complete(),
    ensures
        ({
            let done = Setup::start(base).offer_all(attempts);
            &&& done.grid.wf()
            &&& done.grid.size() == base.size()
            &&& done.grid.ship_cells() == FLEET_CELLS
            &&& forall|kind: ShipKind| (#[trigger] done.grid.cells_of(kind)) == kind.len()
            &&& forall|i: int|
                0 <= i < FLEET_LEN ==> run_holds(done.grid, fleet_order()[i], #[trigger] done.runs[i])
            &&& forall|i: int, j: int, c: int, r: int|
                0 <= i < j < FLEET_LEN ==> !(#[trigger] done.runs[i].covers(
                    fleet_order()[i].len(),
                    c,
                    r,
                ) && #[trigger] done.runs[j].covers(fleet_order()[j].len(), c, r))
        }),
{
    let done = Setup::start(base).offer_all(attempts);
    lemma_offer_all_sound(base, attempts);
    fleet_cells_total();
    fleet_order_ranks();
    assert forall|kind: ShipKind| (#[trigger] done.grid.cells_of(kind)) == kind.len() by {
        lemma_rows_tally_zero(base.rows, any_ship());
        lemma_rows_tally_zero(base.rows, ship_of(kind));
        assert forall|r: int, c: int|
            0 <= r < base.rows.len() && 0 <= c < base.rows[r].len() implies !ship_of(kind)(
            #[trigger] base.rows[r][c],
        ) by {
            assert(!any_ship()(base.rows[r][c]));
        }
        assert(base.cells_of(kind) == 0);
    }
    assert forall|i: int, j: int, c: int, r: int| 0 <= i < j < FLEET_LEN implies !(
    #[trigger] done.runs[i].covers(fleet_order()[i].len(), c, r) && #[trigger] done.runs[j].covers(
        fleet_order()[j].len(),
        c,
        r,
    )) by {
        placed_ships_never_intersect(done, base, i, j, c, r);
    }
}

/// Sets up a fleet on `board` from a stream of attempts.
///
/// The ships are placed in the fixed placement order. Each attempt is tried
/// for the ship that is due: an attempt that the board accepts places that
/// ship and makes the next one due; a refused attempt changes nothing, and
/// the same ship stays due. Attempts that are left when the fleet is complete
/// are ignored. The result lists where the ships were placed, in placement
/// order; the fleet is complete when it has five entries.
pub fn place_all_ships(board: &mut Board, attempts: &Vec<Placement>) -> (runs: Vec<Placement>)
    requires
        old(board)@.wf(),
    ensures
        final(board)@.wf(),
        (Setup { grid: final(board)@, runs: runs@ }) == Setup::start(old(board)@).offer_all(
            attempts@,
        ),
        (Setup { grid: final(board)@, runs: runs@ }).sound(old(board)@),
        runs@.len() <= FLEET_LEN,
        final(board)@.ship_cells() == old(board)@.ship_cells() + fleet_cells(runs@.len()),
        runs@.len() == FLEET_LEN ==> final(board)@.ship_cells() == old(board)@.ship_cells()
            + FLEET_CELLS,
{
    let ghost base = board@;
    let order = fleet();
    let mut runs: Vec<Placement> = Vec::new();
    let mut i: usize = 0;
    proof {
        fleet_cells_total();
        lemma_offer_all_sound(base, attempts@.take(0));
    }
    while i < attempts.len()
        invariant
            i <= attempts.len(),
            base.wf(),
            order@ == fleet_order(),
            board@.wf(),
            (Setup { grid: board@, runs: runs@ }) == Setup::start(base).offer_all(
                attempts@.take(i as int),
            ),
            (Setup { grid: board@, runs: runs@ }).sound(base),
        decreases attempts.len() - i,
    {
        let ghost before = Setup { grid: board@, runs: runs@ };
        proof {
            assert(attempts@.take(i + 1).drop_last() =~= attempts@.take(i as int));
            assert(attempts@.take(i + 1).last() == attempts@[i as int]);
            lemma_offer_sound(before, base, attempts@[i as int]);
        }
        if runs.len() < order.len() {
            let kind = order[runs.len()];
            let p = attempts[i];
            match place_ship(board, kind, p) {
                Ok(()) => {
                    runs.push(p);
                },
                Err(_) => {},
            }
        }
        i += 1;
        assert((Setup { grid: board@, runs: runs@ }) == before.offer(attempts@[i - 1]));
    }
    proof {
        assert(attempts@.take(attempts@.len() as int) =~= attempts@);
    }
    runs
}

} // verus!
