//! The fleet catalog: the five ship kinds, their sizes, and the order in
//! which a player places them.

use vstd::prelude::*;

verus! {

/// Number of ships in every player's fleet.
pub const FLEET_LEN: usize = 5;

/// Number of cells that a complete fleet occupies.
pub const FLEET_CELLS: usize = 17;

/// One of the five kinds of ship.
#[derive(Clone, Copy, Debug, PartialEq, Eq, Structural)]
pub enum ShipKind {
    Carrier,
    Battleship,
    Cruiser,
    Submarine,
    Destroyer,
}

impl ShipKind {
    /// Length of a ship of this kind, in cells.
    pub open spec fn len(self) -> nat {
        match self {
            ShipKind::Carrier => 5,
            ShipKind::Battleship => 4,
            ShipKind::Cruiser => 3,
            ShipKind::Submarine => 3,
            ShipKind::Destroyer => 2,
        }
    }

    /// Position of this kind in the placement order, counted from zero.
    pub open spec fn rank(self) -> nat {
        match self {
            ShipKind::Carrier => 0,
            ShipKind::Battleship => 1,
            ShipKind::Cruiser => 2,
            ShipKind::Submarine => 3,
            ShipKind::Destroyer => 4,
        }
    }

    /// Letter that stands for this kind when a board is drawn.
    pub open spec fn letter(self) -> char {
        match self {
            ShipKind::Carrier => 'A',
            ShipKind::Battleship => 'B',
            ShipKind::Cruiser => 'C',
            ShipKind::Submarine => 'S',
            ShipKind::Destroyer => 'D',
        }
    }

    /// Length of a ship of this kind, in cells.
    pub fn size(self) -> (n: usize)
        ensures
            n == self.len(),
    {
        match self {
            ShipKind::Carrier => 5,
            ShipKind::Battleship => 4,
            ShipKind::Cruiser => 3,
            ShipKind::Submarine => 3,
            ShipKind::Destroyer => 2,
        }
    }

    /// Letter that stands for this kind when a board is drawn.
    pub fn symbol(self) -> (c: char)
        ensures
            c == self.letter(),
    {
        match self {
            ShipKind::Carrier => 'A',
            ShipKind::Battleship => 'B',
            ShipKind::Cruiser => 'C',
            ShipKind::Submarine => 'S',
            ShipKind::Destroyer => 'D',
        }
    }
}

/// The fleet in placement order.
pub open spec fn fleet_order() -> Seq<ShipKind> {
    seq![
        ShipKind::Carrier,
        ShipKind::Battleship,
        ShipKind::Cruiser,
        ShipKind::Submarine,
        ShipKind::Destroyer,
    ]
}

/// Cells occupied by the first `n` ships of the fleet.
pub open spec fn fleet_cells(n: nat) -> nat
    decreases n,
{
    if n == 0 || n > fleet_order().len() {
        0
    } else {
        fleet_cells((n - 1) as nat) + fleet_order()[n - 1].len()
    }
}

/// The fleet in placement order.
pub fn fleet() -> (ships: Vec<ShipKind>)
    ensures
        ships@ == fleet_order(),
{
    let ships = vec![
        ShipKind::Carrier,
        ShipKind::Battleship,
        ShipKind::Cruiser,
        ShipKind::Submarine,
        ShipKind::Destroyer,
    ];
    assert(ships@ =~= fleet_order());
    ships
}

/// Every kind stands in the placement order at its rank, and nowhere else.
pub proof fn fleet_order_ranks()
    ensures
        fleet_order().len() == FLEET_LEN,
        forall|kind: ShipKind|
            (#[trigger] kind.rank()) < FLEET_LEN && fleet_order()[kind.rank() as int] == kind,
        forall|i: int| 0 <= i < FLEET_LEN ==> (#[trigger] fleet_order()[i]).rank() == i,
{
}

/// The whole fleet occupies seventeen cells.
pub proof fn fleet_cells_total()
    ensures
        fleet_order().len() == FLEET_LEN,
        fleet_cells(0) == 0,
        fleet_cells(1) == 5,
        fleet_cells(2) == 9,
        fleet_cells(3) == 12,
        fleet_cells(4) == 15,
        fleet_cells(5) == FLEET_CELLS,
{
    reveal_with_fuel(fleet_cells, 6);
}

} // verus!
