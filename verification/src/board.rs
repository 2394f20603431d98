//! One player's board: a square grid of cells, its mathematical model, and
//! the counting of ship cells.

use crate::fleet::ShipKind;
use vstd::prelude::*;

verus! {

/// Smallest side length of a board.
pub const MIN_BOARD_SIZE: usize = 9;

/// Largest side length of a board.
pub const MAX_BOARD_SIZE: usize = 20;

/// State of one cell of a board.
#[derive(Clone, Copy, Debug, PartialEq, Eq, Structural)]
pub enum Cell {
    /// No ship, not attacked yet.
    Empty,
    /// Part of a ship that has not been hit.
    ShipSegment(ShipKind),
    /// The bonus pickup that grants one area attack.
    MissileToken,
    /// A ship segment or the token, after an attack landed on it.
    Hit,
    /// An empty cell after an attack landed on it.
    Miss,
}

impl Cell {
    /// Whether the cell holds part of a ship that is still afloat.
    pub open spec fn is_ship(self) -> bool {
        self is ShipSegment
    }

    /// Whether an attack has already been resolved on the cell.
    pub open spec fn is_resolved(self) -> bool {
        self is Hit || self is Miss
    }

    /// Character that stands for the cell when a board is drawn.
    pub open spec fn glyph(self) -> char {
        match self {
            Cell::Empty => '~',
            Cell::ShipSegment(kind) => kind.letter(),
            Cell::MissileToken => 'M',
            Cell::Hit => 'X',
            Cell::Miss => 'O',
        }
    }

    /// Character that stands for the cell when a board is drawn.
    pub fn symbol(self) -> (c: char)
        ensures
            c == self.glyph(),
    {
        match self {
            Cell::Empty => '~',
            Cell::ShipSegment(kind) => kind.symbol(),
            Cell::MissileToken => 'M',
            Cell::Hit => 'X',
            Cell::Miss => 'O',
        }
    }
}

/// The test that picks out the cells holding a ship segment.
pub open spec fn any_ship() -> spec_fn(Cell) -> bool {
    |c: Cell| c.is_ship()
}

/// The test that picks out the cells holding a segment of the ship of kind
/// `kind`.
pub open spec fn ship_of(kind: ShipKind) -> spec_fn(Cell) -> bool {
    |c: Cell| c == Cell::ShipSegment(kind)
}

/// Number of cells of `line` that satisfy `wanted`.
pub open spec fn line_tally(line: Seq<Cell>, wanted: spec_fn(Cell) -> bool) -> nat
    decreases line.len(),
{
    if line.len() == 0 {
        0
    } else {
        line_tally(line.drop_last(), wanted) + if wanted(line.last()) {
            1nat
        } else {
            0nat
        }
    }
}

/// Number of cells in all of `rows` that satisfy `wanted`.
pub open spec fn rows_tally(rows: Seq<Seq<Cell>>, wanted: spec_fn(Cell) -> bool) -> nat
    decreases rows.len(),
{
    if rows.len() == 0 {
        0
    } else {
        rows_tally(rows.drop_last(), wanted) + line_tally(rows.last(), wanted)
    }
}

/// The mathematical model of a board: its rows from top to bottom, each a
/// sequence of cells from left to right.
pub struct Grid {
    pub rows: Seq<Seq<Cell>>,
}

impl Grid {
    /// Side length of the grid.
    pub open spec fn size(self) -> nat {
        self.rows.len()
    }

    /// The grid is square and its side length is one that a game allows.
    pub open spec fn wf(self) -> bool {
        &&& MIN_BOARD_SIZE <= self.rows.len() <= MAX_BOARD_SIZE
        &&& forall|r: int|
            0 <= r < self.rows.len() ==> (#[trigger] self.rows[r]).len() == self.rows.len()
    }

    /// Whether column `col` of row `row` is a cell of the grid.
    pub open spec fn contains(self, col: int, row: int) -> bool {
        0 <= col < self.size() && 0 <= row < self.size()
    }

    /// The cell in column `col` of row `row`.
    pub open spec fn at(self, col: int, row: int) -> Cell {
        self.rows[row][col]
    }

    /// The grid with one cell replaced.
    pub open spec fn with(self, col: int, row: int, cell: Cell) -> Grid {
        Grid { rows: self.rows.update(row, self.rows[row].update(col, cell)) }
    }

    /// The grid of side `size` whose cells are all empty.
    pub open spec fn blank(size: nat) -> Grid {
        Grid { rows: Seq::new(size, |r: int| Seq::new(size, |c: int| Cell::Empty)) }
    }

    /// Whether every cell is empty.
    pub open spec fn is_blank(self) -> bool {
        forall|col: int, row: int|
            self.contains(col, row) ==> #[trigger] self.at(col, row) == Cell::Empty
    }

    /// Number of cells that satisfy `wanted`.
    pub open spec fn tally(self, wanted: spec_fn(Cell) -> bool) -> nat {
        rows_tally(self.rows, wanted)
    }

    /// Number of cells that hold a ship segment.
    pub open spec fn ship_cells(self) -> nat {
        self.tally(any_ship())
    }

    /// Number of cells that hold a segment of the ship of kind `kind`.
    pub open spec fn cells_of(self, kind: ShipKind) -> nat {
        self.tally(ship_of(kind))
    }

    /// Whether no ship segment is left on the grid.
    pub open spec fn fleet_sunk(self) -> bool {
        forall|col: int, row: int|
            self.contains(col, row) ==> !(#[trigger] self.at(col, row)).is_ship()
    }
}

/// Replacing one cell of a line changes its tally by what the old cell and
/// the new one count for.
pub proof fn lemma_line_tally_update(
    line: Seq<Cell>,
    i: int,
    cell: Cell,
    wanted: spec_fn(Cell) -> bool,
)
    requires
        0 <= i < line.len(),
    ensures
        line_tally(line.update(i, cell), wanted) + (if wanted(line[i]) {
            1nat
        } else {
            0nat
        }) == line_tally(line, wanted) + (if wanted(cell) {
            1nat
        } else {
            0nat
        }),
    decreases line.len(),
{
    let changed = line.update(i, cell);
    if i == line.len() - 1 {
        assert(changed.drop_last() =~= line.drop_last());
    } else {
        assert(changed.drop_last() =~= line.drop_last().update(i, cell));
        lemma_line_tally_update(line.drop_last(), i, cell, wanted);
    }
}

/// Replacing one row changes the tally of the rows by the difference of the
/// two rows' tallies.
pub proof fn lemma_rows_tally_update(
    rows: Seq<Seq<Cell>>,
    r: int,
    line: Seq<Cell>,
    wanted: spec_fn(Cell) -> bool,
)
    requires
        0 <= r < rows.len(),
    ensures
        rows_tally(rows.update(r, line), wanted) + line_tally(rows[r], wanted) == rows_tally(
            rows,
            wanted,
        ) + line_tally(line, wanted),
    decreases rows.len(),
{
    let changed = rows.update(r, line);
    if r == rows.len() - 1 {
        assert(changed.drop_last() =~= rows.drop_last());
    } else {
        assert(changed.drop_last() =~= rows.drop_last().update(r, line));
        lemma_rows_tally_update(rows.drop_last(), r, line, wanted);
    }
}

/// Replacing one cell of a grid changes a tally by what the old cell and the
/// new one count for.
pub proof fn lemma_tally_with(
    grid: Grid,
    col: int,
    row: int,
    cell: Cell,
    wanted: spec_fn(Cell) -> bool,
)
    requires
        grid.wf(),
        grid.contains(col, row),
    ensures
        grid.with(col, row, cell).wf(),
        grid.with(col, row, cell).tally(wanted) + (if wanted(grid.at(col, row)) {
            1nat
        } else {
            0nat
        }) == grid.tally(wanted) + (if wanted(cell) {
            1nat
        } else {
            0nat
        }),
{
    assert(grid.rows[row].len() == grid.rows.len());
    lemma_line_tally_update(grid.rows[row], col, cell, wanted);
    lemma_rows_tally_update(grid.rows, row, grid.rows[row].update(col, cell), wanted);
}

/// A line's tally is zero exactly when none of its cells is wanted.
pub proof fn lemma_line_tally_zero(line: Seq<Cell>, wanted: spec_fn(Cell) -> bool)
    ensures
        line_tally(line, wanted) == 0 <==> forall|i: int|
            0 <= i < line.len() ==> !wanted(#[trigger] line[i]),
    decreases line.len(),
{
    if line.len() > 0 {
        let front = line.drop_last();
        lemma_line_tally_zero(front, wanted);
        if line_tally(line, wanted) == 0 {
            assert forall|i: int| 0 <= i < line.len() implies !wanted(#[trigger] line[i]) by {
                if i < front.len() {
                    assert(front[i] == line[i]);
                }
            }
        }
        if forall|i: int| 0 <= i < line.len() ==> !wanted(#[trigger] line[i]) {
            assert forall|i: int| 0 <= i < front.len() implies !wanted(#[trigger] front[i]) by {
                assert(front[i] == line[i]);
            }
            assert(!wanted(line[line.len() - 1]));
        }
    }
}

/// The rows' tally is zero exactly when no cell of any row is wanted.
pub proof fn lemma_rows_tally_zero(rows: Seq<Seq<Cell>>, wanted: spec_fn(Cell) -> bool)
    ensures
        rows_tally(rows, wanted) == 0 <==> forall|r: int, c: int|
            0 <= r < rows.len() && 0 <= c < rows[r].len() ==> !wanted(#[trigger] rows[r][c]),
    decreases rows.len(),
{
    if rows.len() > 0 {
        let front = rows.drop_last();
        let tail = rows.last();
        lemma_rows_tally_zero(front, wanted);
        lemma_line_tally_zero(tail, wanted);
        if rows_tally(rows, wanted) == 0 {
            assert forall|r: int, c: int|
                0 <= r < rows.len() && 0 <= c < rows[r].len() implies !wanted(
                #[trigger] rows[r][c],
            ) by {
                if r < front.len() {
                    assert(front[r] == rows[r]);
                    assert(!wanted(front[r][c]));
                } else {
                    assert(!wanted(tail[c]));
                }
            }
        }
        if forall|r: int, c: int|
            0 <= r < rows.len() && 0 <= c < rows[r].len() ==> !wanted(#[trigger] rows[r][c]) {
            assert forall|r: int, c: int|
                0 <= r < front.len() && 0 <= c < front[r].len() implies !wanted(
                #[trigger] front[r][c],
            ) by {
                assert(front[r] == rows[r]);
                assert(!wanted(rows[r][c]));
            }
            assert forall|i: int| 0 <= i < tail.len() implies !wanted(#[trigger] tail[i]) by {
                assert(!wanted(rows[rows.len() - 1][i]));
            }
        }
    }
}

/// A grid's fleet is sunk exactly when it counts no ship cell.
pub proof fn lemma_sunk_iff_no_ship_cells(grid: Grid)
    requires
        grid.wf(),
    ensures
        grid.fleet_sunk() <==> grid.ship_cells() == 0,
{
    let wanted = any_ship();
    lemma_rows_tally_zero(grid.rows, wanted);
    if grid.fleet_sunk() {
        assert forall|r: int, c: int|
            0 <= r < grid.rows.len() && 0 <= c < grid.rows[r].len() implies !wanted(
            #[trigger] grid.rows[r][c],
        ) by {
            assert(grid.contains(c, r));
            assert(!grid.at(c, r).is_ship());
        }
    }
    if grid.ship_cells() == 0 {
        assert forall|col: int, row: int| grid.contains(col, row) implies !(#[trigger] grid.at(
            col,
            row,
        )).is_ship() by {
            assert(!wanted(grid.rows[row][col]));
        }
    }
}

/// One player's board.
#[derive(Clone, Debug)]
pub struct Board {
    rows: Vec<Vec<Cell>>,
}

impl View for Board {
    type V = Grid;

    closed spec fn view(&self) -> Grid {
        Grid { rows: Seq::new(self.rows@.len(), |r: int| self.rows@[r]@) }
    }
}

/// Creates the board of side `size` whose cells are all empty.
pub fn create_board(size: usize) -> (board: Board)
    requires
        MIN_BOARD_SIZE <= size <= MAX_BOARD_SIZE,
    ensures
        board@ == Grid::blank(size as nat),
        board@.wf(),
        board@.is_blank(),
        board@.ship_cells() == 0,
{
    let mut rows: Vec<Vec<Cell>> = Vec::new();
    let mut r: usize = 0;
    while r < size
        invariant
            r <= size,
            rows@.len() == r,
            forall|i: int|
                0 <= i < r ==> (#[trigger] rows@[i])@ == Seq::new(
                    size as nat,
                    |c: int| Cell::Empty,
                ),
        decreases size - r,
    {
        let mut line: Vec<Cell> = Vec::new();
        let mut c: usize = 0;
        while c < size
            invariant
                c <= size,
                line@.len() == c,
                forall|i: int| 0 <= i < c ==> #[trigger] line@[i] == Cell::Empty,
            decreases size - c,
        {
            line.push(Cell::Empty);
            c += 1;
        }
        assert(line@ =~= Seq::new(size as nat, |c: int| Cell::Empty));
        rows.push(line);
        r += 1;
    }
    let board = Board { rows };
    proof {
        assert(board@.rows =~= Grid::blank(size as nat).rows);
        lemma_sunk_iff_no_ship_cells(board@);
    }
    board
}

impl Board {
    /// Side length of the board.
    pub fn size(&self) -> (n: usize)
        ensures
            n == self@.size(),
    {
        self.rows.len()
    }

    /// The cell in column `col` of row `row`, if the board has one there.
    pub fn cell(&self, col: usize, row: usize) -> (found: Option<Cell>)
        requires
            self@.wf(),
        ensures
            found == if self@.contains(col as int, row as int) {
                Some(self@.at(col as int, row as int))
            } else {
                None
            },
    {
        let n = self.rows.len();
        if col < n && row < n {
            assert(self@.rows[row as int].len() == n);
            Some(self.rows[row][col])
        } else {
            None
        }
    }

    /// The cell in column `col` of row `row`.
    pub(crate) fn peek(&self, col: usize, row: usize) -> (cell: Cell)
        requires
            self@.wf(),
            self@.contains(col as int, row as int),
        ensures
            cell == self@.at(col as int, row as int),
    {
        assert(self@.rows[row as int].len() == self@.size());
        self.rows[row][col]
    }

    /// Replaces the cell in column `col` of row `row`.
    pub(crate) fn put(&mut self, col: usize, row: usize, cell: Cell)
        requires
            old(self)@.wf(),
            old(self)@.contains(col as int, row as int),
        ensures
            final(self)@ == old(self)@.with(col as int, row as int, cell),
            final(self)@.wf(),
    {
        assert(self@.rows[row as int].len() == self@.size());
        self.rows[row][col] = cell;
        assert(self@.rows =~= old(self)@.with(col as int, row as int, cell).rows);
    }

    /// Number of cells that hold a ship segment.
    pub fn ship_cells(&self) -> (n: usize)
        requires
            self@.wf(),
        ensures
            n == self@.ship_cells(),
    {
        let size = self.rows.len();
        let mut total: usize = 0;
        let mut r: usize = 0;
        while r < size
            invariant
                self@.wf(),
                size == self@.size(),
                r <= size,
                total == rows_tally(self@.rows.take(r as int), any_ship()),
                total <= r * size,
            decreases size - r,
        {
            let mut count: usize = 0;
            let mut c: usize = 0;
            assert(self@.rows[r as int].len() == size);
            while c < size
                invariant
                    self@.wf(),
                    size == self@.size(),
                    r < size,
                    c <= size,
                    self@.rows[r as int].len() == size,
                    count == line_tally(self@.rows[r as int].take(c as int), any_ship()),
                    count <= c,
                decreases size - c,
            {
                proof {
                    let line = self@.rows[r as int];
                    assert(line.take(c + 1).drop_last() =~= line.take(c as int));
                    assert(line.take(c + 1).last() == self.rows@[r as int]@[c as int]);
                }
                if let Cell::ShipSegment(_) = self.rows[r][c] {
                    count += 1;
                }
                c += 1;
            }
            proof {
                let line = self@.rows[r as int];
                assert(line.take(size as int) =~= line);
                let rows = self@.rows;
                assert(rows.take(r + 1).drop_last() =~= rows.take(r as int));
                assert(r * size + size == (r + 1) * size) by (nonlinear_arith);
                assert(r * size <= 20 * 20) by (nonlinear_arith)
                    requires
                        r < size,
                        size <= 20,
                ;
            }
            total += count;
            r += 1;
        }
        assert(self@.rows.take(size as int) =~= self@.rows);
        total
    }

    /// Whether no ship segment is left on the board.
    pub fn fleet_sunk(&self) -> (sunk: bool)
        requires
            self@.wf(),
        ensures
            sunk == self@.fleet_sunk(),
            sunk == (self@.ship_cells() == 0),
    {
        proof {
            lemma_sunk_iff_no_ship_cells(self@);
        }
        self.ship_cells() == 0
    }
}

} // verus!
