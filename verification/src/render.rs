//! Drawing a board as text: one line per row, each cell as its character
//! followed by a blank.

use crate::board::{Board, Cell, Grid};
use vstd::prelude::*;

verus! {

/// The text of one row: for each cell its character and a blank.
pub open spec fn line_text(line: Seq<Cell>) -> Seq<char>
    decreases line.len(),
{
    if line.len() == 0 {
        Seq::empty()
    } else {
        line_text(line.drop_last()) + seq![line.last().glyph(), ' ']
    }
}

/// The text of some rows: each row's text and then a line feed.
pub open spec fn rows_text(rows: Seq<Seq<Cell>>) -> Seq<char>
    decreases rows.len(),
{
    if rows.len() == 0 {
        Seq::empty()
    } else {
        rows_text(rows.drop_last()) + line_text(rows.last()) + seq!['\n']
    }
}

impl Grid {
    /// The grid drawn as text.
    pub open spec fn text(self) -> Seq<char> {
        rows_text(self.rows)
    }
}

/// The two characters that one cell is drawn with.
fn cell_text(cell: Cell) -> (s: &'static str)
    ensures
        s@ == seq![cell.glyph(), ' '],
{
    proof {
        reveal_strlit("~ ");
        reveal_strlit("A ");
        reveal_strlit("B ");
        reveal_strlit("C ");
        reveal_strlit("S ");
        reveal_strlit("D ");
        reveal_strlit("M ");
        reveal_strlit("X ");
        reveal_strlit("O ");
    }
    let s = match cell {
        Cell::Empty => "~ ",
        Cell::ShipSegment(kind) => match kind.symbol() {
            'A' => "A ",
            'B' => "B ",
            'C' => "C ",
            'S' => "S ",
            _ => "D ",
        },
        Cell::MissileToken => "M ",
        Cell::Hit => "X ",
        Cell::Miss => "O ",
    };
    assert(s@ =~= seq![cell.glyph(), ' ']);
    s
}

/// Draws the board as text, one line per row from the top, each line ended
/// by a line feed.
pub fn display_board(board: &Board) -> (text: String)
    requires
        board@.wf(),
    ensures
        text@ == board@.text(),
{
    let size = board.size();
    let mut text = String::new();
    let mut row: usize = 0;
    while row < size
        invariant
            board@.wf(),
            size == board@.size(),
            row <= size,
            text@ == rows_text(board@.rows.take(row as int)),
        decreases size - row,
    {
        let ghost done = text@;
        let ghost line = board@.rows[row as int];
        let mut col: usize = 0;
        assert(line.len() == size);
        while col < size
            invariant
                board@.wf(),
                size == board@.size(),
                row < size,
                col <= size,
                line == board@.rows[row as int],
                line.len() == size,
                text@ == done + line_text(line.take(col as int)),
            decreases size - col,
        {
            let cell = board.peek(col, row);
            proof {
                assert(line.take(col + 1).drop_last() =~= line.take(col as int));
                assert(line.take(col + 1).last() == cell);
            }
            text.append(cell_text(cell));
            col += 1;
            assert(text@ =~= done + line_text(line.take(col as int)));
        }
        proof {
            reveal_strlit("\n");
        }
        text.append("\n");
        proof {
            assert(line.take(size as int) =~= line);
            let rows = board@.rows;
            assert(rows.take(row + 1).drop_last() =~= rows.take(row as int));
            assert(rows.take(row + 1).last() == line);
            assert("\n"@ =~= seq!['\n']);
        }
        row += 1;
        assert(text@ =~= rows_text(board@.rows.take(row as int)));
    }
    assert(board@.rows.take(size as int) =~= board@.rows);
    text
}

} // verus!
