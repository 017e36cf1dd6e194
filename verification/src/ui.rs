use crate::models::Position;
use vstd::prelude::*;

verus! {

/// Width of a cell in terminal columns, without its border.
pub const CELL_W: u16 = 4;
/// Height of a cell in terminal rows, without its border.
pub const CELL_H: u16 = 2;
pub const MIN_COLS: u16 = 5;
pub const MIN_ROWS: u16 = 4;
pub const MAX_COLS: u16 = 16;
pub const MAX_ROWS: u16 = 10;
pub const MARGIN_TOP: u16 = 2;
pub const MARGIN_BOTTOM: u16 = 4;
pub const MARGIN_SIDE: u16 = 2;

/// The terminal is too small for a board.
#[derive(Clone, Copy, Debug, PartialEq, Eq, Structural)]
pub enum BoardError {
    TooSmall { width: u16, height: u16 },
}

/// The layout of the grid on the terminal.
pub struct Board {
    pub cols: u16,
    pub rows: u16,
    pub origin_x: u16,
    pub origin_y: u16,
    pub term_w: u16,
}

/// `a - b`, or `0` when `b > a`.
pub open spec fn minus_sat(a: int, b: int) -> int {
    if b > a { 0 } else { a - b }
}

/// `v` limited to `lo..=hi`.
pub open spec fn clamped(v: int, lo: int, hi: int) -> int {
    if v < lo { lo } else if v > hi { hi } else { v }
}

/// The number of grid columns that fit a terminal `term_w` columns wide.
pub open spec fn cols_for(term_w: u16) -> int {
    clamped(minus_sat(minus_sat(term_w as int, 2 * MARGIN_SIDE) , 1) / (CELL_W + 1), MIN_COLS as int, MAX_COLS as int)
}

/// The number of grid rows that fit a terminal `term_h` rows high.
pub open spec fn rows_for(term_h: u16) -> int {
    clamped(minus_sat(minus_sat(term_h as int, MARGIN_TOP + MARGIN_BOTTOM), 1) / (CELL_H + 1), MIN_ROWS as int, MAX_ROWS as int)
}

/// The character where grid line `row` meets grid line `col` on a grid of `rows` by `cols`.
pub open spec fn junction(row: u16, col: u16, rows: u16, cols: u16) -> char {
    if row == 0 && col == 0 {
        '┌'
    } else if row == 0 && col == cols {
        '┐'
    } else if row == rows && col == 0 {
        '└'
    } else if row == rows && col == cols {
        '┘'
    } else if row == 0 {
        '┬'
    } else if row == rows {
        '┴'
    } else if col == 0 {
        '├'
    } else if col == cols {
        '┤'
    } else {
        '┼'
    }
}

/// The horizontal grid line `row` of a grid of `rows` by `cols` cells: junctions every
/// `CELL_W + 1` characters, joined by horizontal strokes.
pub open spec fn border_line_of(rows: u16, cols: u16, row: u16) -> Seq<char> {
    Seq::new(
        (cols * (CELL_W + 1) + 1) as nat,
        |i: int|
            if i % (CELL_W + 1) as int == 0 {
                junction(row, (i / (CELL_W + 1) as int) as u16, rows, cols)
            } else {
                '─'
            },
    )
}

/// A line through the inside of a row of `cols` cells: vertical strokes every
/// `CELL_W + 1` characters, spaces between them.
pub open spec fn cell_line_of(cols: u16) -> Seq<char> {
    Seq::new((cols * (CELL_W + 1) + 1) as nat, |i: int| if i % (CELL_W + 1) as int == 0 { '│' } else { ' ' })
}

impl Board {
    /// Lays the board out on a terminal of `term_w` columns and `term_h` rows: the grid
    /// gets as many cells as fit, within 5 to 16 columns and 4 to 10 rows, and is centred
    /// horizontally below a two-row margin. A terminal under 30 by 15 is refused.
    pub fn from_size(term_w: u16, term_h: u16) -> (r: Result<Self, BoardError>)
        ensures
            r is Err <==> term_w < 30 || term_h < 15,
            r matches Err(e) ==> e == (BoardError::TooSmall { width: term_w, height: term_h }),
            r matches Ok(b) ==> {
                &&& b.cols == cols_for(term_w)
                &&& b.rows == rows_for(term_h)
                &&& b.origin_x == minus_sat(term_w as int, b.cols * (CELL_W + 1) + 1) / 2
                &&& b.origin_y == MARGIN_TOP
                &&& b.term_w == term_w
            },
    {
        if !(term_w >= 30 && term_h >= 15) {
            return Err(BoardError::TooSmall { width: term_w, height: term_h });
        }
        let avail_w = term_w.saturating_sub(MARGIN_SIDE * 2);
        let avail_h = term_h.saturating_sub(MARGIN_TOP + MARGIN_BOTTOM);

        let cols = clamp_u16(avail_w.saturating_sub(1) / (CELL_W + 1), MIN_COLS, MAX_COLS);
        let rows = clamp_u16(avail_h.saturating_sub(1) / (CELL_H + 1), MIN_ROWS, MAX_ROWS);

        let board_w = cols * (CELL_W + 1) + 1;
        let origin_x = term_w.saturating_sub(board_w) / 2;

        Ok(Self { cols, rows, origin_x, origin_y: MARGIN_TOP, term_w })
    }

    /// The terminal position of the top left character inside cell `pos`.
    pub fn cell_pos(&self, pos: Position) -> (r: (u16, u16))
        requires
            self.origin_x + 1 + pos.x * (CELL_W + 1) <= u16::MAX,
            self.origin_y + 1 + pos.y * (CELL_H + 1) <= u16::MAX,
        ensures
            r.0 == self.origin_x + 1 + pos.x * (CELL_W + 1),
            r.1 == self.origin_y + 1 + pos.y * (CELL_H + 1),
    {
        (self.origin_x + 1 + pos.x * (CELL_W + 1), self.origin_y + 1 + pos.y * (CELL_H + 1))
    }

    /// The terminal row of the status line, one row below the grid.
    pub fn status_row(&self) -> (row: u16)
        requires
            self.origin_y + self.rows * (CELL_H + 1) + 2 <= u16::MAX,
        ensures
            row == self.origin_y + self.rows * (CELL_H + 1) + 2,
    {
        let board_h = self.rows * (CELL_H + 1) + 1;
        self.origin_y + board_h + 1
    }

    /// The terminal row of grid line `row`.
    pub fn line_y(&self, row: u16) -> (y: u16)
        requires
            self.origin_y + row * (CELL_H + 1) <= u16::MAX,
        ensures
            y == self.origin_y + row * (CELL_H + 1),
    {
        self.origin_y + row * (CELL_H + 1)
    }

    /// The column at which a text of `len` characters starts when centred on the terminal.
    pub fn centered_x(&self, len: usize) -> (x: u16)
        ensures
            x == minus_sat(self.term_w as int, (len as u16) as int) / 2,
    {
        self.term_w.saturating_sub(len as u16) / 2
    }

    /// The character where grid line `row` meets grid line `col`.
    pub fn junction_char(&self, row: u16, col: u16) -> (c: char)
        ensures
            c == junction(row, col, self.rows, self.cols),
    {
        if row == 0 && col == 0 {
            '┌'
        } else if row == 0 && col == self.cols {
            '┐'
        } else if row == self.rows && col == 0 {
            '└'
        } else if row == self.rows && col == self.cols {
            '┘'
        } else if row == 0 {
            '┬'
        } else if row == self.rows {
            '┴'
        } else if col == 0 {
            '├'
        } else if col == self.cols {
            '┤'
        } else {
            '┼'
        }
    }

    /// The characters of horizontal grid line `row`.
    pub fn border_line(&self, row: u16) -> (line: Vec<char>)
        requires
            self.cols * (CELL_W + 1) + 1 <= u16::MAX,
        ensures
            line@ == border_line_of(self.rows, self.cols, row),
    {
        let width = self.cols * (CELL_W + 1) + 1;
        let mut line: Vec<char> = Vec::new();
        let mut i: u16 = 0;
        while i < width
            invariant
                width == self.cols * (CELL_W + 1) + 1,
                i <= width,
                line@ == border_line_of(self.rows, self.cols, row).take(i as int),
            decreases width - i,
        {
            let c = if i % (CELL_W + 1) == 0 {
                self.junction_char(row, i / (CELL_W + 1))
            } else {
                '─'
            };
            line.push(c);
            proof {
                assert(line@ =~= border_line_of(self.rows, self.cols, row).take(i + 1));
            }
            i = i + 1;
        }
        proof {
            assert(line@ =~= border_line_of(self.rows, self.cols, row));
        }
        line
    }

    /// The characters of a line through the inside of a row of cells.
    pub fn cell_line(&self) -> (line: Vec<char>)
        requires
            self.cols * (CELL_W + 1) + 1 <= u16::MAX,
        ensures
            line@ == cell_line_of(self.cols),
    {
        let width = self.cols * (CELL_W + 1) + 1;
        let mut line: Vec<char> = Vec::new();
        let mut i: u16 = 0;
        while i < width
            invariant
                width == self.cols * (CELL_W + 1) + 1,
                i <= width,
                line@ == cell_line_of(self.cols).take(i as int),
            decreases width - i,
        {
            let c = if i % (CELL_W + 1) == 0 { '│' } else { ' ' };
            line.push(c);
            proof {
                assert(line@ =~= cell_line_of(self.cols).take(i + 1));
            }
            i = i + 1;
        }
        proof {
            assert(line@ =~= cell_line_of(self.cols));
        }
        line
    }
}

/// `v` limited to `lo..=hi`.
pub fn clamp_u16(v: u16, lo: u16, hi: u16) -> (r: u16)
    requires
        lo <= hi,
    ensures
        r == clamped(v as int, lo as int, hi as int),
{
    if v < lo {
        lo
    } else if v > hi {
        hi
    } else {
        v
    }
}

} // verus!
