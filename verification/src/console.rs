//! Diagnostic console: a fixed character-cell grid with a cursor, used
//! for human-readable status before any allocator or driver exists.
//!
//! The console is a two-state machine. It starts `Uninitialized`, where
//! every write is a guaranteed no-op, and moves once to `Ready` over a
//! grid. Writes render characters left to right, wrap to the next row at
//! the column limit, and scroll the grid up one row (discarding the top
//! row) at the row limit.

use vstd::prelude::*;
use vstd::pervasive::VecAdditionalExecFns;

verus! {

/// Mathematical model of a console grid: dimensions, cursor, and the
/// cell contents in row-major order.
#[verifier::ext_equal]
pub ghost struct GridView {
    pub cols: int,
    pub rows: int,
    pub cursor_col: int,
    pub cursor_row: int,
    pub cells: Seq<char>,
}

/// Validity of a grid: both dimensions positive, the cell count exactly
/// `rows * cols` (which fits in the address space), cursor inside the grid.
pub open spec fn grid_wf(g: GridView) -> bool {
    &&& 0 < g.cols
    &&& 0 < g.rows
    &&& g.rows * g.cols <= usize::MAX
    &&& g.cells.len() == g.rows * g.cols
    &&& 0 <= g.cursor_col < g.cols
    &&& 0 <= g.cursor_row < g.rows
}

/// One row of blank cells.
pub open spec fn blank_row(cols: int) -> Seq<char> {
    Seq::new(cols as nat, |i: int| ' ')
}

/// A fresh blank grid with the cursor at the top-left corner.
pub open spec fn fresh_grid(cols: int, rows: int) -> GridView {
    GridView {
        cols,
        rows,
        cursor_col: 0,
        cursor_row: 0,
        cells: Seq::new((rows * cols) as nat, |i: int| ' '),
    }
}

/// Move the cursor to column 0 of the next row; at the last row, scroll
/// the grid up by one row instead, discarding the top row and leaving a
/// blank bottom row.
pub open spec fn line_feed(g: GridView) -> GridView {
    if g.cursor_row + 1 < g.rows {
        GridView { cursor_col: 0, cursor_row: g.cursor_row + 1, ..g }
    } else {
        GridView {
            cursor_col: 0,
            cells: g.cells.subrange(g.cols, g.rows * g.cols) + blank_row(g.cols),
            ..g
        }
    }
}

/// Render one character at the cursor, then advance the cursor, wrapping
/// to the next row (and scrolling at the bottom) past the last column.
pub open spec fn put_char(g: GridView, c: char) -> GridView {
    let written = GridView {
        cells: g.cells.update(g.cursor_row * g.cols + g.cursor_col, c),
        ..g
    };
    if g.cursor_col + 1 < g.cols {
        GridView { cursor_col: g.cursor_col + 1, ..written }
    } else {
        line_feed(written)
    }
}

/// Render a sequence of characters, one after the other.
pub open spec fn put_chars(g: GridView, text: Seq<char>) -> GridView
    decreases text.len(),
{
    if text.len() == 0 {
        g
    } else {
        put_char(put_chars(g, text.drop_last()), text.last())
    }
}

/// Effect of one `write_line` call on a ready grid: nothing for empty
/// text; otherwise render the characters and finish the line, moving the
/// cursor to column 0 of the next row unless the text wrapped there on
/// its own.
pub open spec fn write_line_model(g: GridView, text: Seq<char>) -> GridView {
    if text.len() == 0 {
        g
    } else {
        let h = put_chars(g, text);
        if h.cursor_col == 0 {
            h
        } else {
            line_feed(h)
        }
    }
}

/// The cursor's cell index lies inside the grid.
pub proof fn lemma_cursor_index(g: GridView)
    requires
        grid_wf(g),
    ensures
        0 <= g.cursor_row * g.cols + g.cursor_col,
        g.cursor_row * g.cols + g.cursor_col < g.rows * g.cols,
{
    assert(0 <= g.cursor_row * g.cols + g.cursor_col && g.cursor_row * g.cols + g.cursor_col
        < g.rows * g.cols) by (nonlinear_arith)
        requires
            0 <= g.cursor_row < g.rows,
            0 <= g.cursor_col < g.cols,
    ;
}

/// A line feed preserves grid validity.
pub proof fn lemma_line_feed_wf(g: GridView)
    requires
        grid_wf(g),
    ensures
        grid_wf(line_feed(g)),
        line_feed(g).cols == g.cols,
        line_feed(g).rows == g.rows,
        line_feed(g).cursor_col == 0,
{
    if g.cursor_row + 1 < g.rows {
    } else {
        assert(g.cols <= g.rows * g.cols && (g.rows * g.cols - g.cols) + g.cols == g.rows
            * g.cols) by (nonlinear_arith)
            requires
                0 < g.rows,
                0 < g.cols,
        ;
    }
}

/// Rendering one character preserves grid validity.
pub proof fn lemma_put_char_wf(g: GridView, c: char)
    requires
        grid_wf(g),
    ensures
        grid_wf(put_char(g, c)),
        put_char(g, c).cols == g.cols,
        put_char(g, c).rows == g.rows,
{
    lemma_cursor_index(g);
    let written = GridView {
        cells: g.cells.update(g.cursor_row * g.cols + g.cursor_col, c),
        ..g
    };
    assert(grid_wf(written));
    if g.cursor_col + 1 < g.cols {
    } else {
        lemma_line_feed_wf(written);
    }
}

/// Cursor position while one row fills up: writing `j` characters, with
/// `j` at most the room left on the cursor's row, moves the cursor `j`
/// columns right, and exactly at the row's end wraps it to column 0 of
/// the next row (of the same, last row when the grid scrolled).
proof fn lemma_fill_row(g: GridView, text: Seq<char>, j: int)
    requires
        grid_wf(g),
        0 <= j <= g.cols - g.cursor_col,
        j <= text.len(),
    ensures
        ({
            let h = put_chars(g, text.take(j));
            &&& grid_wf(h)
            &&& h.cols == g.cols
            &&& h.rows == g.rows
            &&& if g.cursor_col + j < g.cols {
                h.cursor_col == g.cursor_col + j && h.cursor_row == g.cursor_row
            } else {
                h.cursor_col == 0 && h.cursor_row == (if g.cursor_row + 1 < g.rows {
                    g.cursor_row + 1
                } else {
                    g.cursor_row
                })
            }
        }),
    decreases j,
{
    if j == 0 {
        assert(text.take(0) =~= Seq::<char>::empty());
    } else {
        lemma_fill_row(g, text, j - 1);
        assert(text.take(j).drop_last() =~= text.take(j - 1));
        let h1 = put_chars(g, text.take(j - 1));
        lemma_put_char_wf(h1, text.take(j).last());
        assert(put_chars(g, text.take(j)) == put_char(h1, text.take(j).last()));
    }
}

/// Wrap law: text longer than the room left on the cursor's row places
/// the excess starting at column 0 of the next row. Once the row is
/// full, the cursor stands at column 0 of the row below (of the same,
/// last row when the grid scrolled to make room), and the first excess
/// character is rendered into that row's first cell. The last claim
/// speaks only of grids wider than one column: on a one-column grid the
/// excess character itself wraps onward the moment it is written, and at
/// the bottom row that next wrap scrolls it away.
pub proof fn lemma_wrap(g: GridView, text: Seq<char>)
    requires
        grid_wf(g),
        g.cursor_col + text.len() > g.cols,
    ensures
        ({
            let fill = g.cols - g.cursor_col;
            let h = put_chars(g, text.take(fill));
            let row = if g.cursor_row + 1 < g.rows {
                g.cursor_row + 1
            } else {
                g.cursor_row
            };
            &&& h.cursor_col == 0
            &&& h.cursor_row == row
            &&& 1 < g.cols ==> put_chars(g, text.take(fill + 1)).cells[row * g.cols] == text[fill]
        }),
{
    let fill = g.cols - g.cursor_col;
    lemma_fill_row(g, text, fill);
    let h = put_chars(g, text.take(fill));
    let row = if g.cursor_row + 1 < g.rows {
        g.cursor_row + 1
    } else {
        g.cursor_row
    };
    assert(h.cursor_col == 0 && h.cursor_row == row);
    if 1 < g.cols {
        assert(text.take(fill + 1).drop_last() =~= text.take(fill));
        assert(put_chars(g, text.take(fill + 1)) == put_char(h, text[fill]));
        lemma_cursor_index(h);
        assert(put_char(h, text[fill]).cells[row * g.cols] == text[fill]);
    }
}

/// The character grid of a ready console.
pub struct Grid {
    pub cols: usize,
    pub rows: usize,
    pub cursor_col: usize,
    pub cursor_row: usize,
    pub cells: Vec<char>,
}

impl View for Grid {
    type V = GridView;

    open spec fn view(&self) -> GridView {
        GridView {
            cols: self.cols as int,
            rows: self.rows as int,
            cursor_col: self.cursor_col as int,
            cursor_row: self.cursor_row as int,
            cells: self.cells@,
        }
    }
}

impl Grid {
    /// Move the cursor to the start of the next row, scrolling at the
    /// bottom of the grid.
    fn feed(&mut self)
        requires
            grid_wf(old(self)@),
        ensures
            grid_wf(final(self)@),
            final(self)@ == line_feed(old(self)@),
    {
        let ghost g0 = self@;
        proof {
            lemma_line_feed_wf(g0);
        }
        if self.cursor_row + 1 < self.rows {
            self.cursor_row = self.cursor_row + 1;
            self.cursor_col = 0;
            assert(self@ =~= line_feed(g0));
        } else {
            proof {
                assert((self.rows - 1) * self.cols + self.cols == self.rows * self.cols)
                    by (nonlinear_arith);
                assert(0 <= (self.rows - 1) * self.cols) by (nonlinear_arith)
                    requires
                        0 < self.rows,
                        0 < self.cols,
                ;
            }
            let limit = (self.rows - 1) * self.cols;
            let mut i: usize = 0;
            while i < limit
                invariant
                    grid_wf(g0),
                    i <= limit,
                    limit + g0.cols == g0.rows * g0.cols,
                    self.cols == g0.cols,
                    self.rows == g0.rows,
                    self.cursor_col == g0.cursor_col,
                    self.cursor_row == g0.cursor_row,
                    self.cells@.len() == g0.cells.len(),
                    forall|j: int| 0 <= j < i ==> self.cells@[j] == g0.cells[j + g0.cols],
                    forall|j: int| i <= j < g0.cells.len() ==> self.cells@[j] == g0.cells[j],
                decreases limit - i,
            {
                let c = self.cells[i + self.cols];
                self.cells.set(i, c);
                i = i + 1;
            }
            let total = self.rows * self.cols;
            while i < total
                invariant
                    grid_wf(g0),
                    limit <= i <= total,
                    limit + g0.cols == g0.rows * g0.cols,
                    total == g0.rows * g0.cols,
                    self.cols == g0.cols,
                    self.rows == g0.rows,
                    self.cursor_col == g0.cursor_col,
                    self.cursor_row == g0.cursor_row,
                    self.cells@.len() == g0.cells.len(),
                    forall|j: int| 0 <= j < limit ==> self.cells@[j] == g0.cells[j + g0.cols],
                    forall|j: int| limit <= j < i ==> self.cells@[j] == ' ',
                decreases total - i,
            {
                self.cells.set(i, ' ');
                i = i + 1;
            }
            self.cursor_col = 0;
            proof {
                assert(self.cells@ =~= g0.cells.subrange(g0.cols, g0.rows * g0.cols) + blank_row(
                    g0.cols,
                ));
                assert(self@ =~= line_feed(g0));
            }
        }
    }

    /// Render one character at the cursor and advance it.
    fn put(&mut self, c: char)
        requires
            grid_wf(old(self)@),
        ensures
            grid_wf(final(self)@),
            final(self)@ == put_char(old(self)@, c),
    {
        let ghost g0 = self@;
        proof {
            lemma_cursor_index(g0);
            lemma_put_char_wf(g0, c);
        }
        let idx = self.cursor_row * self.cols + self.cursor_col;
        self.cells.set(idx, c);
        if self.cursor_col + 1 < self.cols {
            self.cursor_col = self.cursor_col + 1;
            assert(self@ =~= put_char(g0, c));
        } else {
            self.feed();
            assert(self@ =~= put_char(g0, c));
        }
    }

    /// Render a whole line of text: every character in order, then a line
    /// feed unless the text already wrapped to a fresh row; empty text is
    /// a no-op.
    fn write(&mut self, text: &str)
        requires
            grid_wf(old(self)@),
        ensures
            grid_wf(final(self)@),
            final(self)@ == write_line_model(old(self)@, text@),
            text@.len() == 0 ==> *final(self) == *old(self),
    {
        let ghost g0 = self@;
        let n = text.unicode_len();
        if n == 0 {
            return ;
        }
        let mut i: usize = 0;
        proof {
            assert(text@.take(0) =~= Seq::<char>::empty());
        }
        while i < n
            invariant
                n == text@.len(),
                i <= n,
                grid_wf(self@),
                self@ == put_chars(g0, text@.take(i as int)),
            decreases n - i,
        {
            let c = text.get_char(i);
            self.put(c);
            proof {
                assert(text@.take(i + 1).drop_last() =~= text@.take(i as int));
                assert(text@.take(i + 1).last() == text@[i as int]);
            }
            i = i + 1;
        }
        proof {
            assert(text@.take(n as int) =~= text@);
        }
        if self.cursor_col != 0 {
            self.feed();
        }
    }
}

/// The diagnostic console: `Uninitialized` until a display surface is
/// known, then `Ready` over a character grid.
pub enum Console {
    Uninitialized,
    Ready(Grid),
}

impl Console {
    /// Validity: a ready console holds a valid grid.
    pub open spec fn wf(self) -> bool {
        match self {
            Console::Uninitialized => true,
            Console::Ready(g) => grid_wf(g@),
        }
    }

    /// The console as it exists before any display surface is bound.
    pub fn new() -> (c: Console)
        ensures
            c is Uninitialized,
            c.wf(),
    {
        Console::Uninitialized
    }

    /// One-time transition from `Uninitialized` to `Ready` over a fresh
    /// blank grid of the given dimensions.
    pub fn bind(&mut self, cols: usize, rows: usize)
        requires
            *old(self) is Uninitialized,
            0 < cols,
            0 < rows,
            rows * cols <= usize::MAX,
        ensures
            final(self).wf(),
            *final(self) matches Console::Ready(g) && g@ == fresh_grid(
                cols as int,
                rows as int,
            ),
    {
        proof {
            assert(0 <= rows * cols) by (nonlinear_arith)
                requires
                    0 < rows,
                    0 < cols,
            ;
        }
        let total = rows * cols;
        let mut cells: Vec<char> = Vec::new();
        let mut i: usize = 0;
        while i < total
            invariant
                i <= total,
                cells@.len() == i,
                forall|j: int| 0 <= j < i ==> cells@[j] == ' ',
            decreases total - i,
        {
            cells.push(' ');
            i = i + 1;
        }
        let grid = Grid { cols, rows, cursor_col: 0, cursor_row: 0, cells };
        proof {
            assert(grid@.cells =~= fresh_grid(cols as int, rows as int).cells);
            assert(grid@ =~= fresh_grid(cols as int, rows as int));
        }
        *self = Console::Ready(grid);
    }

    /// Write one line of text. On an `Uninitialized` console this never
    /// faults and has no observable effect; empty text leaves the console
    /// (cursor included) unchanged; on a ready console the grid changes
    /// exactly as `write_line_model` says: characters rendered left to
    /// right from the cursor, wrapped at the column limit, scrolled at
    /// the row limit, then the line is finished.
    pub fn write_line(&mut self, text: &str)
        requires
            old(self).wf(),
        ensures
            final(self).wf(),
            *old(self) is Uninitialized ==> *final(self) == *old(self),
            text@.len() == 0 ==> *final(self) == *old(self),
            *old(self) matches Console::Ready(g) ==> (*final(self) matches Console::Ready(h)
                && h@ == write_line_model(g@, text@)),
    {
        match self {
            Console::Uninitialized => {
            },
            Console::Ready(grid) => {
                grid.write(text);
            },
        }
    }
}

} // verus!
