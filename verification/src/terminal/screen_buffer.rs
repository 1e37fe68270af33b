//! The terminal screen grid.
//!
//! A terminal screen is a rectangular grid of cells stored in a flat `Vec`
//! indexed as `row * cols + col`. Every cell carries a `dirty` flag so that a
//! renderer only redraws what changed. Rows scrolled off the top are kept in a
//! bounded scrollback history.

use vstd::prelude::*;
use std::collections::VecDeque;
use crate::unicode::{char_width, char_columns, push_char};

verus! {

// ─── Color ───────────────────────────────────────────────────────────────────

/// ANSI/VT terminal color: one of the named colors, a 256-color palette
/// index, or 24-bit RGB.
#[derive(Debug, Clone, Copy, PartialEq, Eq, Hash, Structural)]
pub enum Color {
    /// Terminal's default color — lets the user's theme show through.
    Default,
    Black,
    Red,
    Green,
    Yellow,
    Blue,
    Magenta,
    Cyan,
    White,
    /// 256-color palette index (0–255).
    Indexed(u8),
    /// 24-bit RGB true color.
    Rgb(u8, u8, u8),
}

// ─── Attributes ──────────────────────────────────────────────────────────────

/// Visual style applied to a single cell (one field per SGR attribute).
#[derive(Debug, Clone, Copy, PartialEq, Eq, Structural)]
pub struct Attributes {
    pub bold: bool,
    pub italic: bool,
    pub underline: bool,
    pub blink: bool,
    /// If true, the renderer should swap fg and bg when drawing.
    pub reverse: bool,
    pub fg: Color,
    pub bg: Color,
}

/// Plain text, no decoration, terminal default colors.
pub open spec fn plain_attrs() -> Attributes {
    Attributes {
        bold: false,
        italic: false,
        underline: false,
        blink: false,
        reverse: false,
        fg: Color::Default,
        bg: Color::Default,
    }
}

impl Default for Attributes {
    /// Plain text, no decoration, terminal default colors.
    fn default() -> (a: Self)
        ensures
            a == plain_attrs(),
    {
        Attributes {
            bold: false,
            italic: false,
            underline: false,
            blink: false,
            reverse: false,
            fg: Color::Default,
            bg: Color::Default,
        }
    }
}

// ─── Cell ────────────────────────────────────────────────────────────────────

/// One character position on the terminal screen.
#[derive(Debug, Clone, Copy, PartialEq, Eq, Structural)]
pub struct Cell {
    pub ch: char,
    pub attrs: Attributes,
    pub wide_continuation: bool,
    pub dirty: bool,
}

/// An empty, clean cell: a space in plain attributes.
pub open spec fn blank_cell() -> Cell {
    Cell { ch: ' ', attrs: plain_attrs(), wide_continuation: false, dirty: false }
}

/// `c` marked as changed.
pub open spec fn dirtied(c: Cell) -> Cell {
    Cell { dirty: true, ..c }
}

/// `c` marked as unchanged.
pub open spec fn cleaned(c: Cell) -> Cell {
    Cell { dirty: false, ..c }
}

/// The cell an erase leaves behind: a space whose only attribute is the
/// current background color.
pub open spec fn erased_cell(bg: Color) -> Cell {
    Cell {
        ch: ' ',
        attrs: Attributes { bg: bg, ..plain_attrs() },
        wide_continuation: false,
        dirty: true,
    }
}

impl Default for Cell {
    fn default() -> (c: Self)
        ensures
            c == blank_cell(),
    {
        Cell { ch: ' ', attrs: Attributes::default(), wide_continuation: false, dirty: false }
    }
}

// ─── EraseMode ───────────────────────────────────────────────────────────────

/// Which part of a line or of the display an erase clears, relative to the
/// cursor.
#[derive(Debug, Clone, Copy, PartialEq, Eq, Structural)]
pub enum EraseMode {
    ToEnd,
    ToStart,
    All,
}

// ─── Scrollback ──────────────────────────────────────────────────────────────

/// History of the rows scrolled off the top of the screen, oldest first,
/// holding at most `max_lines` of them.
pub struct Scrollback {
    lines: VecDeque<Vec<Cell>>,
    max_lines: usize,
}

/// The history after appending `line` to `lines` with room for `max` lines:
/// when that overflows, the oldest line is dropped.
pub open spec fn history_push(lines: Seq<Seq<Cell>>, max: int, line: Seq<Cell>) -> Seq<Seq<Cell>> {
    let s = lines.push(line);
    if s.len() > max {
        s.drop_first()
    } else {
        s
    }
}

impl Scrollback {
    /// The stored rows, oldest first.
    pub closed spec fn lines(&self) -> Seq<Seq<Cell>> {
        self.lines@.map_values(|l: Vec<Cell>| l@)
    }

    /// The most rows kept.
    pub closed spec fn limit(&self) -> int {
        self.max_lines as int
    }

    /// Never more rows than the limit.
    pub open spec fn wf(&self) -> bool {
        self.lines().len() <= self.limit()
    }

    pub fn new(max_lines: usize) -> (s: Self)
        ensures
            s.wf(),
            s.lines() == Seq::<Seq<Cell>>::empty(),
            s.limit() == max_lines,
    {
        let s = Self { lines: VecDeque::with_capacity(max_lines), max_lines };
        assert(s.lines() =~= Seq::<Seq<Cell>>::empty());
        s
    }

    fn push_line(&mut self, line: Vec<Cell>)
        requires
            old(self).wf(),
        ensures
            final(self).wf(),
            final(self).limit() == old(self).limit(),
            final(self).lines() == history_push(old(self).lines(), old(self).limit(), line@),
    {
        let ghost l = line@;
        let ghost old_lines = self.lines();
        self.lines.push_back(line);
        assert(self.lines() =~= old_lines.push(l));
        if self.lines.len() > self.max_lines {
            let ghost before = self.lines@;
            let _ = self.lines.pop_front();
            assert(self.lines() =~= old_lines.push(l).drop_first());
        }
    }

    pub fn len(&self) -> (n: usize)
        ensures
            n == self.lines().len(),
    {
        self.lines.len()
    }

    pub fn is_empty(&self) -> (b: bool)
        ensures
            b == (self.lines().len() == 0),
    {
        self.len() == 0
    }
}

// ─── Model ───────────────────────────────────────────────────────────────────

/// Mathematical model of a [`Grid`].
pub struct GridView {
    pub rows: int,
    pub cols: int,
    /// The cells, row by row.
    pub cells: Seq<Cell>,
    pub cursor_row: int,
    pub cursor_col: int,
    /// Attributes given to newly written characters.
    pub attrs: Attributes,
    /// Scrolled-off rows, oldest first.
    pub history: Seq<Seq<Cell>>,
    /// Capacity of the history.
    pub history_limit: int,
}

/// Lemma: a cell address inside the grid lies inside the flat cell vector.
pub proof fn lemma_cell_index(r: int, c: int, rows: int, cols: int)
    requires
        0 <= r < rows,
        0 <= c < cols,
    ensures
        0 <= r * cols,
        r * cols + c < rows * cols,
        r * cols + cols <= rows * cols,
{
    assert(0 <= r * cols) by (nonlinear_arith)
        requires
            0 <= r,
            0 <= c < cols,
    ;
    assert(r * cols + cols <= rows * cols) by (nonlinear_arith)
        requires
            0 <= r < rows,
            0 <= c < cols,
    ;
}

impl GridView {
    /// The structural invariant of a screen.
    pub open spec fn wf(self) -> bool {
        &&& self.rows > 0
        &&& self.cols > 0
        &&& self.cells.len() == self.rows * self.cols
        &&& 0 <= self.cursor_row < self.rows
        &&& 0 <= self.cursor_col < self.cols
        &&& 0 <= self.history.len() <= self.history_limit
    }

    /// Flat index of the cell at `(r, c)`.
    pub open spec fn index(self, r: int, c: int) -> int {
        r * self.cols + c
    }

    /// The cell at `(r, c)`.
    pub open spec fn cell(self, r: int, c: int) -> Cell {
        self.cells[self.index(r, c)]
    }

    /// Row `k` as a sequence of cells.
    pub open spec fn row(self, k: int) -> Seq<Cell> {
        self.cells.subrange(k * self.cols, k * self.cols + self.cols)
    }

    /// The history after pushing rows `0..n` of this screen, in order.
    pub open spec fn history_after_rows(self, n: int) -> Seq<Seq<Cell>>
        decreases n,
    {
        if n <= 0 {
            self.history
        } else {
            history_push(self.history_after_rows(n - 1), self.history_limit, self.row(n - 1))
        }
    }

    /// The screen with its rows moved up by `n`: the top `n` rows are dropped,
    /// the others move up, the bottom `n` rows become blank; every cell is
    /// marked dirty. The cursor and the history do not change.
    pub open spec fn shifted(self, n: int) -> GridView {
        let shift = n * self.cols;
        let keep = self.cells.len() - shift;
        GridView {
            cells: Seq::new(
                self.cells.len(),
                |i: int|
                    if i < keep {
                        dirtied(self.cells[i + shift])
                    } else {
                        dirtied(blank_cell())
                    },
            ),
            ..self
        }
    }

    /// The screen after scrolling up by `n` rows: as `shifted`, with the top
    /// `n` rows appended to the history first.
    pub open spec fn scrolled(self, n: int) -> GridView {
        GridView { history: self.history_after_rows(n), ..self.shifted(n) }
    }

    /// Moving to the start of the next line after a wrap, shifting the rows up
    /// by one when the cursor was on the last row (the row that leaves the top
    /// is not kept in the history). `None` where the screen has a single row
    /// and cannot scroll.
    pub open spec fn next_line(self) -> Option<GridView> {
        if self.cursor_row + 1 >= self.rows {
            if 1 < self.rows {
                Some(GridView { cursor_row: self.rows - 1, cursor_col: 0, ..self.shifted(1) })
            } else {
                None
            }
        } else {
            Some(GridView { cursor_row: self.cursor_row + 1, cursor_col: 0, ..self })
        }
    }

    /// Writing `ch`, of display width `width` (`None`: a control character,
    /// taken as one column), at the cursor. Zero-width characters are
    /// dropped. A wide character that does not fit on the line starts the
    /// next one; its second column becomes a continuation cell. The cursor
    /// advances by the width and wraps (scrolling at the bottom). `None` where
    /// a wrap would need the refused scroll.
    pub open spec fn written(self, ch: char, width: Option<usize>) -> Option<GridView> {
        let w: int = match width {
            Some(n) => n as int,
            None => 1,
        };
        if w == 0 {
            Some(self)
        } else {
            let pre = if w == 2 && self.cursor_col + 1 >= self.cols {
                self.next_line()
            } else {
                Some(self)
            };
            match pre {
                None => None,
                Some(g) => {
                    let i = g.index(g.cursor_row, g.cursor_col);
                    let g1 = GridView {
                        cells: g.cells.update(
                            i,
                            Cell { ch: ch, attrs: g.attrs, wide_continuation: false, dirty: true },
                        ),
                        ..g
                    };
                    let g2 = if w == 2 && g.cursor_col + 1 < g.cols {
                        GridView {
                            cells: g1.cells.update(
                                i + 1,
                                Cell { ch: ' ', attrs: g.attrs, wide_continuation: true, dirty: true },
                            ),
                            ..g1
                        }
                    } else {
                        g1
                    };
                    if g.cursor_col + w >= g.cols {
                        g2.next_line()
                    } else {
                        Some(GridView { cursor_col: g.cursor_col + w, ..g2 })
                    }
                },
            }
        }
    }

    /// The cells with flat indices in `lo..hi` replaced by `c`.
    pub open spec fn filled(self, lo: int, hi: int, c: Cell) -> GridView {
        GridView {
            cells: Seq::new(
                self.cells.len(),
                |i: int|
                    if lo <= i < hi {
                        c
                    } else {
                        self.cells[i]
                    },
            ),
            ..self
        }
    }

    /// Erasing part of the cursor's line.
    pub open spec fn line_erased(self, mode: EraseMode) -> GridView {
        let base = self.cursor_row * self.cols;
        let (lo, hi) = match mode {
            EraseMode::ToEnd => (self.cursor_col, self.cols),
            EraseMode::ToStart => (0, self.cursor_col + 1),
            EraseMode::All => (0, self.cols),
        };
        self.filled(base + lo, base + hi, erased_cell(self.attrs.bg))
    }

    /// Erasing part of the display.
    pub open spec fn display_erased(self, mode: EraseMode) -> GridView {
        let at = self.index(self.cursor_row, self.cursor_col);
        let (lo, hi) = match mode {
            EraseMode::ToEnd => (at, self.cells.len() as int),
            EraseMode::ToStart => (0, at + 1),
            EraseMode::All => (0, self.cells.len() as int),
        };
        self.filled(lo, hi, erased_cell(self.attrs.bg))
    }

    /// The cursor moved to `(row, col)`, clamped to the screen.
    pub open spec fn cursor_clamped(self, row: int, col: int) -> GridView {
        GridView {
            cursor_row: if row < self.rows - 1 { row } else { self.rows - 1 },
            cursor_col: if col < self.cols - 1 { col } else { self.cols - 1 },
            ..self
        }
    }
}

/// The dirty cells among `cells` (a screen `cols` wide), in order, each with
/// its row and column.
pub open spec fn dirty_entries(cells: Seq<Cell>, cols: int) -> Seq<(usize, usize, Cell)>
    decreases cells.len(),
{
    if cells.len() == 0 {
        Seq::empty()
    } else {
        let n = cells.len() - 1;
        let prev = dirty_entries(cells.drop_last(), cols);
        if cells.last().dirty {
            prev.push(((n / cols) as usize, (n % cols) as usize, cells.last()))
        } else {
            prev
        }
    }
}

/// The cell at flat index `i` of a screen resized to `nr` × `nc`: the overlap
/// with the old screen keeps its content (marked dirty), the rest is blank.
pub open spec fn resized_cell(g: GridView, nr: int, nc: int, i: int) -> Cell {
    let r = i / nc;
    let c = i % nc;
    if r < g.rows && r < nr && c < g.cols && c < nc {
        dirtied(g.cell(r, c))
    } else {
        blank_cell()
    }
}

/// The characters of rows `0..n`, each row followed by a line break.
pub open spec fn text_of_rows(g: GridView, n: int) -> Seq<char>
    decreases n,
{
    if n <= 0 {
        Seq::empty()
    } else {
        text_of_rows(g, n - 1) + g.row(n - 1).map_values(|c: Cell| c.ch).push('\n')
    }
}

/// Law: once every cell is marked clean, there are no dirty cells left.
pub proof fn lemma_cleaned_has_no_dirty(cells: Seq<Cell>, cols: int)
    ensures
        dirty_entries(cells.map_values(|c: Cell| cleaned(c)), cols) == Seq::<(usize, usize, Cell)>::empty(),
    decreases cells.len(),
{
    if cells.len() > 0 {
        lemma_cleaned_has_no_dirty(cells.drop_last(), cols);
        assert(cells.map_values(|c: Cell| cleaned(c)).drop_last() =~= cells.drop_last().map_values(
            |c: Cell| cleaned(c),
        ));
    }
}

/// Law: what a write puts down is read back. Writing a one-column character
/// anywhere but the last cell of the screen (where the screen would scroll)
/// leaves that cell holding the character in the current attributes, marked
/// dirty, leaves every other cell as it was, and moves the cursor one column
/// on (to the start of the next line at the end of a line).
pub proof fn lemma_write_then_read(g: GridView, ch: char)
    requires
        g.wf(),
        char_columns(ch) == Some(1usize),
        !(g.cursor_row == g.rows - 1 && g.cursor_col == g.cols - 1),
    ensures
        g.written(ch, char_columns(ch)) matches Some(g1) && {
            &&& g1.cell(g.cursor_row, g.cursor_col) == (Cell {
                ch: ch,
                attrs: g.attrs,
                wide_continuation: false,
                dirty: true,
            })
            &&& forall|i: int|
                0 <= i < g.cells.len() && i != g.index(g.cursor_row, g.cursor_col) ==> g1.cells[i] == g.cells[i]
            &&& if g.cursor_col + 1 < g.cols {
                g1.cursor_row == g.cursor_row && g1.cursor_col == g.cursor_col + 1
            } else {
                g1.cursor_row == g.cursor_row + 1 && g1.cursor_col == 0
            }
        },
{
    lemma_cell_index(g.cursor_row, g.cursor_col, g.rows, g.cols);
}

/// Law: a wide (two-column) character that fits on the cursor's line is
/// written there: the character at the cursor, a continuation cell in the
/// next column, both in the current attributes and marked dirty, every other
/// cell unchanged; the cursor moves two columns on, or to the start of the
/// next line when that reaches the end of the line. (On the last row, where
/// reaching the end of the line scrolls the screen, the write is left out.)
pub proof fn lemma_wide_char_fits(g: GridView, ch: char)
    requires
        g.wf(),
        g.cursor_col + 1 < g.cols,
        !(g.cursor_row == g.rows - 1 && g.cursor_col + 2 >= g.cols),
    ensures
        g.written(ch, Some(2usize)) matches Some(g1) && {
            &&& g1.cell(g.cursor_row, g.cursor_col) == (Cell {
                ch: ch,
                attrs: g.attrs,
                wide_continuation: false,
                dirty: true,
            })
            &&& g1.cell(g.cursor_row, g.cursor_col + 1) == (Cell {
                ch: ' ',
                attrs: g.attrs,
                wide_continuation: true,
                dirty: true,
            })
            &&& forall|i: int|
                0 <= i < g.cells.len() && i != g.index(g.cursor_row, g.cursor_col) && i != g.index(
                    g.cursor_row,
                    g.cursor_col + 1,
                ) ==> g1.cells[i] == g.cells[i]
            &&& if g.cursor_col + 2 < g.cols {
                g1.cursor_row == g.cursor_row && g1.cursor_col == g.cursor_col + 2
            } else {
                g1.cursor_row == g.cursor_row + 1 && g1.cursor_col == 0
            }
            &&& g1.rows == g.rows && g1.cols == g.cols && g1.attrs == g.attrs && g1.history == g.history
        },
{
    lemma_cell_index(g.cursor_row, g.cursor_col, g.rows, g.cols);
    lemma_cell_index(g.cursor_row, g.cursor_col + 1, g.rows, g.cols);
}

/// `v` limited to `lo..=hi`.
pub open spec fn clamp(v: int, lo: int, hi: int) -> int {
    if v < lo {
        lo
    } else if v > hi {
        hi
    } else {
        v
    }
}

// ─── Grid ────────────────────────────────────────────────────────────────────

pub struct Grid {
    pub rows: usize,
    pub cols: usize,
    pub(crate) cells: Vec<Cell>,
    pub cursor_row: usize,
    pub cursor_col: usize,
    pub current_attrs: Attributes,
    pub scrollback: Scrollback,
}

impl View for Grid {
    type V = GridView;

    open(crate) spec fn view(&self) -> GridView {
        GridView {
            rows: self.rows as int,
            cols: self.cols as int,
            cells: self.cells@,
            cursor_row: self.cursor_row as int,
            cursor_col: self.cursor_col as int,
            attrs: self.current_attrs,
            history: self.scrollback.lines(),
            history_limit: self.scrollback.limit(),
        }
    }
}

impl Grid {
    /// The grid is well formed: its model is, and the scrollback keeps its
    /// bound.
    pub open(crate) spec fn wf(&self) -> bool {
        &&& self@.wf()
        &&& self@.cells.len() <= usize::MAX
        &&& self.scrollback.wf()
    }

    /// A blank grid of `rows` × `cols` clean cells, cursor at the origin,
    /// plain attributes, and an empty history of up to 5000 rows.
    pub fn new(rows: usize, cols: usize) -> (g: Self)
        requires
            rows > 0,
            cols > 0,
            rows * cols <= usize::MAX,
        ensures
            g.wf(),
            g@.rows == rows,
            g@.cols == cols,
            g@.cells == Seq::new((rows * cols) as nat, |i: int| blank_cell()),
            g@.cursor_row == 0,
            g@.cursor_col == 0,
            g@.attrs == plain_attrs(),
            g@.history == Seq::<Seq<Cell>>::empty(),
            g@.history_limit == 5000,
    {
        let n = rows * cols;
        let mut cells: Vec<Cell> = Vec::with_capacity(n);
        let mut k: usize = 0;
        while k < n
            invariant
                k <= n,
                cells@ == Seq::new(k as nat, |i: int| blank_cell()),
            decreases n - k,
        {
            cells.push(Cell::default());
            k = k + 1;
            assert(cells@ =~= Seq::new(k as nat, |i: int| blank_cell()));
        }
        Grid {
            rows,
            cols,
            cells,
            cursor_row: 0,
            cursor_col: 0,
            current_attrs: Attributes::default(),
            scrollback: Scrollback::new(5000),
        }
    }

    /// The cell at `(row, col)`, or `None` outside the screen.
    pub fn get(&self, row: usize, col: usize) -> (r: Option<&Cell>)
        requires
            self.wf(),
        ensures
            (row < self@.rows && col < self@.cols) ==> r == Some(&self@.cell(row as int, col as int)),
            !(row < self@.rows && col < self@.cols) ==> r is None,
    {
        if row < self.rows && col < self.cols {
            proof {
                lemma_cell_index(row as int, col as int, self.rows as int, self.cols as int);
            }
            Some(&self.cells[row * self.cols + col])
        } else {
            None
        }
    }

    /// Mutable access to the cell at `(row, col)`, or `None` outside the
    /// screen. Whatever is written through it becomes that cell.
    pub fn get_mut(&mut self, row: usize, col: usize) -> (r: Option<&mut Cell>)
        requires
            old(self).wf(),
        ensures
            match r {
                Some(m) => {
                    &&& row < old(self)@.rows && col < old(self)@.cols
                    &&& *m == old(self)@.cell(row as int, col as int)
                    &&& final(self)@ == (GridView {
                        cells: old(self)@.cells.update(old(self)@.index(row as int, col as int), *final(m)),
                        ..old(self)@
                    })
                },
                None => {
                    &&& !(row < old(self)@.rows && col < old(self)@.cols)
                    &&& final(self)@ == old(self)@
                },
            },
    {
        if row < self.rows && col < self.cols {
            proof {
                lemma_cell_index(row as int, col as int, self.rows as int, self.cols as int);
            }
            Some(&mut self.cells[row * self.cols + col])
        } else {
            None
        }
    }

    /// Moves the cursor to `(row, col)`, clamped to the screen.
    pub fn move_cursor(&mut self, row: usize, col: usize)
        requires
            old(self).wf(),
        ensures
            final(self).wf(),
            final(self)@ == old(self)@.cursor_clamped(row as int, col as int),
    {
        self.cursor_row = if row < self.rows - 1 { row } else { self.rows - 1 };
        self.cursor_col = if col < self.cols - 1 { col } else { self.cols - 1 };
    }

    /// Moves the cursor by `(delta_row, delta_col)`, clamped to the screen.
    pub fn move_cursor_relative(&mut self, delta_row: isize, delta_col: isize)
        requires
            old(self).wf(),
            old(self)@.rows <= isize::MAX,
            old(self)@.cols <= isize::MAX,
            old(self)@.cursor_row + delta_row <= isize::MAX,
            old(self)@.cursor_col + delta_col <= isize::MAX,
        ensures
            final(self).wf(),
            final(self)@ == (GridView {
                cursor_row: clamp(old(self)@.cursor_row + delta_row, 0, old(self)@.rows - 1),
                cursor_col: clamp(old(self)@.cursor_col + delta_col, 0, old(self)@.cols - 1),
                ..old(self)@
            }),
    {
        let new_row = clamped_offset(self.cursor_row, delta_row, self.rows - 1);
        let new_col = clamped_offset(self.cursor_col, delta_col, self.cols - 1);
        self.cursor_row = new_row;
        self.cursor_col = new_col;
    }

    /// Replaces the cells with flat indices `lo..hi` by `c`.
    fn fill(&mut self, lo: usize, hi: usize, c: Cell)
        requires
            old(self).wf(),
            lo <= hi <= old(self)@.cells.len(),
        ensures
            final(self).wf(),
            final(self)@ == old(self)@.filled(lo as int, hi as int, c),
    {
        let ghost g0 = self@;
        let mut k = lo;
        while k < hi
            invariant
                lo <= k <= hi,
                hi <= self.cells@.len(),
                self@ == (GridView { cells: self@.cells, ..g0 }),
                self.scrollback == old(self).scrollback,
                self@.cells.len() == g0.cells.len(),
                forall|i: int|
                    0 <= i < self@.cells.len() ==> #[trigger] self@.cells[i] == if lo <= i < k {
                        c
                    } else {
                        g0.cells[i]
                    },
            decreases hi - k,
        {
            self.cells.set(k, c);
            k = k + 1;
        }
        assert(self@.cells =~= g0.filled(lo as int, hi as int, c).cells);
    }

    /// Erases part of the cursor's line; erased cells keep the current
    /// background color.
    pub fn erase_line(&mut self, mode: EraseMode)
        requires
            old(self).wf(),
        ensures
            final(self).wf(),
            final(self)@ == old(self)@.line_erased(mode),
    {
        let row = self.cursor_row;
        let col = self.cursor_col;
        let bg = self.current_attrs.bg;
        let blank = Cell {
            ch: ' ',
            attrs: Attributes { bg, ..Attributes::default() },
            dirty: true,
            wide_continuation: false,
        };
        let (lo, hi) = match mode {
            EraseMode::ToEnd => (col, self.cols),
            EraseMode::ToStart => (0, col + 1),
            EraseMode::All => (0, self.cols),
        };
        proof {
            lemma_cell_index(row as int, col as int, self.rows as int, self.cols as int);
        }
        let base = row * self.cols;
        self.fill(base + lo, base + hi, blank);
    }

    /// Erases part of the display; erased cells keep the current background
    /// color.
    pub fn erase_display(&mut self, mode: EraseMode)
        requires
            old(self).wf(),
        ensures
            final(self).wf(),
            final(self)@ == old(self)@.display_erased(mode),
    {
        let row = self.cursor_row;
        let col = self.cursor_col;
        let bg = self.current_attrs.bg;
        let blank = Cell {
            ch: ' ',
            attrs: Attributes { bg, ..Attributes::default() },
            dirty: true,
            wide_continuation: false,
        };
        proof {
            lemma_cell_index(row as int, col as int, self.rows as int, self.cols as int);
        }
        let at = row * self.cols + col;
        let (start, end) = match mode {
            EraseMode::ToEnd => (at, self.cells.len()),
            EraseMode::ToStart => (0, at + 1),
            EraseMode::All => (0, self.cells.len()),
        };
        self.fill(start, end, blank);
    }

    /// Erases the whole display and homes the cursor.
    pub fn clear(&mut self)
        requires
            old(self).wf(),
        ensures
            final(self).wf(),
            final(self)@ == (GridView {
                cursor_row: 0,
                cursor_col: 0,
                ..old(self)@.display_erased(EraseMode::All)
            }),
    {
        self.erase_display(EraseMode::All);
        self.cursor_row = 0;
        self.cursor_col = 0;
    }

    /// Row `k` copied out of the screen.
    fn copy_row(&self, k: usize) -> (line: Vec<Cell>)
        requires
            self.wf(),
            k < self@.rows,
        ensures
            line@ == self@.row(k as int),
    {
        proof {
            lemma_cell_index(k as int, 0, self.rows as int, self.cols as int);
        }
        let start = k * self.cols;
        let mut line: Vec<Cell> = Vec::with_capacity(self.cols);
        let mut c: usize = 0;
        while c < self.cols
            invariant
                c <= self.cols,
                self.wf(),
                start + self.cols <= self.cells@.len(),
                start == k * self.cols,
                line@ == self.cells@.subrange(start as int, start + c),
            decreases self.cols - c,
        {
            line.push(self.cells[start + c]);
            c = c + 1;
            assert(line@ =~= self.cells@.subrange(start as int, start + c));
        }
        line
    }

    /// Scrolls the screen up by `n` rows: the top `n` rows are appended to the
    /// scrollback, the remaining rows move up, and the bottom `n` rows become
    /// blank. Every cell is marked dirty; the cursor stays where it is.
    pub fn scroll_up(&mut self, n: usize)
        requires
            old(self).wf(),
            n < old(self)@.rows,
        ensures
            final(self).wf(),
            final(self)@ == old(self)@.scrolled(n as int),
    {
        let ghost g0 = self@;
        let mut k: usize = 0;
        while k < n
            invariant
                k <= n < self.rows,
                self.wf(),
                self@ == (GridView { history: self@.history, ..g0 }),
                self@.history == g0.history_after_rows(k as int),
            decreases n - k,
        {
            let line = self.copy_row(k);
            self.scrollback.push_line(line);
            k = k + 1;
        }
        self.shift_rows(n);
        assert(self@ =~= g0.scrolled(n as int));
    }

    /// Moves the rows up by `n`, dropping the top `n` rows and blanking the
    /// bottom `n`; every cell is marked dirty.
    fn shift_rows(&mut self, n: usize)
        requires
            old(self).wf(),
            n < old(self)@.rows,
        ensures
            final(self).wf(),
            final(self)@ == old(self)@.shifted(n as int),
    {
        let ghost g0 = self@;
        proof {
            lemma_cell_index(n as int, 0, self.rows as int, self.cols as int);
        }
        let shift = n * self.cols;
        let total = self.cells.len();
        let keep = total - shift;
        // Shift the kept rows up.
        let mut i: usize = 0;
        while i < keep
            invariant
                i <= keep,
                keep + shift == total,
                total == self.cells@.len(),
                self.wf(),
                self@ == (GridView { cells: self@.cells, ..g0 }),
                forall|j: int|
                    0 <= j < total ==> #[trigger] self@.cells[j] == if j < i {
                        g0.cells[j + shift]
                    } else {
                        g0.cells[j]
                    },
            decreases keep - i,
        {
            let c = self.cells[i + shift];
            self.cells.set(i, c);
            i = i + 1;
        }
        // Clear the bottom rows.
        let mut j: usize = keep;
        while j < total
            invariant
                keep <= j <= total,
                keep + shift == total,
                total == self.cells@.len(),
                self.wf(),
                self@ == (GridView { cells: self@.cells, ..g0 }),
                forall|x: int|
                    0 <= x < total ==> #[trigger] self@.cells[x] == if x < keep {
                        g0.cells[x + shift]
                    } else if x < j {
                        dirtied(blank_cell())
                    } else {
                        g0.cells[x]
                    },
            decreases total - j,
        {
            let mut c = Cell::default();
            c.dirty = true;
            self.cells.set(j, c);
            j = j + 1;
        }
        // Mark the shifted cells dirty.
        let mut m: usize = 0;
        while m < keep
            invariant
                m <= keep,
                keep + shift == total,
                total == self.cells@.len(),
                self.wf(),
                self@ == (GridView { cells: self@.cells, ..g0 }),
                forall|x: int|
                    0 <= x < total ==> #[trigger] self@.cells[x] == if x < m {
                        dirtied(g0.cells[x + shift])
                    } else if x < keep {
                        g0.cells[x + shift]
                    } else {
                        dirtied(blank_cell())
                    },
            decreases keep - m,
        {
            let mut c = self.cells[m];
            c.dirty = true;
            self.cells.set(m, c);
            m = m + 1;
        }
        assert(self@.cells =~= g0.shifted(n as int).cells);
    }

    /// Moves the cursor to the start of the next line, shifting the rows up by
    /// one when it was on the last row.
    fn next_line(&mut self)
        requires
            old(self).wf(),
            old(self)@.next_line() is Some,
        ensures
            final(self).wf(),
            final(self)@ == old(self)@.next_line()->Some_0,
    {
        let ghost g0 = self@;
        self.cursor_col = 0;
        if self.cursor_row + 1 >= self.rows {
            self.shift_rows(1);
            self.cursor_row = self.rows - 1;
            assert(self@.cells =~= g0.shifted(1).cells);
        } else {
            self.cursor_row = self.cursor_row + 1;
        }
    }

    /// Writes `ch` at the cursor with the current attributes and advances the
    /// cursor by the character's display width, wrapping and scrolling as
    /// needed (a row that wrapping pushes off the top is dropped, not kept in
    /// the scrollback; line feeds and `scroll_up` keep it). Zero-width characters are dropped; a wide character that does
    /// not fit at the end of a line starts the next line and leaves a
    /// continuation cell in its second column.
    ///
    /// A screen of a single row cannot scroll: a write that would wrap there is
    /// refused by the precondition (see `try_write_char`).
    pub fn write_char(&mut self, ch: char)
        requires
            old(self).wf(),
            old(self)@.written(ch, char_columns(ch)) is Some,
        ensures
            final(self).wf(),
            final(self)@ == old(self)@.written(ch, char_columns(ch))->Some_0,
    {
        let w = char_width(ch);
        let width: usize = match w {
            Some(n) => n,
            None => 1,
        };
        if width == 0 {
            return;
        }
        if width == 2 && self.cursor_col >= self.cols - 1 {
            self.next_line();
        }
        let row = self.cursor_row;
        let col = self.cursor_col;
        let attrs = self.current_attrs;
        proof {
            lemma_cell_index(row as int, col as int, self.rows as int, self.cols as int);
        }
        let i = row * self.cols + col;
        self.cells.set(i, Cell { ch, attrs, wide_continuation: false, dirty: true });
        if width == 2 && col + 1 < self.cols {
            self.cells.set(i + 1, Cell { ch: ' ', attrs, wide_continuation: true, dirty: true });
        }
        if width >= self.cols - col {
            self.next_line();
        } else {
            self.cursor_col = col + width;
        }
    }

    /// Writes `ch` as `write_char` does when that is possible, and otherwise
    /// (a wrap on a single-row screen) leaves the grid unchanged and returns
    /// `false`.
    pub fn try_write_char(&mut self, ch: char) -> (ok: bool)
        requires
            old(self).wf(),
        ensures
            final(self).wf(),
            ok == old(self)@.written(ch, char_columns(ch)) is Some,
            ok ==> final(self)@ == old(self)@.written(ch, char_columns(ch))->Some_0,
            !ok ==> final(self)@ == old(self)@,
    {
        let w = char_width(ch);
        let width: usize = match w {
            Some(n) => n,
            None => 1,
        };
        let fits = if width == 0 || self.rows > 1 {
            true
        } else if width == 2 && self.cursor_col >= self.cols - 1 {
            false
        } else {
            width < self.cols - self.cursor_col
        };
        if fits {
            self.write_char(ch);
        }
        fits
    }

    /// Every dirty cell with its row and column, in screen order.
    pub fn dirty_cells(&self) -> (v: Vec<(usize, usize, Cell)>)
        requires
            self.wf(),
        ensures
            v@ == dirty_entries(self@.cells, self@.cols),
    {
        let n = self.cells.len();
        let mut out: Vec<(usize, usize, Cell)> = Vec::new();
        let mut idx: usize = 0;
        while idx < n
            invariant
                idx <= n,
                n == self.cells@.len(),
                self.cols > 0,
                out@ == dirty_entries(self.cells@.subrange(0, idx as int), self.cols as int),
            decreases n - idx,
        {
            let cell = self.cells[idx];
            let ghost pre = self.cells@.subrange(0, idx as int);
            let ghost next = self.cells@.subrange(0, idx + 1);
            assert(next.drop_last() =~= pre);
            if cell.dirty {
                out.push((idx / self.cols, idx % self.cols, cell));
            }
            idx = idx + 1;
        }
        assert(self.cells@.subrange(0, n as int) =~= self.cells@);
        out
    }

    /// Resizes the screen to `new_rows` × `new_cols`. The overlap with the old
    /// screen keeps its cells (marked dirty), the rest is blank, and the cursor
    /// is clamped to the new size.
    pub fn resize(&mut self, new_rows: usize, new_cols: usize)
        requires
            old(self).wf(),
            new_rows > 0,
            new_cols > 0,
            new_rows * new_cols <= usize::MAX,
        ensures
            final(self).wf(),
            final(self)@ == (GridView {
                rows: new_rows as int,
                cols: new_cols as int,
                cells: Seq::new(
                    (new_rows * new_cols) as nat,
                    |i: int| resized_cell(old(self)@, new_rows as int, new_cols as int, i),
                ),
                cursor_row: if old(self)@.cursor_row < new_rows - 1 { old(self)@.cursor_row } else { new_rows - 1 },
                cursor_col: if old(self)@.cursor_col < new_cols - 1 { old(self)@.cursor_col } else { new_cols - 1 },
                ..old(self)@
            }),
    {
        let ghost g0 = self@;
        let total = new_rows * new_cols;
        let mut new_cells: Vec<Cell> = Vec::with_capacity(total);
        let mut k: usize = 0;
        while k < total
            invariant
                k <= total,
                new_cells@ == Seq::new(k as nat, |i: int| blank_cell()),
            decreases total - k,
        {
            new_cells.push(Cell::default());
            k = k + 1;
            assert(new_cells@ =~= Seq::new(k as nat, |i: int| blank_cell()));
        }
        let copy_rows = if self.rows < new_rows { self.rows } else { new_rows };
        let copy_cols = if self.cols < new_cols { self.cols } else { new_cols };
        let mut r: usize = 0;
        while r < copy_rows
            invariant
                self@ == g0,
                self.wf(),
                r <= copy_rows,
                copy_rows <= new_rows,
                copy_rows <= self.rows,
                copy_cols <= new_cols,
                copy_cols <= self.cols,
                copy_rows == (if self.rows < new_rows { self.rows } else { new_rows }),
                copy_cols == (if self.cols < new_cols { self.cols } else { new_cols }),
                total == new_rows * new_cols,
                new_cells@.len() == total,
                forall|i: int|
                    0 <= i < total ==> #[trigger] new_cells@[i] == if i / (new_cols as int) < r {
                        resized_cell(g0, new_rows as int, new_cols as int, i)
                    } else {
                        blank_cell()
                    },
            decreases copy_rows - r,
        {
            let mut c: usize = 0;
            while c < copy_cols
                invariant
                    self@ == g0,
                    self.wf(),
                    r < copy_rows,
                    c <= copy_cols,
                    copy_rows <= new_rows,
                    copy_rows <= self.rows,
                    copy_cols <= new_cols,
                    copy_cols <= self.cols,
                    copy_rows == (if self.rows < new_rows { self.rows } else { new_rows }),
                    copy_cols == (if self.cols < new_cols { self.cols } else { new_cols }),
                    total == new_rows * new_cols,
                    new_cells@.len() == total,
                    forall|i: int|
                        0 <= i < total ==> #[trigger] new_cells@[i] == if i / (new_cols as int) < r
                            || (i / (new_cols as int) == r && i % (new_cols as int) < c) {
                            resized_cell(g0, new_rows as int, new_cols as int, i)
                        } else {
                            blank_cell()
                        },
                decreases copy_cols - c,
            {
                proof {
                    lemma_cell_index(r as int, c as int, self.rows as int, self.cols as int);
                    lemma_cell_index(r as int, c as int, new_rows as int, new_cols as int);
                }
                let src = self.cells[r * self.cols + c];
                let dst = r * new_cols + c;
                let mut cell = src;
                cell.dirty = true;
                new_cells.set(dst, cell);
                proof {
                    let nc = new_cols as int;
                    vstd::arithmetic::div_mod::lemma_fundamental_div_mod_converse(dst as int, nc, r as int, c as int);
                    assert forall|i: int| 0 <= i < total implies #[trigger] new_cells@[i] == if i / nc < r
                        || (i / nc == r && i % nc < c + 1) {
                        resized_cell(g0, new_rows as int, new_cols as int, i)
                    } else {
                        blank_cell()
                    } by {
                        if i != dst {
                            vstd::arithmetic::div_mod::lemma_fundamental_div_mod(i, nc);
                            if i / nc == r && i % nc == c {
                                vstd::arithmetic::mul::lemma_mul_is_commutative(nc, r as int);
                                assert(i == nc * r + c);
                                assert(false);
                            }
                        }
                    }
                }
                c = c + 1;
            }
            proof {
                let nc = new_cols as int;
                assert forall|i: int| 0 <= i < total implies #[trigger] new_cells@[i] == if i / nc < r + 1 {
                    resized_cell(g0, new_rows as int, new_cols as int, i)
                } else {
                    blank_cell()
                } by {
                    if i / nc == r {
                        vstd::arithmetic::div_mod::lemma_mod_bound(i, nc);
                        if i % nc >= copy_cols {
                            assert(resized_cell(g0, new_rows as int, nc, i) == blank_cell());
                        }
                    }
                }
            }
            r = r + 1;
        }
        proof {
            let nc = new_cols as int;
            assert forall|i: int| 0 <= i < total implies #[trigger] new_cells@[i] == resized_cell(g0, new_rows as int, nc, i) by {
                if i / nc >= r {
                    assert(resized_cell(g0, new_rows as int, nc, i) == blank_cell());
                }
            }
            assert(new_cells@ =~= Seq::new(total as nat, |i: int| resized_cell(g0, new_rows as int, nc, i)));
        }
        self.rows = new_rows;
        self.cols = new_cols;
        self.cells = new_cells;
        self.cursor_row = if self.cursor_row < new_rows - 1 { self.cursor_row } else { new_rows - 1 };
        self.cursor_col = if self.cursor_col < new_cols - 1 { self.cursor_col } else { new_cols - 1 };
    }

    /// The screen as plain text: each row's characters followed by a line
    /// break (colors are ignored).
    pub fn to_string(&self) -> (s: String)
        requires
            self.wf(),
        ensures
            s@ == text_of_rows(self@, self@.rows),
    {
        let mut s = String::new();
        let mut r: usize = 0;
        while r < self.rows
            invariant
                self.wf(),
                r <= self.rows,
                s@ == text_of_rows(self@, r as int),
            decreases self.rows - r,
        {
            proof {
                lemma_cell_index(r as int, 0, self.rows as int, self.cols as int);
            }
            let base = r * self.cols;
            let ghost before = s@;
            let mut c: usize = 0;
            while c < self.cols
                invariant
                    self.wf(),
                    r < self.rows,
                    c <= self.cols,
                    base == r * self.cols,
                    base + self.cols <= self.cells@.len(),
                    s@ == before + self@.row(r as int).take(c as int).map_values(|x: Cell| x.ch),
                decreases self.cols - c,
            {
                let ch = self.cells[base + c].ch;
                push_char(&mut s, ch);
                c = c + 1;
                assert(self@.row(r as int).take(c as int).map_values(|x: Cell| x.ch) =~= self@.row(r as int).take(c - 1).map_values(|x: Cell| x.ch).push(ch));
            }
            push_char(&mut s, '\n');
            assert(self@.row(r as int).take(self.cols as int) =~= self@.row(r as int));
            r = r + 1;
        }
        s
    }

    /// Marks every cell clean.
    pub fn clear_dirty(&mut self)
        requires
            old(self).wf(),
        ensures
            final(self).wf(),
            final(self)@ == (GridView {
                cells: old(self)@.cells.map_values(|c: Cell| cleaned(c)),
                ..old(self)@
            }),
    {
        let ghost g0 = self@;
        let n = self.cells.len();
        let mut k: usize = 0;
        while k < n
            invariant
                k <= n,
                n == self.cells@.len(),
                self@ == (GridView { cells: self@.cells, ..g0 }),
                self.scrollback == old(self).scrollback,
                self@.cells.len() == g0.cells.len(),
                forall|i: int|
                    0 <= i < n ==> #[trigger] self@.cells[i] == if i < k {
                        cleaned(g0.cells[i])
                    } else {
                        g0.cells[i]
                    },
            decreases n - k,
        {
            let mut c = self.cells[k];
            c.dirty = false;
            self.cells.set(k, c);
            k = k + 1;
        }
        assert(self@.cells =~= g0.cells.map_values(|c: Cell| cleaned(c)));
    }
}

/// `v + delta` limited to `0..=hi`, computed without leaving `usize`.
fn clamped_offset(v: usize, delta: isize, hi: usize) -> (r: usize)
    requires
        v <= hi,
        hi <= isize::MAX,
        v + delta <= isize::MAX,
    ensures
        r == clamp(v + delta, 0, hi as int),
{
    if delta < 0 {
        let back = (0 - (delta + 1)) as usize + 1;
        if back >= v {
            0
        } else {
            v - back
        }
    } else {
        let fwd = delta as usize;
        if fwd >= hi - v {
            hi
        } else {
            v + fwd
        }
    }
}

} // verus!
