//! The screen grid: a 2D array of cells.
//!
//! A terminal screen is a grid of characters; each cell holds one character
//! plus its visual attributes and a dirty flag. Cells are stored in a flat
//! `Vec` indexed as `row * cols + col`. Every character is one column wide, and
//! rows scrolled off the top are discarded.

use vstd::prelude::*;
use crate::unicode::push_char;

verus! {

/// ANSI color — one of the 8 basic colors, a 256-color index, or a full
/// 24-bit RGB color.
#[derive(Debug, Clone, Copy, PartialEq, Eq, Structural)]
pub enum Color {
    Default,
    Black,
    Red,
    Green,
    Yellow,
    Blue,
    Magenta,
    Cyan,
    White,
    /// 256-color palette: `\x1b[38;5;Nm`
    Indexed(u8),
    /// True color: `\x1b[38;2;R;G;Bm`
    Rgb(u8, u8, u8),
}

/// Visual attributes for a cell.
#[derive(Debug, Clone, Copy, PartialEq, Eq, Structural)]
pub struct Attributes {
    pub bold: bool,
    pub italic: bool,
    pub underline: bool,
    pub blink: bool,
    /// swap fg/bg colors
    pub reverse: bool,
    pub fg: Color,
    pub bg: Color,
}

/// Plain text in the terminal's default colors.
pub open spec fn plain() -> Attributes {
    Attributes {
        bold: false,
        italic: false,
        underline: false,
        blink: false,
        reverse: false,
        fg: Color::Default,
        bg: Color::Default,
    }
}

impl Default for Attributes {
    fn default() -> (a: Self)
        ensures
            a == plain(),
    {
        Attributes {
            bold: false,
            italic: false,
            underline: false,
            blink: false,
            reverse: false,
            fg: Color::Default,
            bg: Color::Default,
        }
    }
}

/// A single cell in the terminal grid.
#[derive(Debug, Clone, Copy, PartialEq, Eq, Structural)]
pub struct Cell {
    /// The character displayed in this cell.
    pub ch: char,
    /// Visual attributes (color, bold, etc.)
    pub attrs: Attributes,
    /// Whether this cell has changed since last render.
    pub dirty: bool,
}

/// A space in plain attributes, clean.
pub open spec fn empty_cell() -> Cell {
    Cell { ch: ' ', attrs: plain(), dirty: false }
}

/// `c` marked as changed.
pub open spec fn touched(c: Cell) -> Cell {
    Cell { dirty: true, ..c }
}

impl Default for Cell {
    fn default() -> (c: Self)
        ensures
            c == empty_cell(),
    {
        Cell { ch: ' ', attrs: Attributes::default(), dirty: false }
    }
}

/// Mathematical model of a [`Grid`].
pub struct Screen {
    pub rows: int,
    pub cols: int,
    pub cells: Seq<Cell>,
    pub cursor_row: int,
    pub cursor_col: int,
    pub attrs: Attributes,
}

impl Screen {
    /// A non-empty screen with the cursor on it.
    pub open spec fn wf(self) -> bool {
        &&& self.rows > 0
        &&& self.cols > 0
        &&& self.cells.len() == self.rows * self.cols
        &&& 0 <= self.cursor_row < self.rows
        &&& 0 <= self.cursor_col < self.cols
    }

    pub open spec fn cell(self, r: int, c: int) -> Cell {
        self.cells[r * self.cols + c]
    }

    /// All rows moved up by one (the top row is lost), the bottom row blank;
    /// every cell marked dirty.
    pub open spec fn scrolled(self) -> Screen {
        let keep = self.cells.len() - self.cols;
        Screen {
            cells: Seq::new(
                self.cells.len(),
                |i: int|
                    if i < keep {
                        touched(self.cells[i + self.cols])
                    } else {
                        touched(empty_cell())
                    },
            ),
            ..self
        }
    }

    /// `ch` written at the cursor, which then advances, wrapping at the end
    /// of a line and scrolling past the last row.
    pub open spec fn written(self, ch: char) -> Screen {
        let at = self.cursor_row * self.cols + self.cursor_col;
        let s1 = Screen {
            cells: self.cells.update(at, Cell { ch: ch, attrs: self.attrs, dirty: true }),
            ..self
        };
        if self.cursor_col + 1 >= self.cols {
            if self.cursor_row + 1 >= self.rows {
                Screen { cursor_col: 0, cursor_row: self.rows - 1, ..s1.scrolled() }
            } else {
                Screen { cursor_col: 0, cursor_row: self.cursor_row + 1, ..s1 }
            }
        } else {
            Screen { cursor_col: self.cursor_col + 1, ..s1 }
        }
    }
}

/// Law: what a write puts down is read back. Writing a character anywhere
/// but the last cell of the screen (where the screen would scroll) leaves
/// that cell holding the character in the current attributes, marked dirty,
/// and every other cell as it was.
pub proof fn lemma_write_then_read(s: Screen, ch: char)
    requires
        s.wf(),
        !(s.cursor_row == s.rows - 1 && s.cursor_col == s.cols - 1),
    ensures
        s.written(ch).cell(s.cursor_row, s.cursor_col) == (Cell { ch: ch, attrs: s.attrs, dirty: true }),
        forall|i: int|
            0 <= i < s.cells.len() && i != s.cursor_row * s.cols + s.cursor_col ==> s.written(ch).cells[i]
                == s.cells[i],
{
    lemma_index(s.cursor_row, s.cursor_col, s.rows, s.cols);
}

/// The full terminal screen grid, stored flat as `cells[row * cols + col]`.
pub struct Grid {
    pub rows: usize,
    pub cols: usize,
    pub(crate) cells: Vec<Cell>,
    /// Cursor position — where the next character will be written
    pub cursor_row: usize,
    pub cursor_col: usize,
    /// Current attributes for newly written characters
    pub current_attrs: Attributes,
}

impl View for Grid {
    type V = Screen;

    open(crate) spec fn view(&self) -> Screen {
        Screen {
            rows: self.rows as int,
            cols: self.cols as int,
            cells: self.cells@,
            cursor_row: self.cursor_row as int,
            cursor_col: self.cursor_col as int,
            attrs: self.current_attrs,
        }
    }
}

/// The dirty cells among `cells` (a screen `cols` wide) with their row and
/// column, in order.
pub open spec fn dirty_list(cells: Seq<Cell>, cols: int) -> Seq<(usize, usize, Cell)>
    decreases cells.len(),
{
    if cells.len() == 0 {
        Seq::empty()
    } else {
        let n = cells.len() - 1;
        let prev = dirty_list(cells.drop_last(), cols);
        if cells.last().dirty {
            prev.push(((n / cols) as usize, (n % cols) as usize, cells.last()))
        } else {
            prev
        }
    }
}

/// The characters of rows `0..n`, each row followed by a line break.
pub open spec fn screen_text(s: Screen, n: int) -> Seq<char>
    decreases n,
{
    if n <= 0 {
        Seq::empty()
    } else {
        screen_text(s, n - 1) + s.cells.subrange((n - 1) * s.cols, (n - 1) * s.cols + s.cols).map_values(
            |c: Cell| c.ch,
        ).push('\n')
    }
}

/// Lemma: a cell address inside the grid lies inside the flat cell vector.
proof fn lemma_index(r: int, c: int, rows: int, cols: int)
    requires
        0 <= r < rows,
        0 <= c < cols,
    ensures
        0 <= r * cols,
        r * cols + c < rows * cols,
        r * cols + cols <= rows * cols,
{
    assert(0 <= r * cols) by (nonlinear_arith)
        requires
            0 <= r,
            0 <= c < cols,
    ;
    assert(r * cols + cols <= rows * cols) by (nonlinear_arith)
        requires
            0 <= r < rows,
            0 <= c < cols,
    ;
}

impl Grid {
    /// A non-empty grid with the cursor on it.
    pub open(crate) spec fn wf(&self) -> bool {
        &&& self@.wf()
        &&& self@.cells.len() <= usize::MAX
    }

    /// Create a new grid filled with empty (space) cells.
    pub fn new(rows: usize, cols: usize) -> (g: Self)
        requires
            rows * cols <= usize::MAX,
        ensures
            g@.rows == rows,
            g@.cols == cols,
            g@.cells == Seq::new((rows * cols) as nat, |i: int| empty_cell()),
            g@.cursor_row == 0,
            g@.cursor_col == 0,
            g@.attrs == plain(),
            rows > 0 && cols > 0 ==> g.wf(),
    {
        let n = rows * cols;
        let mut cells: Vec<Cell> = Vec::with_capacity(n);
        let mut k: usize = 0;
        while k < n
            invariant
                k <= n,
                cells@ == Seq::new(k as nat, |i: int| empty_cell()),
            decreases n - k,
        {
            cells.push(Cell::default());
            k = k + 1;
            assert(cells@ =~= Seq::new(k as nat, |i: int| empty_cell()));
        }
        Grid { rows, cols, cells, cursor_row: 0, cursor_col: 0, current_attrs: Attributes::default() }
    }

    /// The cell at `(row, col)`, or `None` outside the grid.
    pub fn get(&self, row: usize, col: usize) -> (r: Option<&Cell>)
        requires
            self.wf(),
        ensures
            (row < self@.rows && col < self@.cols) ==> r == Some(&self@.cell(row as int, col as int)),
            !(row < self@.rows && col < self@.cols) ==> r is None,
    {
        if row < self.rows && col < self.cols {
            proof {
                lemma_index(row as int, col as int, self.rows as int, self.cols as int);
            }
            Some(&self.cells[row * self.cols + col])
        } else {
            None
        }
    }

    /// Mutable access to the cell at `(row, col)`, or `None` outside the grid.
    pub fn get_mut(&mut self, row: usize, col: usize) -> (r: Option<&mut Cell>)
        requires
            old(self).wf(),
        ensures
            match r {
                Some(m) => {
                    &&& row < old(self)@.rows && col < old(self)@.cols
                    &&& *m == old(self)@.cell(row as int, col as int)
                    &&& final(self)@ == (Screen {
                        cells: old(self)@.cells.update(row * old(self)@.cols + col, *final(m)),
                        ..old(self)@
                    })
                },
                None => {
                    &&& !(row < old(self)@.rows && col < old(self)@.cols)
                    &&& final(self)@ == old(self)@
                },
            },
    {
        if row < self.rows && col < self.cols {
            proof {
                lemma_index(row as int, col as int, self.rows as int, self.cols as int);
            }
            Some(&mut self.cells[row * self.cols + col])
        } else {
            None
        }
    }

    /// Write a character at the current cursor position, advance the cursor,
    /// wrap at the end of a line and scroll past the last row.
    pub fn write_char(&mut self, ch: char)
        requires
            old(self).wf(),
        ensures
            final(self).wf(),
            final(self)@ == old(self)@.written(ch),
    {
        let ghost s0 = self@;
        let row = self.cursor_row;
        let col = self.cursor_col;
        let attrs = self.current_attrs;
        proof {
            lemma_index(row as int, col as int, self.rows as int, self.cols as int);
        }
        self.cells.set(row * self.cols + col, Cell { ch, attrs, dirty: true });
        let ghost s1 = self@;
        self.cursor_col = self.cursor_col + 1;
        if self.cursor_col >= self.cols {
            self.cursor_col = 0;
            if self.cursor_row + 1 >= self.rows {
                self.scroll_up();
                self.cursor_row = self.rows - 1;
                assert(self@.cells =~= s1.scrolled().cells);
            } else {
                self.cursor_row = self.cursor_row + 1;
            }
        }
    }

    /// Scroll all rows up by one. The top row is lost; the bottom row becomes
    /// empty spaces. Every cell is marked dirty.
    pub fn scroll_up(&mut self)
        requires
            old(self).wf(),
        ensures
            final(self).wf(),
            final(self)@ == old(self)@.scrolled(),
    {
        let ghost s0 = self@;
        let total = self.cells.len();
        proof {
            lemma_index(self.rows - 1, 0, self.rows as int, self.cols as int);
            assert((self.rows - 1) * self.cols + self.cols == self.rows * self.cols) by (nonlinear_arith)
                requires
                    self.rows > 0;
        }
        let keep = total - self.cols;
        let mut i: usize = 0;
        while i < keep
            invariant
                i <= keep,
                keep + self.cols == total,
                total == self.cells@.len(),
                self.wf(),
                self@ == (Screen { cells: self@.cells, ..s0 }),
                forall|j: int|
                    0 <= j < total ==> #[trigger] self@.cells[j] == if j < i {
                        touched(s0.cells[j + s0.cols])
                    } else {
                        s0.cells[j]
                    },
            decreases keep - i,
        {
            let mut c = self.cells[i + self.cols];
            c.dirty = true;
            self.cells.set(i, c);
            i = i + 1;
        }
        let mut j: usize = keep;
        while j < total
            invariant
                keep <= j <= total,
                keep + self.cols == total,
                total == self.cells@.len(),
                self.wf(),
                self@ == (Screen { cells: self@.cells, ..s0 }),
                forall|x: int|
                    0 <= x < total ==> #[trigger] self@.cells[x] == if x < keep {
                        touched(s0.cells[x + s0.cols])
                    } else if x < j {
                        touched(empty_cell())
                    } else {
                        s0.cells[x]
                    },
            decreases total - j,
        {
            let mut c = Cell::default();
            c.dirty = true;
            self.cells.set(j, c);
            j = j + 1;
        }
        assert(self@.cells =~= s0.scrolled().cells);
    }

    /// Replaces the cells with flat indices `lo..hi` by `c`.
    fn fill(&mut self, lo: usize, hi: usize, c: Cell)
        requires
            old(self).wf(),
            lo <= hi <= old(self)@.cells.len(),
        ensures
            final(self).wf(),
            final(self)@ == (Screen {
                cells: Seq::new(
                    old(self)@.cells.len(),
                    |i: int|
                        if lo <= i < hi {
                            c
                        } else {
                            old(self)@.cells[i]
                        },
                ),
                ..old(self)@
            }),
    {
        let ghost s0 = self@;
        let mut k = lo;
        while k < hi
            invariant
                lo <= k <= hi,
                hi <= self.cells@.len(),
                self.wf(),
                self@ == (Screen { cells: self@.cells, ..s0 }),
                self@.cells.len() == s0.cells.len(),
                forall|i: int|
                    0 <= i < self@.cells.len() ==> #[trigger] self@.cells[i] == if lo <= i < k {
                        c
                    } else {
                        s0.cells[i]
                    },
            decreases hi - k,
        {
            self.cells.set(k, c);
            k = k + 1;
        }
        assert(self@.cells =~= Seq::new(
            s0.cells.len(),
            |i: int|
                if lo <= i < hi {
                    c
                } else {
                    s0.cells[i]
                },
        ));
    }

    /// Clear the entire screen — every cell becomes a blank (dirty) cell that
    /// carries the current background color, so colored screens erase
    /// cleanly; cursor at the origin.
    pub fn clear(&mut self)
        requires
            old(self).wf(),
        ensures
            final(self).wf(),
            final(self)@ == (Screen {
                cells: Seq::new(
                    old(self)@.cells.len(),
                    |i: int|
                        Cell { ch: ' ', attrs: Attributes { bg: old(self)@.attrs.bg, ..plain() }, dirty: true },
                ),
                cursor_row: 0,
                cursor_col: 0,
                ..old(self)@
            }),
    {
        let n = self.cells.len();
        let bg = self.current_attrs.bg;
        let blank = Cell { ch: ' ', attrs: Attributes { bg, ..Attributes::default() }, dirty: true };
        self.fill(0, n, blank);
        self.cursor_row = 0;
        self.cursor_col = 0;
        assert(self@.cells =~= Seq::new(
            n as nat,
            |i: int| Cell { ch: ' ', attrs: Attributes { bg: bg, ..plain() }, dirty: true },
        ));
    }

    /// Clear from cursor to end of line. Cleared cells carry the current
    /// background color.
    pub fn clear_line_from_cursor(&mut self)
        requires
            old(self).wf(),
        ensures
            final(self).wf(),
            ({
                let s = old(self)@;
                let base = s.cursor_row * s.cols;
                final(self)@ == Screen {
                    cells: Seq::new(
                        s.cells.len(),
                        |i: int|
                            if base + s.cursor_col <= i < base + s.cols {
                                Cell {
                                    ch: ' ',
                                    attrs: Attributes { fg: Color::Default, bg: s.attrs.bg, ..plain() },
                                    dirty: true,
                                }
                            } else {
                                s.cells[i]
                            },
                    ),
                    ..s
                }
            }),
    {
        let row = self.cursor_row;
        let col = self.cursor_col;
        let attrs = self.current_attrs;
        let blank = Cell {
            ch: ' ',
            attrs: Attributes { fg: Color::Default, bg: attrs.bg, ..Attributes::default() },
            dirty: true,
        };
        proof {
            lemma_index(row as int, col as int, self.rows as int, self.cols as int);
        }
        let base = row * self.cols;
        let ghost s0 = self@;
        self.fill(base + col, base + self.cols, blank);
        assert(self@.cells =~= Seq::new(
            s0.cells.len(),
            |i: int|
                if base + s0.cursor_col <= i < base + s0.cols {
                    Cell {
                        ch: ' ',
                        attrs: Attributes { fg: Color::Default, bg: s0.attrs.bg, ..plain() },
                        dirty: true,
                    }
                } else {
                    s0.cells[i]
                },
        ));
    }

    /// Move cursor to absolute position. Clamps to grid bounds.
    pub fn move_cursor(&mut self, row: usize, col: usize)
        requires
            old(self).wf(),
        ensures
            final(self).wf(),
            final(self)@ == (Screen {
                cursor_row: if row < old(self)@.rows - 1 { row as int } else { old(self)@.rows - 1 },
                cursor_col: if col < old(self)@.cols - 1 { col as int } else { old(self)@.cols - 1 },
                ..old(self)@
            }),
    {
        self.cursor_row = if row < self.rows - 1 { row } else { self.rows - 1 };
        self.cursor_col = if col < self.cols - 1 { col } else { self.cols - 1 };
    }

    /// All dirty cells with their positions, in screen order — what a
    /// renderer needs to draw.
    pub fn dirty_cells(&self) -> (v: Vec<(usize, usize, Cell)>)
        requires
            self.wf(),
        ensures
            v@ == dirty_list(self@.cells, self@.cols),
    {
        let n = self.cells.len();
        let mut out: Vec<(usize, usize, Cell)> = Vec::new();
        let mut idx: usize = 0;
        while idx < n
            invariant
                idx <= n,
                n == self.cells@.len(),
                self.cols > 0,
                out@ == dirty_list(self.cells@.subrange(0, idx as int), self.cols as int),
            decreases n - idx,
        {
            let cell = self.cells[idx];
            assert(self.cells@.subrange(0, idx + 1).drop_last() =~= self.cells@.subrange(0, idx as int));
            if cell.dirty {
                out.push((idx / self.cols, idx % self.cols, cell));
            }
            idx = idx + 1;
        }
        assert(self.cells@.subrange(0, n as int) =~= self.cells@);
        out
    }

    /// Mark all cells as clean after rendering.
    pub fn clear_dirty(&mut self)
        requires
            old(self).wf(),
        ensures
            final(self).wf(),
            final(self)@ == (Screen {
                cells: old(self)@.cells.map_values(|c: Cell| Cell { dirty: false, ..c }),
                ..old(self)@
            }),
    {
        let ghost s0 = self@;
        let n = self.cells.len();
        let mut k: usize = 0;
        while k < n
            invariant
                k <= n,
                n == self.cells@.len(),
                self.wf(),
                self@ == (Screen { cells: self@.cells, ..s0 }),
                forall|i: int|
                    0 <= i < n ==> #[trigger] self@.cells[i] == if i < k {
                        Cell { dirty: false, ..s0.cells[i] }
                    } else {
                        s0.cells[i]
                    },
            decreases n - k,
        {
            let mut c = self.cells[k];
            c.dirty = false;
            self.cells.set(k, c);
            k = k + 1;
        }
        assert(self@.cells =~= s0.cells.map_values(|c: Cell| Cell { dirty: false, ..c }));
    }

    /// Simple text rendering for debugging — ignores colors: each row's
    /// characters followed by a line break.
    pub fn to_string(&self) -> (s: String)
        requires
            self.wf(),
        ensures
            s@ == screen_text(self@, self@.rows),
    {
        let mut s = String::new();
        let mut r: usize = 0;
        while r < self.rows
            invariant
                self.wf(),
                r <= self.rows,
                s@ == screen_text(self@, r as int),
            decreases self.rows - r,
        {
            proof {
                lemma_index(r as int, 0, self.rows as int, self.cols as int);
            }
            let base = r * self.cols;
            let ghost row = self@.cells.subrange(base as int, base + self.cols);
            let ghost before = s@;
            let mut c: usize = 0;
            while c < self.cols
                invariant
                    self.wf(),
                    r < self.rows,
                    c <= self.cols,
                    base == r * self.cols,
                    base + self.cols <= self.cells@.len(),
                    row == self@.cells.subrange(base as int, base + self.cols),
                    s@ == before + row.take(c as int).map_values(|x: Cell| x.ch),
                decreases self.cols - c,
            {
                let ch = self.cells[base + c].ch;
                push_char(&mut s, ch);
                c = c + 1;
                assert(row.take(c as int).map_values(|x: Cell| x.ch) =~= row.take(c - 1).map_values(
                    |x: Cell| x.ch,
                ).push(ch));
            }
            push_char(&mut s, '\n');
            assert(row.take(self.cols as int) =~= row);
            r = r + 1;
        }
        s
    }
}

} // verus!
