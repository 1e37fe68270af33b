//! Incremental rendering: which drawing commands bring the host terminal up
//! to date with a grid.
//!
//! Only dirty cells are drawn (continuation halves of wide characters are
//! skipped, the wide character covers them). A cursor move is emitted only
//! where a cell does not directly follow the previously drawn one on the same
//! row, and a color or attribute change only where it differs from the
//! previously drawn cell. The sequence ends by placing the cursor.

use vstd::prelude::*;
use crate::terminal::screen_buffer::{
    Attributes, Cell, Color, Grid, GridView, dirty_entries, cleaned, lemma_cleaned_has_no_dirty,
};

verus! {

/// A text attribute switched on or off.
#[derive(Debug, Clone, Copy, PartialEq, Eq, Structural)]
pub enum StyleAttribute {
    Bold,
    NormalIntensity,
    Italic,
    NoItalic,
    Underlined,
    NoUnderline,
    SlowBlink,
    NoBlink,
    Reverse,
    NoReverse,
}

/// One drawing command for the host terminal.
#[derive(Debug, Clone, Copy, PartialEq, Eq, Structural)]
pub enum DrawCommand {
    /// Move the cursor to `(column, row)`.
    MoveTo(u16, u16),
    SetForeground(Color),
    SetBackground(Color),
    SetAttribute(StyleAttribute),
    /// Print one character at the cursor.
    Print(char),
}

/// `cmd` when `cond` holds, nothing otherwise.
pub open spec fn when(cond: bool, cmd: DrawCommand) -> Seq<DrawCommand> {
    if cond {
        seq![cmd]
    } else {
        Seq::empty()
    }
}

/// The attribute command for a flag that is now `now`.
pub open spec fn flag_command(now: bool, on: StyleAttribute, off: StyleAttribute) -> DrawCommand {
    DrawCommand::SetAttribute(if now { on } else { off })
}

/// The commands that prepare the drawing of a cell at `(row, col)`, given
/// the position and attributes of the previously drawn cell, if any: a cursor
/// move unless the cell directly follows that one on the same row; then each
/// color and attribute that differs from it (all of them for the first
/// cell).
#[verifier::opaque]
pub open spec fn cell_setup(last: Option<((usize, usize), Attributes)>, row: usize, col: usize, a: Attributes) -> Seq<DrawCommand> {
    let has = last is Some;
    let pos = last->Some_0.0;
    let la = last->Some_0.1;
    when(!(has && pos.0 == row && col > 0 && pos.1 == col - 1), DrawCommand::MoveTo(col as u16, row as u16))
        + when(!(has && la.fg == a.fg), DrawCommand::SetForeground(a.fg))
        + when(!(has && la.bg == a.bg), DrawCommand::SetBackground(a.bg))
        + when(!(has && la.bold == a.bold), flag_command(a.bold, StyleAttribute::Bold, StyleAttribute::NormalIntensity))
        + when(!(has && la.italic == a.italic), flag_command(a.italic, StyleAttribute::Italic, StyleAttribute::NoItalic))
        + when(!(has && la.underline == a.underline), flag_command(a.underline, StyleAttribute::Underlined, StyleAttribute::NoUnderline))
        + when(!(has && la.blink == a.blink), flag_command(a.blink, StyleAttribute::SlowBlink, StyleAttribute::NoBlink))
        + when(!(has && la.reverse == a.reverse), flag_command(a.reverse, StyleAttribute::Reverse, StyleAttribute::NoReverse))
}

/// The commands for one drawn cell at `(row, col)`: its setup, then the
/// character.
pub open spec fn cell_commands(last: Option<((usize, usize), Attributes)>, row: usize, col: usize, cell: Cell) -> Seq<DrawCommand> {
    cell_setup(last, row, col, cell.attrs) + seq![DrawCommand::Print(cell.ch)]
}

/// The commands for the first `n` dirty entries, and the position and
/// attributes of the last cell drawn.
pub open spec fn entries_commands(entries: Seq<(usize, usize, Cell)>, n: int) -> (Seq<DrawCommand>, Option<((usize, usize), Attributes)>)
    decreases n,
{
    if n <= 0 {
        (Seq::empty(), None)
    } else {
        let (cmds, last) = entries_commands(entries, n - 1);
        let (row, col, cell) = entries[n - 1];
        if cell.wide_continuation {
            (cmds, last)
        } else {
            (cmds + cell_commands(last, row, col, cell), Some(((row, col), cell.attrs)))
        }
    }
}

/// The commands of a whole frame for `entries` (the dirty cells of a grid in
/// screen order) and a cursor at `(cursor_row, cursor_col)`.
pub open spec fn frame_commands(entries: Seq<(usize, usize, Cell)>, cursor_row: int, cursor_col: int) -> Seq<DrawCommand> {
    entries_commands(entries, entries.len() as int).0.push(
        DrawCommand::MoveTo(cursor_col as u16, cursor_row as u16),
    )
}

/// The characters printed by `cmds`, in order.
pub open spec fn printed(cmds: Seq<DrawCommand>) -> Seq<char>
    decreases cmds.len(),
{
    if cmds.len() == 0 {
        Seq::empty()
    } else {
        printed(cmds.drop_last()) + match cmds.last() {
            DrawCommand::Print(c) => seq![c],
            _ => Seq::empty(),
        }
    }
}

/// The characters of the first `n` entries that are not continuation halves
/// of wide characters.
pub open spec fn drawn_chars(entries: Seq<(usize, usize, Cell)>, n: int) -> Seq<char>
    decreases n,
{
    if n <= 0 {
        Seq::empty()
    } else if entries[n - 1].2.wide_continuation {
        drawn_chars(entries, n - 1)
    } else {
        drawn_chars(entries, n - 1).push(entries[n - 1].2.ch)
    }
}

/// Lemma: printing a concatenation prints each part in turn.
pub proof fn lemma_printed_concat(a: Seq<DrawCommand>, b: Seq<DrawCommand>)
    ensures
        printed(a + b) == printed(a) + printed(b),
    decreases b.len(),
{
    if b.len() == 0 {
        assert(a + b =~= a);
        assert(printed(a) + printed(b) =~= printed(a));
    } else {
        lemma_printed_concat(a, b.drop_last());
        assert((a + b).drop_last() =~= a + b.drop_last());
        assert(printed(a) + printed(b) =~= printed(a) + printed(b.drop_last()) + match b.last() {
            DrawCommand::Print(c) => seq![c],
            _ => Seq::<char>::empty(),
        });
    }
}

/// Lemma: appending what `when` adds to a silent sequence keeps it silent,
/// unless the command is a `Print`.
proof fn lemma_printed_when(a: Seq<DrawCommand>, cond: bool, cmd: DrawCommand)
    requires
        !(cmd is Print),
        printed(a) == Seq::<char>::empty(),
    ensures
        printed(a + when(cond, cmd)) == Seq::<char>::empty(),
{
    if cond {
        let s = a + seq![cmd];
        assert(s.drop_last() =~= a);
        assert(s.last() == cmd);
        assert(printed(s) =~= printed(a) + Seq::<char>::empty());
    } else {
        assert(a + when(cond, cmd) =~= a);
    }
}

/// Lemma: a single command prints its character if it is a `Print`.
proof fn lemma_printed_single(cmd: DrawCommand)
    ensures
        printed(seq![cmd]) == match cmd {
            DrawCommand::Print(c) => seq![c],
            _ => Seq::<char>::empty(),
        },
{
    let s = seq![cmd];
    assert(s.drop_last() =~= Seq::<DrawCommand>::empty());
    assert(printed(Seq::<DrawCommand>::empty()) == Seq::<char>::empty());
    assert(s.last() == cmd);
    assert(printed(s) =~= Seq::<char>::empty() + match cmd {
        DrawCommand::Print(c) => seq![c],
        _ => Seq::<char>::empty(),
    });
}

/// Lemma: the setup of a cell prints nothing.
proof fn lemma_setup_silent(last: Option<((usize, usize), Attributes)>, row: usize, col: usize, a: Attributes)
    ensures
        printed(cell_setup(last, row, col, a)) == Seq::<char>::empty(),
{
    let has = last is Some;
    let pos = last->Some_0.0;
    let la = last->Some_0.1;
    let e = Seq::<DrawCommand>::empty();
    let c1 = !(has && pos.0 == row && col > 0 && pos.1 == col - 1);
    let m1 = DrawCommand::MoveTo(col as u16, row as u16);
    let w1 = when(c1, m1);
    assert(e + w1 =~= w1);
    lemma_printed_when(e, c1, m1);
    let c2 = !(has && la.fg == a.fg);
    let m2 = DrawCommand::SetForeground(a.fg);
    lemma_printed_when(w1, c2, m2);
    let s2 = w1 + when(c2, m2);
    let c3 = !(has && la.bg == a.bg);
    let m3 = DrawCommand::SetBackground(a.bg);
    lemma_printed_when(s2, c3, m3);
    let s3 = s2 + when(c3, m3);
    let c4 = !(has && la.bold == a.bold);
    let m4 = flag_command(a.bold, StyleAttribute::Bold, StyleAttribute::NormalIntensity);
    lemma_printed_when(s3, c4, m4);
    let s4 = s3 + when(c4, m4);
    let c5 = !(has && la.italic == a.italic);
    let m5 = flag_command(a.italic, StyleAttribute::Italic, StyleAttribute::NoItalic);
    lemma_printed_when(s4, c5, m5);
    let s5 = s4 + when(c5, m5);
    let c6 = !(has && la.underline == a.underline);
    let m6 = flag_command(a.underline, StyleAttribute::Underlined, StyleAttribute::NoUnderline);
    lemma_printed_when(s5, c6, m6);
    let s6 = s5 + when(c6, m6);
    let c7 = !(has && la.blink == a.blink);
    let m7 = flag_command(a.blink, StyleAttribute::SlowBlink, StyleAttribute::NoBlink);
    lemma_printed_when(s6, c7, m7);
    let s7 = s6 + when(c7, m7);
    let c8 = !(has && la.reverse == a.reverse);
    let m8 = flag_command(a.reverse, StyleAttribute::Reverse, StyleAttribute::NoReverse);
    lemma_printed_when(s7, c8, m8);
    reveal(cell_setup);
}

/// Lemma: the commands for one cell print exactly its character.
pub proof fn lemma_printed_cell(last: Option<((usize, usize), Attributes)>, row: usize, col: usize, cell: Cell)
    ensures
        printed(cell_commands(last, row, col, cell)) == seq![cell.ch],
{
    let p = seq![DrawCommand::Print(cell.ch)];
    lemma_setup_silent(last, row, col, cell.attrs);
    lemma_printed_single(DrawCommand::Print(cell.ch));
    lemma_printed_concat(cell_setup(last, row, col, cell.attrs), p);
    assert(Seq::<char>::empty() + seq![cell.ch] =~= seq![cell.ch]);
}

/// Law: a frame prints exactly the characters of the dirty cells, in screen
/// order, skipping the continuation halves of wide characters — clean cells
/// are never redrawn.
pub proof fn lemma_frame_prints_dirty_cells(entries: Seq<(usize, usize, Cell)>, cursor_row: int, cursor_col: int)
    ensures
        printed(frame_commands(entries, cursor_row, cursor_col)) == drawn_chars(entries, entries.len() as int),
{
    lemma_entries_printed(entries, entries.len() as int);
    let body = entries_commands(entries, entries.len() as int).0;
    let mv = DrawCommand::MoveTo(cursor_col as u16, cursor_row as u16);
    assert(body.push(mv).drop_last() =~= body);
    assert(printed(body.push(mv)) =~= printed(body));
}

/// Lemma: the commands for the first `n` entries print their characters.
proof fn lemma_entries_printed(entries: Seq<(usize, usize, Cell)>, n: int)
    requires
        0 <= n <= entries.len(),
    ensures
        printed(entries_commands(entries, n).0) == drawn_chars(entries, n),
    decreases n,
{
    if n > 0 {
        lemma_entries_printed(entries, n - 1);
        let (cmds, last) = entries_commands(entries, n - 1);
        let (row, col, cell) = entries[n - 1];
        if !cell.wide_continuation {
            lemma_printed_concat(cmds, cell_commands(last, row, col, cell));
            lemma_printed_cell(last, row, col, cell);
        }
    }
}

/// Law: once every cell is clean, a frame is nothing but the cursor
/// placement.
pub proof fn lemma_clean_frame_only_places_cursor(g: GridView)
    ensures
        frame_commands(dirty_entries(g.cells.map_values(|c: Cell| cleaned(c)), g.cols), g.cursor_row, g.cursor_col)
            == seq![DrawCommand::MoveTo(g.cursor_col as u16, g.cursor_row as u16)],
{
    lemma_cleaned_has_no_dirty(g.cells, g.cols);
    assert(Seq::<DrawCommand>::empty().push(DrawCommand::MoveTo(g.cursor_col as u16, g.cursor_row as u16))
        =~= seq![DrawCommand::MoveTo(g.cursor_col as u16, g.cursor_row as u16)]);
}

/// Appends `cmd` when `cond` holds.
fn push_when(out: &mut Vec<DrawCommand>, cond: bool, cmd: DrawCommand)
    ensures
        final(out)@ == old(out)@ + when(cond, cmd),
{
    if cond {
        out.push(cmd);
    }
    assert(out@ =~= old(out)@ + when(cond, cmd));
}

/// The attribute command for a flag that is now `now`.
fn flag(now: bool, on: StyleAttribute, off: StyleAttribute) -> (c: DrawCommand)
    ensures
        c == flag_command(now, on, off),
{
    DrawCommand::SetAttribute(if now { on } else { off })
}

/// Appends the commands drawing `cell` at `(row, col)` after the cell drawn
/// last (if any).
fn push_cell_commands(out: &mut Vec<DrawCommand>, last: Option<((usize, usize), Attributes)>, row: usize, col: usize, cell: Cell)
    ensures
        final(out)@ == old(out)@ + cell_commands(last, row, col, cell),
{
    let a = cell.attrs;
    let has = last.is_some();
    let (pos, la) = match last {
        Some(x) => x,
        None => ((0, 0), a),
    };
    let mut cmds: Vec<DrawCommand> = Vec::new();
    let ghost start = out@;
    let c = !(has && pos.0 == row && col > 0 && pos.1 == col - 1);
    push_when(&mut cmds, c, DrawCommand::MoveTo(col as u16, row as u16));
    let ghost c1 = Seq::<DrawCommand>::empty() + when(c, DrawCommand::MoveTo(col as u16, row as u16));
    let c = !(has && la.fg == a.fg);
    push_when(&mut cmds, c, DrawCommand::SetForeground(a.fg));
    let ghost c2 = c1 + when(c, DrawCommand::SetForeground(a.fg));
    let c = !(has && la.bg == a.bg);
    push_when(&mut cmds, c, DrawCommand::SetBackground(a.bg));
    let ghost c3 = c2 + when(c, DrawCommand::SetBackground(a.bg));
    let c = !(has && la.bold == a.bold);
    let f = flag(a.bold, StyleAttribute::Bold, StyleAttribute::NormalIntensity);
    push_when(&mut cmds, c, f);
    let ghost c4 = c3 + when(c, f);
    let c = !(has && la.italic == a.italic);
    let f = flag(a.italic, StyleAttribute::Italic, StyleAttribute::NoItalic);
    push_when(&mut cmds, c, f);
    let ghost c5 = c4 + when(c, f);
    let c = !(has && la.underline == a.underline);
    let f = flag(a.underline, StyleAttribute::Underlined, StyleAttribute::NoUnderline);
    push_when(&mut cmds, c, f);
    let ghost c6 = c5 + when(c, f);
    let c = !(has && la.blink == a.blink);
    let f = flag(a.blink, StyleAttribute::SlowBlink, StyleAttribute::NoBlink);
    push_when(&mut cmds, c, f);
    let ghost c7 = c6 + when(c, f);
    let c = !(has && la.reverse == a.reverse);
    let f = flag(a.reverse, StyleAttribute::Reverse, StyleAttribute::NoReverse);
    push_when(&mut cmds, c, f);
    let ghost c8 = c7 + when(c, f);
    push_when(&mut cmds, true, DrawCommand::Print(cell.ch));
    let ghost c9 = c8 + when(true, DrawCommand::Print(cell.ch));
    assert(c9 == cell_commands(last, row, col, cell)) by {
        reveal(cell_setup);
    }
    out.append(&mut cmds);
}

/// The drawing commands that bring the host terminal up to date with `grid`:
/// its dirty cells (see the module documentation), then the cursor.
pub fn render_commands(grid: &Grid) -> (cmds: Vec<DrawCommand>)
    requires
        grid.wf(),
    ensures
        cmds@ == frame_commands(dirty_entries(grid@.cells, grid@.cols), grid@.cursor_row, grid@.cursor_col),
{
    let dirty = grid.dirty_cells();
    let ghost entries = dirty@;
    let mut out: Vec<DrawCommand> = Vec::new();
    let mut last: Option<((usize, usize), Attributes)> = None;
    let mut k: usize = 0;
    while k < dirty.len()
        invariant
            k <= dirty@.len(),
            entries == dirty@,
            (out@, last) == entries_commands(entries, k as int),
        decreases dirty@.len() - k,
    {
        let (row, col, cell) = dirty[k];
        if !cell.wide_continuation {
            push_cell_commands(&mut out, last, row, col, cell);
            last = Some(((row, col), cell.attrs));
        }
        k = k + 1;
    }
    out.push(DrawCommand::MoveTo(grid.cursor_col as u16, grid.cursor_row as u16));
    out
}

} // verus!
