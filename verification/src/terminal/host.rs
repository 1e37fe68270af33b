//! A model of the host terminal that drawing commands drive, and the law
//! that a frame leaves every dirty cell showing on it as the grid has it.

use vstd::prelude::*;
use crate::terminal::renderer::{
    DrawCommand, StyleAttribute, cell_commands, cell_setup, entries_commands, flag_command,
    frame_commands,
};
use crate::terminal::screen_buffer::{Attributes, Cell};

verus! {

/// A model of the host terminal that the commands drive: the cursor, the
/// current colors and attributes, and what each screen position shows.
pub struct HostTerminal {
    pub row: int,
    pub col: int,
    pub attrs: Attributes,
    pub screen: Map<(int, int), (char, Attributes)>,
}

/// `a` with the attribute `s` switched as the command says.
pub open spec fn with_attribute(a: Attributes, s: StyleAttribute) -> Attributes {
    match s {
        StyleAttribute::Bold => Attributes { bold: true, ..a },
        StyleAttribute::NormalIntensity => Attributes { bold: false, ..a },
        StyleAttribute::Italic => Attributes { italic: true, ..a },
        StyleAttribute::NoItalic => Attributes { italic: false, ..a },
        StyleAttribute::Underlined => Attributes { underline: true, ..a },
        StyleAttribute::NoUnderline => Attributes { underline: false, ..a },
        StyleAttribute::SlowBlink => Attributes { blink: true, ..a },
        StyleAttribute::NoBlink => Attributes { blink: false, ..a },
        StyleAttribute::Reverse => Attributes { reverse: true, ..a },
        StyleAttribute::NoReverse => Attributes { reverse: false, ..a },
    }
}

/// What one command does to the host terminal: `MoveTo` places the cursor,
/// the color and attribute commands change the current style, and `Print`
/// shows its character in the current style at the cursor and moves the
/// cursor one column right.
pub open spec fn apply_command(t: HostTerminal, cmd: DrawCommand) -> HostTerminal {
    match cmd {
        DrawCommand::MoveTo(c, r) => HostTerminal { row: r as int, col: c as int, ..t },
        DrawCommand::SetForeground(c) => HostTerminal { attrs: Attributes { fg: c, ..t.attrs }, ..t },
        DrawCommand::SetBackground(c) => HostTerminal { attrs: Attributes { bg: c, ..t.attrs }, ..t },
        DrawCommand::SetAttribute(s) => HostTerminal { attrs: with_attribute(t.attrs, s), ..t },
        DrawCommand::Print(ch) => HostTerminal {
            col: t.col + 1,
            screen: t.screen.insert((t.row, t.col), (ch, t.attrs)),
            ..t
        },
    }
}

/// The host terminal after the commands `cmds`, in order.
#[verifier::opaque]
pub open spec fn replay(t: HostTerminal, cmds: Seq<DrawCommand>) -> HostTerminal
    decreases cmds.len(),
{
    if cmds.len() == 0 {
        t
    } else {
        apply_command(replay(t, cmds.drop_last()), cmds.last())
    }
}

/// Lemma: replaying a concatenation replays each part in turn.
pub proof fn lemma_replay_concat(t: HostTerminal, a: Seq<DrawCommand>, b: Seq<DrawCommand>)
    ensures
        replay(t, a + b) == replay(replay(t, a), b),
    decreases b.len(),
{
    reveal(replay);
    if b.len() == 0 {
        assert(a + b =~= a);
    } else {
        lemma_replay_concat(t, a, b.drop_last());
        assert((a + b).drop_last() =~= a + b.drop_last());
        assert((a + b).last() == b.last());
    }
}

/// Lemma: replaying one command applies it.
proof fn lemma_replay_single(t: HostTerminal, cmd: DrawCommand)
    ensures
        replay(t, seq![cmd]) == apply_command(t, cmd),
{
    reveal_with_fuel(replay, 2);
    assert(seq![cmd].drop_last() =~= Seq::<DrawCommand>::empty());
}

/// Lemma: replaying what `when` adds.
proof fn lemma_replay_when(t: HostTerminal, a: Seq<DrawCommand>, cond: bool, cmd: DrawCommand)
    ensures
        replay(t, a + crate::terminal::renderer::when(cond, cmd)) == if cond {
            apply_command(replay(t, a), cmd)
        } else {
            replay(t, a)
        },
{
    reveal(replay);
    if cond {
        let s = a + seq![cmd];
        assert(s.drop_last() =~= a);
        assert(s.last() == cmd);
    } else {
        assert(a + crate::terminal::renderer::when(cond, cmd) =~= a);
    }
}

/// Whether the host terminal's cursor and style are where the previously
/// drawn cell left them: just after it, in its attributes.
pub open spec fn follows(t: HostTerminal, last: Option<((usize, usize), Attributes)>) -> bool {
    last matches Some((pos, la)) ==> t.row == pos.0 && t.col == pos.1 + 1 && t.attrs == la
}

/// Lemma: after the setup of a cell, the host terminal's cursor is on the
/// cell and its style is the cell's, whatever was drawn before.
#[verifier::spinoff_prover]
#[verifier::rlimit(50)]
proof fn lemma_setup_places(
    t: HostTerminal,
    last: Option<((usize, usize), Attributes)>,
    row: usize,
    col: usize,
    a: Attributes,
)
    requires
        row < 0x10000,
        col < 0x10000,
        follows(t, last),
    ensures
        replay(t, cell_setup(last, row, col, a)) == (HostTerminal { row: row as int, col: col as int, attrs: a, ..t }),
{
    let has = last is Some;
    let pos = last->Some_0.0;
    let la = last->Some_0.1;
    let e = Seq::<DrawCommand>::empty();
    let c1 = !(has && pos.0 == row && col > 0 && pos.1 == col - 1);
    let m1 = DrawCommand::MoveTo(col as u16, row as u16);
    let w1 = crate::terminal::renderer::when(c1, m1);
    assert(e + w1 =~= w1);
    lemma_replay_when(t, e, c1, m1);
    assert(replay(t, e) == t) by {
        reveal(replay);
    }
    let t1 = replay(t, w1);
    assert(t1.row == row && t1.col == col && t1.attrs == t.attrs && t1.screen == t.screen);
    let c2 = !(has && la.fg == a.fg);
    let m2 = DrawCommand::SetForeground(a.fg);
    lemma_replay_when(t, w1, c2, m2);
    let s2 = w1 + crate::terminal::renderer::when(c2, m2);
    let c3 = !(has && la.bg == a.bg);
    let m3 = DrawCommand::SetBackground(a.bg);
    lemma_replay_when(t, s2, c3, m3);
    let s3 = s2 + crate::terminal::renderer::when(c3, m3);
    let c4 = !(has && la.bold == a.bold);
    let m4 = flag_command(a.bold, StyleAttribute::Bold, StyleAttribute::NormalIntensity);
    lemma_replay_when(t, s3, c4, m4);
    let s4 = s3 + crate::terminal::renderer::when(c4, m4);
    let c5 = !(has && la.italic == a.italic);
    let m5 = flag_command(a.italic, StyleAttribute::Italic, StyleAttribute::NoItalic);
    lemma_replay_when(t, s4, c5, m5);
    let s5 = s4 + crate::terminal::renderer::when(c5, m5);
    let c6 = !(has && la.underline == a.underline);
    let m6 = flag_command(a.underline, StyleAttribute::Underlined, StyleAttribute::NoUnderline);
    lemma_replay_when(t, s5, c6, m6);
    let s6 = s5 + crate::terminal::renderer::when(c6, m6);
    let c7 = !(has && la.blink == a.blink);
    let m7 = flag_command(a.blink, StyleAttribute::SlowBlink, StyleAttribute::NoBlink);
    lemma_replay_when(t, s6, c7, m7);
    let s7 = s6 + crate::terminal::renderer::when(c7, m7);
    let c8 = !(has && la.reverse == a.reverse);
    let m8 = flag_command(a.reverse, StyleAttribute::Reverse, StyleAttribute::NoReverse);
    lemma_replay_when(t, s7, c8, m8);
    let s8 = s7 + crate::terminal::renderer::when(c8, m8);
    let tf = replay(t, s8);
    assert(tf.attrs == a);
    assert(s8 == cell_setup(last, row, col, a)) by {
        reveal(cell_setup);
    }
}

/// Lemma: the commands for one cell show it at its position in its own
/// style, and leave the host terminal following it.
proof fn lemma_cell_replay(t: HostTerminal, last: Option<((usize, usize), Attributes)>, row: usize, col: usize, cell: Cell)
    requires
        row < 0x10000,
        col < 0x10000,
        follows(t, last),
    ensures
        replay(t, cell_commands(last, row, col, cell)) == (HostTerminal {
            row: row as int,
            col: col + 1,
            attrs: cell.attrs,
            screen: t.screen.insert((row as int, col as int), (cell.ch, cell.attrs)),
        }),
{
    let setup = cell_setup(last, row, col, cell.attrs);
    let p = seq![DrawCommand::Print(cell.ch)];
    lemma_setup_places(t, last, row, col, cell.attrs);
    lemma_replay_concat(t, setup, p);
    lemma_replay_single(replay(t, setup), DrawCommand::Print(cell.ch));
}

/// Whether every entry's position fits a `MoveTo` and no two entries share a
/// position.
pub open spec fn drawable(entries: Seq<(usize, usize, Cell)>) -> bool {
    &&& forall|i: int| 0 <= i < entries.len() ==> #[trigger] entries[i].0 < 0x10000 && entries[i].1 < 0x10000
    &&& forall|i: int, j: int|
        0 <= i < j < entries.len() ==> (#[trigger] entries[i].0, entries[i].1) != (#[trigger] entries[j].0, entries[j].1)
}

/// Lemma: replaying the commands for the first `n` entries shows each drawn
/// one at its position in its own style, and leaves the host terminal
/// following the last one drawn.
proof fn lemma_entries_replay(t0: HostTerminal, entries: Seq<(usize, usize, Cell)>, n: int)
    requires
        0 <= n <= entries.len(),
        drawable(entries),
        follows(t0, None),
    ensures
        ({
            let (cmds, last) = entries_commands(entries, n);
            let t = replay(t0, cmds);
            &&& follows(t, last)
            &&& forall|i: int|
                0 <= i < n && !(#[trigger] entries[i]).2.wide_continuation ==> t.screen.contains_key(
                    (entries[i].0 as int, entries[i].1 as int),
                ) && t.screen[(entries[i].0 as int, entries[i].1 as int)] == (entries[i].2.ch, entries[i].2.attrs)
        }),
    decreases n,
{
    if n > 0 {
        lemma_entries_replay(t0, entries, n - 1);
        let (cmds, last) = entries_commands(entries, n - 1);
        let t = replay(t0, cmds);
        let (row, col, cell) = entries[n - 1];
        assert(row < 0x10000 && col < 0x10000);
        if !cell.wide_continuation {
            lemma_replay_concat(t0, cmds, cell_commands(last, row, col, cell));
            lemma_cell_replay(t, last, row, col, cell);
            let t2 = replay(t0, entries_commands(entries, n).0);
            assert forall|i: int|
                0 <= i < n && !(#[trigger] entries[i]).2.wide_continuation implies t2.screen.contains_key(
                    (entries[i].0 as int, entries[i].1 as int),
                ) && t2.screen[(entries[i].0 as int, entries[i].1 as int)] == (entries[i].2.ch, entries[i].2.attrs) by {
                if i < n - 1 {
                    assert((entries[i].0, entries[i].1) != (entries[n - 1].0, entries[n - 1].1));
                }
            }
        }
    }
}

/// Law: drawing a frame shows every dirty cell (but the continuation halves
/// of wide characters, which their character covers) at its own position in
/// its own colors and attributes — each cell's style is set against the
/// cell drawn just before it — and leaves the cursor where the grid has it.
/// Stated for a host terminal in any state, for entries at distinct
/// positions that a `MoveTo` can address.
pub proof fn lemma_frame_shows_dirty_cells(
    t0: HostTerminal,
    entries: Seq<(usize, usize, Cell)>,
    cursor_row: int,
    cursor_col: int,
)
    requires
        drawable(entries),
        0 <= cursor_row < 0x10000,
        0 <= cursor_col < 0x10000,
    ensures
        ({
            let t = replay(t0, frame_commands(entries, cursor_row, cursor_col));
            &&& t.row == cursor_row && t.col == cursor_col
            &&& forall|i: int|
                0 <= i < entries.len() && !(#[trigger] entries[i]).2.wide_continuation ==> t.screen.contains_key(
                    (entries[i].0 as int, entries[i].1 as int),
                ) && t.screen[(entries[i].0 as int, entries[i].1 as int)] == (entries[i].2.ch, entries[i].2.attrs)
        }),
{
    lemma_entries_replay(t0, entries, entries.len() as int);
    let body = entries_commands(entries, entries.len() as int).0;
    let mv = DrawCommand::MoveTo(cursor_col as u16, cursor_row as u16);
    lemma_replay_when(t0, body, true, mv);
    assert(body + crate::terminal::renderer::when(true, mv) =~= body.push(mv));
}

} // verus!
