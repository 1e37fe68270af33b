//! One round of the terminal's main loop, between reading the shell's output
//! and drawing: the output goes through the parser into the grid, the frame
//! that brings the host terminal up to date is computed, and the grid is
//! marked clean so the next frame draws only what changes after it.

use vstd::prelude::*;
use crate::ansi::parser::Parser;
use crate::terminal::renderer::{DrawCommand, frame_commands, render_commands};
use crate::terminal::screen_buffer::{Cell, Grid, GridView, cleaned, dirty_entries};

verus! {

/// The frame for a screen: its dirty cells, then the cursor.
pub open spec fn frame_of(g: GridView) -> Seq<DrawCommand> {
    frame_commands(dirty_entries(g.cells, g.cols), g.cursor_row, g.cursor_col)
}

/// The screen once drawn: every cell clean.
pub open spec fn drawn(g: GridView) -> GridView {
    GridView { cells: g.cells.map_values(|c: Cell| cleaned(c)), ..g }
}

/// Applies a chunk of the shell's output: feeds it to the parser (as far as
/// the grid can take it, see `Parser::try_feed`), returns how many bytes were
/// taken with the drawing commands for the result, and marks the grid clean.
pub fn apply_output(parser: &mut Parser, grid: &mut Grid, bytes: &[u8]) -> (r: (usize, Vec<DrawCommand>))
    requires
        old(grid).wf(),
    ensures
        final(grid).wf(),
        r.0 <= bytes@.len(),
        (r.0 == bytes@.len()) == (old(parser)@.fed(old(grid)@, bytes@) is Some),
        old(parser)@.fed(old(grid)@, bytes@.take(r.0 as int)) matches Some((p1, g1)) && {
            &&& final(parser)@ == p1
            &&& r.1@ == frame_of(g1)
            &&& final(grid)@ == drawn(g1)
        },
{
    let ghost p0 = parser@;
    let ghost g0 = grid@;
    let n = parser.try_feed(bytes, grid);
    let ghost g1 = grid@;
    let cmds = render_commands(grid);
    grid.clear_dirty();
    proof {
        assert(p0.fed(g0, bytes@.take(n as int)) == Some((parser@, g1)));
    }
    (n, cmds)
}

} // verus!
