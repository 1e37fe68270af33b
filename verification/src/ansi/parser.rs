//! A byte-oriented, stateful ANSI/VT escape sequence parser.
//!
//! States:
//! - `Ground`: prints plain text and handles simple control bytes.
//! - `Escape`: reads `ESC`-prefixed sequences.
//! - `Csi`: collects CSI parameters and dispatches final bytes.
//! - `Osc`/`OscEscape`: consumes OSC strings until terminated, keeping a
//!   window title set through them.
//!
//! State is preserved across `feed` calls, so a sequence split across reads is
//! handled as if it had arrived whole.

use vstd::prelude::*;
use vstd::string::*;
use vstd::utf8::{valid_utf8, decode_utf8};
use crate::terminal::screen_buffer::{
    Attributes, Color, EraseMode, Grid, GridView, plain_attrs,
};
use crate::unicode::{
    char_columns, decode_utf8_bytes, extended_graphemes, graphemes, utf8_truncated, Utf8Decoded,
    cluster_views,
};

verus! {

/// Which protocol families the parser acts on.
#[derive(Debug, Clone, Copy, PartialEq, Eq, Structural)]
pub struct AnsiCapabilities {
    /// CSI sequences (`ESC [`).
    pub ansi_core: bool,
    /// Bright colors (90–97, 100–107) and extended colors (38/48).
    pub xterm_extended: bool,
    /// OSC strings (`ESC ]`).
    pub osc: bool,
}

impl Default for AnsiCapabilities {
    /// Everything enabled.
    fn default() -> (c: Self)
        ensures
            c == (AnsiCapabilities { ansi_core: true, xterm_extended: true, osc: true }),
    {
        Self { ansi_core: true, xterm_extended: true, osc: true }
    }
}

/// The parser's position in the escape-sequence grammar.
#[derive(Debug, Clone, Copy, PartialEq, Eq, Structural)]
pub enum ParserState {
    Ground,
    Escape,
    Csi,
    Osc,
    OscEscape,
}

/// Minimal ANSI/VT escape sequence parser used by the terminal grid.
pub struct Parser {
    pub(crate) state: ParserState,
    pub(crate) params: Vec<u16>,
    pub(crate) current: u16,
    pub(crate) seen_digit: bool,
    pub(crate) utf8_buf: Vec<u8>,
    pub(crate) caps: AnsiCapabilities,
    pub(crate) saved_cursor: (usize, usize),
    /// Whether the CSI sequence being read has the private `?` prefix.
    pub(crate) csi_private: bool,
    pub(crate) osc_buf: Vec<u8>,
    /// The window title last set by an OSC 0, 1 or 2 string.
    pub osc_title: Option<String>,
}

/// Mathematical model of a [`Parser`].
pub struct ParserView {
    pub state: ParserState,
    /// CSI parameters completed so far.
    pub params: Seq<u16>,
    /// The CSI parameter being read.
    pub current: u16,
    /// Whether `current` has received a digit.
    pub seen_digit: bool,
    /// Bytes of an incomplete UTF-8 character.
    pub utf8_buf: Seq<u8>,
    pub caps: AnsiCapabilities,
    pub saved_cursor: (usize, usize),
    pub csi_private: bool,
    /// Bytes of the OSC string being read.
    pub osc_buf: Seq<u8>,
    pub osc_title: Option<Seq<char>>,
}

impl View for Parser {
    type V = ParserView;

    open(crate) spec fn view(&self) -> ParserView {
        ParserView {
            state: self.state,
            params: self.params@,
            current: self.current,
            seen_digit: self.seen_digit,
            utf8_buf: self.utf8_buf@,
            caps: self.caps,
            saved_cursor: self.saved_cursor,
            csi_private: self.csi_private,
            osc_buf: self.osc_buf@,
            osc_title: match self.osc_title {
                Some(s) => Some(s@),
                None => None,
            },
        }
    }
}

// ─── Specification ───────────────────────────────────────────────────────────

/// `a - b`, or 0 when that is negative.
pub open spec fn sat_sub(a: int, b: int) -> int {
    if a > b {
        a - b
    } else {
        0
    }
}

/// The smaller of `a` and `b`.
pub open spec fn min(a: int, b: int) -> int {
    if a < b {
        a
    } else {
        b
    }
}

/// The named color with index `n` among the 8 basic ones.
pub open spec fn basic_color_of(n: u8) -> Color {
    if n == 0 {
        Color::Black
    } else if n == 1 {
        Color::Red
    } else if n == 2 {
        Color::Green
    } else if n == 3 {
        Color::Yellow
    } else if n == 4 {
        Color::Blue
    } else if n == 5 {
        Color::Magenta
    } else if n == 6 {
        Color::Cyan
    } else if n == 7 {
        Color::White
    } else {
        Color::Default
    }
}

/// Parameter `i`, or the default `d` when absent.
pub open spec fn param(params: Seq<u16>, i: int, d: u16) -> u16 {
    if 0 <= i < params.len() {
        params[i]
    } else {
        d
    }
}

/// One SGR code at index `i`: the new attributes and how many following
/// parameters it consumed.
pub open spec fn sgr_code(a: Attributes, params: Seq<u16>, caps: AnsiCapabilities, i: int) -> (Attributes, int) {
    let code = params[i];
    let n = params.len();
    if code == 0 {
        (plain_attrs(), 0)
    } else if code == 1 {
        (Attributes { bold: true, ..a }, 0)
    } else if code == 21 || code == 22 {
        (Attributes { bold: false, ..a }, 0)
    } else if code == 3 {
        (Attributes { italic: true, ..a }, 0)
    } else if code == 23 {
        (Attributes { italic: false, ..a }, 0)
    } else if code == 4 {
        (Attributes { underline: true, ..a }, 0)
    } else if code == 24 {
        (Attributes { underline: false, ..a }, 0)
    } else if code == 5 {
        (Attributes { blink: true, ..a }, 0)
    } else if code == 7 {
        (Attributes { reverse: true, ..a }, 0)
    } else if 30 <= code <= 37 {
        (Attributes { fg: basic_color_of((code - 30) as u8), ..a }, 0)
    } else if code == 39 {
        (Attributes { fg: Color::Default, ..a }, 0)
    } else if 40 <= code <= 47 {
        (Attributes { bg: basic_color_of((code - 40) as u8), ..a }, 0)
    } else if code == 49 {
        (Attributes { bg: Color::Default, ..a }, 0)
    } else if 90 <= code <= 97 && caps.xterm_extended {
        (Attributes { fg: basic_color_of((code - 90) as u8), ..a }, 0)
    } else if 100 <= code <= 107 && caps.xterm_extended {
        (Attributes { bg: basic_color_of((code - 100) as u8), ..a }, 0)
    } else if (code == 38 || code == 48) && caps.xterm_extended {
        if i + 1 < n && params[i + 1] == 5 && i + 2 < n {
            // 38;5;n / 48;5;n — 256-color palette
            let color = Color::Indexed(params[i + 2] as u8);
            if code == 38 {
                (Attributes { fg: color, ..a }, 2)
            } else {
                (Attributes { bg: color, ..a }, 2)
            }
        } else if i + 1 < n && params[i + 1] == 2 && i + 4 < n {
            // 38;2;r;g;b / 48;2;r;g;b — true color
            let color = Color::Rgb(params[i + 2] as u8, params[i + 3] as u8, params[i + 4] as u8);
            if code == 38 {
                (Attributes { fg: color, ..a }, 4)
            } else {
                (Attributes { bg: color, ..a }, 4)
            }
        } else {
            (a, 0)
        }
    } else {
        (a, 0)
    }
}

/// Applying the SGR codes from index `i` on.
pub open spec fn sgr_from(a: Attributes, params: Seq<u16>, caps: AnsiCapabilities, i: int) -> Attributes
    decreases params.len() - i,
{
    if i < 0 || i >= params.len() {
        a
    } else {
        let (a2, skip) = sgr_code(a, params, caps, i);
        sgr_from(a2, params, caps, i + 1 + skip)
    }
}

/// The attributes after `ESC [ params m`: a reset when there are no
/// parameters, and otherwise each code in turn.
pub open spec fn sgr_applied(a: Attributes, params: Seq<u16>, caps: AnsiCapabilities) -> Attributes {
    if params.len() == 0 {
        plain_attrs()
    } else {
        sgr_from(a, params, caps, 0)
    }
}

impl ParserView {
    /// The parser as `new` creates it.
    pub open spec fn initial(caps: AnsiCapabilities) -> ParserView {
        ParserView {
            state: ParserState::Ground,
            params: Seq::empty(),
            current: 0,
            seen_digit: false,
            utf8_buf: Seq::empty(),
            caps: caps,
            saved_cursor: (0, 0),
            csi_private: false,
            osc_buf: Seq::empty(),
            osc_title: None,
        }
    }

    /// The effect of the final byte `f` of a CSI sequence whose parameters are
    /// `self.params`.
    pub open spec fn dispatched(self, g: GridView, f: u8) -> (ParserView, GridView) {
        let p0 = param(self.params, 0, 1) as int;
        if self.csi_private {
            (self, g)
        } else if f == 0x41 {
            // 'A': cursor up
            (self, GridView { cursor_row: sat_sub(g.cursor_row, p0), ..g })
        } else if f == 0x42 {
            // 'B': cursor down
            (self, GridView { cursor_row: min(g.cursor_row + p0, g.rows - 1), ..g })
        } else if f == 0x43 {
            // 'C': cursor forward
            (self, GridView { cursor_col: min(g.cursor_col + p0, g.cols - 1), ..g })
        } else if f == 0x44 {
            // 'D': cursor back
            (self, GridView { cursor_col: sat_sub(g.cursor_col, p0), ..g })
        } else if f == 0x45 {
            // 'E': next line
            (self, GridView { cursor_col: 0, cursor_row: min(g.cursor_row + p0, g.rows - 1), ..g })
        } else if f == 0x46 {
            // 'F': previous line
            (self, GridView { cursor_col: 0, cursor_row: sat_sub(g.cursor_row, p0), ..g })
        } else if f == 0x47 {
            // 'G': cursor horizontal absolute
            (self, g.cursor_clamped(g.cursor_row, sat_sub(p0, 1)))
        } else if f == 0x48 || f == 0x66 {
            // 'H' / 'f': cursor position
            (self, g.cursor_clamped(sat_sub(p0, 1), sat_sub(param(self.params, 1, 1) as int, 1)))
        } else if f == 0x4a {
            // 'J': erase in display
            let m = param(self.params, 0, 0);
            if m == 0 {
                (self, g.display_erased(EraseMode::ToEnd))
            } else if m == 1 {
                (self, g.display_erased(EraseMode::ToStart))
            } else if m == 2 || m == 3 {
                (self, g.display_erased(EraseMode::All))
            } else {
                (self, g)
            }
        } else if f == 0x4b {
            // 'K': erase in line
            let m = param(self.params, 0, 0);
            if m == 0 {
                (self, g.line_erased(EraseMode::ToEnd))
            } else if m == 1 {
                (self, g.line_erased(EraseMode::ToStart))
            } else if m == 2 {
                (self, g.line_erased(EraseMode::All))
            } else {
                (self, g)
            }
        } else if f == 0x6d {
            // 'm': select graphic rendition
            (self, GridView { attrs: sgr_applied(g.attrs, self.params, self.caps), ..g })
        } else if f == 0x64 {
            // 'd': line position absolute
            (self, g.cursor_clamped(sat_sub(p0, 1), g.cursor_col))
        } else if f == 0x73 {
            // 's': save cursor
            (ParserView { saved_cursor: (g.cursor_row as usize, g.cursor_col as usize), ..self }, g)
        } else if f == 0x75 {
            // 'u': restore cursor
            (self, g.cursor_clamped(self.saved_cursor.0 as int, self.saved_cursor.1 as int))
        } else {
            (self, g)
        }
    }

    /// The byte `b` read in the `Escape` state.
    pub open spec fn after_escape(self, b: u8) -> ParserView {
        if b == 0x5b && self.caps.ansi_core {
            ParserView {
                params: Seq::empty(),
                current: 0,
                seen_digit: false,
                csi_private: false,
                state: ParserState::Csi,
                ..self
            }
        } else if b == 0x5d && self.caps.osc {
            ParserView { osc_buf: Seq::empty(), state: ParserState::Osc, ..self }
        } else {
            ParserView { state: ParserState::Ground, ..self }
        }
    }

    /// The byte `b` read in the `Csi` state.
    pub open spec fn after_csi(self, g: GridView, b: u8) -> (ParserView, GridView) {
        if b == 0x3f && !self.seen_digit && self.params.len() == 0 {
            (ParserView { csi_private: true, ..self }, g)
        } else if 0x30 <= b <= 0x39 {
            // Digits accumulate, saturating at u16::MAX.
            let v = min(min(self.current * 10, 0xffff) + (b - 0x30), 0xffff);
            (ParserView { current: v as u16, seen_digit: true, ..self }, g)
        } else if b == 0x3b {
            let done = if self.seen_digit { self.current } else { 0 };
            (ParserView { params: self.params.push(done), current: 0, seen_digit: false, ..self }, g)
        } else if 0x40 <= b <= 0x7e {
            let params = if self.seen_digit { self.params.push(self.current) } else { self.params };
            let (p1, g1) = ParserView { params: params, ..self }.dispatched(g, b);
            (
                ParserView {
                    state: ParserState::Ground,
                    params: Seq::empty(),
                    current: 0,
                    seen_digit: false,
                    csi_private: false,
                    ..p1
                },
                g1,
            )
        } else {
            (ParserView { state: ParserState::Ground, ..self }, g)
        }
    }

    /// The OSC string ended: a string `0;title`, `1;title` or `2;title` that
    /// is valid UTF-8 sets the title; the buffer is emptied.
    pub open spec fn osc_finalized(self) -> ParserView {
        let title = if valid_utf8(self.osc_buf) {
            let s = decode_utf8(self.osc_buf);
            if s.len() >= 2 && (s[0] == '0' || s[0] == '1' || s[0] == '2') && s[1] == ';' {
                Some(s.skip(2))
            } else {
                self.osc_title
            }
        } else {
            self.osc_title
        };
        ParserView { osc_title: title, osc_buf: Seq::empty(), ..self }
    }

    /// The byte `b` read in the `Osc` state.
    pub open spec fn after_osc(self, b: u8) -> ParserView {
        if b == 0x07 {
            ParserView { state: ParserState::Ground, ..self.osc_finalized() }
        } else if b == 0x1b {
            ParserView { state: ParserState::OscEscape, ..self }
        } else {
            ParserView { osc_buf: self.osc_buf.push(b), ..self }
        }
    }
}

/// Writing the first character of each cluster in turn. `None` where a write
/// is refused.
pub open spec fn clusters_written(g: GridView, gs: Seq<Seq<char>>) -> Option<GridView>
    decreases gs.len(),
{
    if gs.len() == 0 {
        Some(g)
    } else {
        match clusters_written(g, gs.drop_last()) {
            None => None,
            Some(g1) => {
                let last = gs.last();
                if last.len() > 0 {
                    g1.written(last[0], char_columns(last[0]))
                } else {
                    Some(g1)
                }
            },
        }
    }
}

impl ParserView {
    /// A byte that is not printable ASCII nor a handled control byte, read in
    /// `Ground`: it extends the pending UTF-8 sequence. A complete sequence is
    /// split into grapheme clusters whose first characters are written; an
    /// incomplete one waits for more bytes; an invalid one is written as `?`.
    pub open spec fn after_text_byte(self, g: GridView, b: u8) -> Option<(ParserView, GridView)> {
        let buf = self.utf8_buf.push(b);
        if valid_utf8(buf) {
            match clusters_written(g, extended_graphemes(decode_utf8(buf))) {
                Some(g1) => Some((ParserView { utf8_buf: Seq::empty(), ..self }, g1)),
                None => None,
            }
        } else if utf8_truncated(buf) {
            Some((ParserView { utf8_buf: buf, ..self }, g))
        } else {
            match g.written('?', char_columns('?')) {
                Some(g1) => Some((ParserView { utf8_buf: Seq::empty(), ..self }, g1)),
                None => None,
            }
        }
    }

    /// The byte `b` read in the `Ground` state.
    pub open spec fn after_ground(self, g: GridView, b: u8) -> Option<(ParserView, GridView)> {
        if b == 0x1b {
            Some((ParserView { utf8_buf: Seq::empty(), state: ParserState::Escape, ..self }, g))
        } else if b == 0x07 {
            // bell: nothing to draw
            Some((self, g))
        } else if b == 0x08 {
            // backspace
            Some((self, GridView { cursor_col: sat_sub(g.cursor_col, 1), ..g }))
        } else if b == 0x09 {
            // tab: next multiple of 8, at most the last column
            Some((self, GridView { cursor_col: min((g.cursor_col / 8 + 1) * 8, g.cols - 1), ..g }))
        } else if b == 0x0a {
            // line feed
            if g.cursor_row + 1 >= g.rows {
                if 1 < g.rows {
                    Some((self, GridView { cursor_row: g.rows - 1, ..g.scrolled(1) }))
                } else {
                    None
                }
            } else {
                Some((self, GridView { cursor_row: g.cursor_row + 1, ..g }))
            }
        } else if b == 0x0d {
            // carriage return
            Some((self, GridView { cursor_col: 0, ..g }))
        } else if 0x20 <= b <= 0x7e {
            match g.written(b as char, char_columns(b as char)) {
                Some(g1) => Some((self, g1)),
                None => None,
            }
        } else {
            self.after_text_byte(g, b)
        }
    }

    /// One byte fed to the parser. `None` where the byte cannot be taken (a
    /// scroll of a single-row screen).
    pub open spec fn step(self, g: GridView, b: u8) -> Option<(ParserView, GridView)> {
        match self.state {
            ParserState::Ground => self.after_ground(g, b),
            ParserState::Escape => Some((self.after_escape(b), g)),
            ParserState::Csi => Some(self.after_csi(g, b)),
            ParserState::Osc => Some((self.after_osc(b), g)),
            ParserState::OscEscape => Some(
                (ParserView { state: ParserState::Ground, ..self.osc_finalized() }, g),
            ),
        }
    }

    /// The bytes fed one at a time. `None` where some byte is refused.
    pub open spec fn fed(self, g: GridView, bytes: Seq<u8>) -> Option<(ParserView, GridView)>
        decreases bytes.len(),
    {
        if bytes.len() == 0 {
            Some((self, g))
        } else {
            match self.fed(g, bytes.drop_last()) {
                None => None,
                Some((p1, g1)) => p1.step(g1, bytes.last()),
            }
        }
    }
}

/// Lemma: when writing all the clusters succeeds, writing any prefix of them
/// does too.
pub proof fn lemma_clusters_prefix(g: GridView, gs: Seq<Seq<char>>, k: int)
    requires
        0 <= k <= gs.len(),
        clusters_written(g, gs) is Some,
    ensures
        clusters_written(g, gs.take(k)) is Some,
    decreases gs.len() - k,
{
    if k < gs.len() {
        lemma_clusters_prefix(g, gs, k + 1);
        assert(gs.take(k + 1).drop_last() =~= gs.take(k));
    } else {
        assert(gs.take(k) =~= gs);
    }
}

/// Lemma: when feeding all the bytes succeeds, feeding any prefix of them
/// does too.
pub proof fn lemma_fed_prefix(p: ParserView, g: GridView, bytes: Seq<u8>, k: int)
    requires
        0 <= k <= bytes.len(),
        p.fed(g, bytes) is Some,
    ensures
        p.fed(g, bytes.take(k)) is Some,
    decreases bytes.len() - k,
{
    if k < bytes.len() {
        lemma_fed_prefix(p, g, bytes, k + 1);
        assert(bytes.take(k + 1).drop_last() =~= bytes.take(k));
    } else {
        assert(bytes.take(k) =~= bytes);
    }
}

/// The basic color with index `n` (0–7); `Default` otherwise.
fn basic_color(n: u8) -> (c: Color)
    ensures
        c == basic_color_of(n),
{
    match n {
        0 => Color::Black,
        1 => Color::Red,
        2 => Color::Green,
        3 => Color::Yellow,
        4 => Color::Blue,
        5 => Color::Magenta,
        6 => Color::Cyan,
        7 => Color::White,
        _ => Color::Default,
    }
}

/// The next tab stop after `col` (every 8 columns), at most the last column.
fn next_tab_stop(col: usize, cols: usize) -> (r: usize)
    requires
        col < cols,
    ensures
        r == min((col / 8 + 1) * 8, cols - 1),
{
    let base = col - col % 8;
    if cols - 1 - base <= 8 {
        cols - 1
    } else {
        base + 8
    }
}

impl Parser {
    /// Creates a parser configured with the provided ANSI capabilities.
    pub fn new(caps: AnsiCapabilities) -> (p: Self)
        ensures
            p@ == ParserView::initial(caps),
    {
        let p = Self {
            state: ParserState::Ground,
            params: Vec::with_capacity(8),
            current: 0,
            seen_digit: false,
            utf8_buf: Vec::with_capacity(4),
            caps,
            saved_cursor: (0, 0),
            csi_private: false,
            osc_buf: Vec::new(),
            osc_title: None,
        };
        assert(p@.params =~= Seq::<u16>::empty());
        assert(p@.utf8_buf =~= Seq::<u8>::empty());
        assert(p@.osc_buf =~= Seq::<u8>::empty());
        p
    }

    /// Parameter `i`, or `d` when it is absent.
    fn p(&self, i: usize, d: u16) -> (r: u16)
        ensures
            r == param(self.params@, i as int, d),
    {
        if i < self.params.len() {
            self.params[i]
        } else {
            d
        }
    }

    /// Select Graphic Rendition: applies the collected parameters to the
    /// grid's current attributes.
    fn sgr(&self, grid: &mut Grid)
        requires
            old(grid).wf(),
        ensures
            final(grid).wf(),
            final(grid)@ == (GridView {
                attrs: sgr_applied(old(grid)@.attrs, self.params@, self.caps),
                ..old(grid)@
            }),
    {
        let n = self.params.len();
        if n == 0 {
            grid.current_attrs = Attributes::default();
            return;
        }
        let ghost g0 = grid@;
        let ghost params = self.params@;
        let mut i: usize = 0;
        while i < n
            invariant
                i <= n,
                n == params.len(),
                params == self.params@,
                grid.wf(),
                grid@ == (GridView { attrs: grid@.attrs, ..g0 }),
                sgr_from(grid@.attrs, params, self.caps, i as int) == sgr_from(g0.attrs, params, self.caps, 0),
            decreases n - i,
        {
            let code = self.params[i];
            let ghost before = grid.current_attrs;
            let mut skip: usize = 0;
            match code {
                0 => grid.current_attrs = Attributes::default(),
                1 => grid.current_attrs.bold = true,
                21 | 22 => grid.current_attrs.bold = false,
                3 => grid.current_attrs.italic = true,
                23 => grid.current_attrs.italic = false,
                4 => grid.current_attrs.underline = true,
                24 => grid.current_attrs.underline = false,
                5 => grid.current_attrs.blink = true,
                7 => grid.current_attrs.reverse = true,
                30..=37 => grid.current_attrs.fg = basic_color((code - 30) as u8),
                39 => grid.current_attrs.fg = Color::Default,
                40..=47 => grid.current_attrs.bg = basic_color((code - 40) as u8),
                49 => grid.current_attrs.bg = Color::Default,
                90..=97 if self.caps.xterm_extended => {
                    grid.current_attrs.fg = basic_color((code - 90) as u8)
                },
                100..=107 if self.caps.xterm_extended => {
                    grid.current_attrs.bg = basic_color((code - 100) as u8)
                },
                _ if (code == 38 || code == 48) && self.caps.xterm_extended => {
                    let is_fg = code == 38;
                    if i + 1 < n && self.params[i + 1] == 5 && n - i > 2 {
                        // 38;5;n — 256-color
                        let color = Color::Indexed(#[verifier::truncate] (self.params[i + 2] as u8));
                        if is_fg {
                            grid.current_attrs.fg = color;
                        } else {
                            grid.current_attrs.bg = color;
                        }
                        skip = 2;
                    } else if i + 1 < n && self.params[i + 1] == 2 && n - i > 4 {
                        // 38;2;r;g;b — true color
                        let r = #[verifier::truncate] (self.params[i + 2] as u8);
                        let g = #[verifier::truncate] (self.params[i + 3] as u8);
                        let b = #[verifier::truncate] (self.params[i + 4] as u8);
                        let color = Color::Rgb(r, g, b);
                        if is_fg {
                            grid.current_attrs.fg = color;
                        } else {
                            grid.current_attrs.bg = color;
                        }
                        skip = 4;
                    }
                },
                _ => {},
            }
            assert(sgr_code(before, params, self.caps, i as int) == (grid@.attrs, skip as int));
            i = i + 1 + skip;
        }
    }

    /// Acts on the final byte `f` of a CSI sequence.
    fn dispatch(&mut self, f: u8, grid: &mut Grid)
        requires
            old(grid).wf(),
        ensures
            final(grid).wf(),
            (final(self)@, final(grid)@) == old(self)@.dispatched(old(grid)@, f),
    {
        // Private sequences (such as ESC[?25h / ESC[?25l) do not change the
        // grid.
        if self.csi_private {
            return;
        }
        let p0 = self.p(0, 1) as usize;
        match f {
            0x41 /* A */ => grid.cursor_row = grid.cursor_row.saturating_sub(p0),
            0x42 /* B */ => grid.cursor_row = clamped_add(grid.cursor_row, p0, grid.rows - 1),
            0x43 /* C */ => grid.cursor_col = clamped_add(grid.cursor_col, p0, grid.cols - 1),
            0x44 /* D */ => grid.cursor_col = grid.cursor_col.saturating_sub(p0),
            0x45 /* E */ => {
                grid.cursor_col = 0;
                grid.cursor_row = clamped_add(grid.cursor_row, p0, grid.rows - 1);
            },
            0x46 /* F */ => {
                grid.cursor_col = 0;
                grid.cursor_row = grid.cursor_row.saturating_sub(p0);
            },
            0x47 /* G */ => {
                let row = grid.cursor_row;
                grid.move_cursor(row, self.p(0, 1).saturating_sub(1) as usize)
            },
            0x48 /* H */ | 0x66 /* f */ => grid.move_cursor(
                self.p(0, 1).saturating_sub(1) as usize,
                self.p(1, 1).saturating_sub(1) as usize,
            ),
            0x4a /* J */ => match self.p(0, 0) {
                0 => grid.erase_display(EraseMode::ToEnd),
                1 => grid.erase_display(EraseMode::ToStart),
                2 | 3 => grid.erase_display(EraseMode::All),
                _ => {},
            },
            0x4b /* K */ => match self.p(0, 0) {
                0 => grid.erase_line(EraseMode::ToEnd),
                1 => grid.erase_line(EraseMode::ToStart),
                2 => grid.erase_line(EraseMode::All),
                _ => {},
            },
            0x6d /* m */ => self.sgr(grid),
            0x64 /* d */ => {
                let col = grid.cursor_col;
                grid.move_cursor(self.p(0, 1).saturating_sub(1) as usize, col)
            },
            0x73 /* s */ => self.saved_cursor = (grid.cursor_row, grid.cursor_col),
            0x75 /* u */ => grid.move_cursor(self.saved_cursor.0, self.saved_cursor.1),
            _ => {},
        }
    }

    /// Reads a byte in the `Escape` state.
    fn escape(&mut self, b: u8)
        ensures
            final(self)@ == old(self)@.after_escape(b),
    {
        self.state = match b {
            0x5b /* [ */ if self.caps.ansi_core => {
                self.params.clear();
                self.current = 0;
                self.seen_digit = false;
                self.csi_private = false;
                ParserState::Csi
            },
            0x5d /* ] */ if self.caps.osc => {
                self.osc_buf.clear();
                ParserState::Osc
            },
            _ => ParserState::Ground,
        };
    }

    /// Reads a byte in the `Csi` state.
    fn csi(&mut self, b: u8, grid: &mut Grid)
        requires
            old(grid).wf(),
        ensures
            final(grid).wf(),
            (final(self)@, final(grid)@) == old(self)@.after_csi(old(grid)@, b),
    {
        match b {
            0x3f /* ? */ if !self.seen_digit && self.params.len() == 0 => {
                self.csi_private = true;
            },
            0x30..=0x39 /* digits */ => {
                let tens: u16 = if self.current > 6553 {
                    u16::MAX
                } else {
                    self.current * 10
                };
                self.current = tens.saturating_add((b - 0x30) as u16);
                self.seen_digit = true;
            },
            0x3b /* ; */ => {
                self.params.push(if self.seen_digit { self.current } else { 0 });
                self.current = 0;
                self.seen_digit = false;
            },
            0x40..=0x7e => {
                if self.seen_digit {
                    self.params.push(self.current);
                }
                self.dispatch(b, grid);
                self.state = ParserState::Ground;
                self.params.clear();
                self.current = 0;
                self.seen_digit = false;
                self.csi_private = false;
            },
            _ => self.state = ParserState::Ground,
        }
    }

    /// Reads a byte in the `Osc` state.
    fn osc(&mut self, b: u8)
        ensures
            final(self)@ == old(self)@.after_osc(b),
    {
        match b {
            0x07 => {
                self.finalize_osc();
                self.state = ParserState::Ground;
            },
            0x1b => self.state = ParserState::OscEscape,
            _ => {
                self.osc_buf.push(b);
            },
        }
    }

    /// Ends an OSC string: `0;title`, `1;title` or `2;title` sets the window
    /// title.
    fn finalize_osc(&mut self)
        ensures
            final(self)@ == old(self)@.osc_finalized(),
    {
        match decode_utf8_bytes(self.osc_buf.as_slice()) {
            Utf8Decoded::Text(s) => {
                let t = s.as_str();
                let n = t.unicode_len();
                if n >= 2 {
                    let c0 = t.get_char(0);
                    let c1 = t.get_char(1);
                    if (c0 == '0' || c0 == '1' || c0 == '2') && c1 == ';' {
                        let rest = t.substring_char(2, n);
                        self.osc_title = Some(String::from_str(rest));
                        assert(rest@ =~= decode_utf8(old(self)@.osc_buf).skip(2));
                    }
                }
            },
            _ => {},
        }
        self.osc_buf.clear();
    }
}

impl Parser {
    /// Extends the pending UTF-8 sequence with `b`; writes the first character
    /// of each grapheme cluster of a completed sequence, or `?` for an
    /// invalid one.
    fn decode_utf8(&mut self, b: u8, grid: &mut Grid)
        requires
            old(grid).wf(),
            old(self)@.after_text_byte(old(grid)@, b) is Some,
        ensures
            final(grid).wf(),
            (final(self)@, final(grid)@) == old(self)@.after_text_byte(old(grid)@, b)->Some_0,
    {
        let ghost g0 = grid@;
        self.utf8_buf.push(b);
        match decode_utf8_bytes(self.utf8_buf.as_slice()) {
            Utf8Decoded::Text(s) => {
                let clusters = graphemes(s.as_str());
                let ghost gs = cluster_views(clusters@);
                proof {
                    assert(clusters_written(g0, gs) is Some);
                }
                let mut k: usize = 0;
                while k < clusters.len()
                    invariant
                        k <= clusters@.len(),
                        gs == cluster_views(clusters@),
                        clusters_written(g0, gs) is Some,
                        grid.wf(),
                        clusters_written(g0, gs.take(k as int)) == Some(grid@),
                    decreases clusters@.len() - k,
                {
                    proof {
                        lemma_clusters_prefix(g0, gs, k + 1);
                        assert(gs.take(k + 1).drop_last() =~= gs.take(k as int));
                    }
                    let g = clusters[k].as_str();
                    if g.unicode_len() > 0 {
                        let ch = g.get_char(0);
                        grid.write_char(ch);
                    }
                    k = k + 1;
                }
                assert(gs.take(clusters@.len() as int) =~= gs);
                self.utf8_buf.clear();
            },
            Utf8Decoded::Incomplete => {},
            Utf8Decoded::Invalid => {
                grid.write_char('?');
                self.utf8_buf.clear();
            },
        }
    }

    /// Reads a byte in the `Ground` state: text and simple control bytes.
    fn ground(&mut self, b: u8, grid: &mut Grid)
        requires
            old(grid).wf(),
            old(self)@.after_ground(old(grid)@, b) is Some,
        ensures
            final(grid).wf(),
            (final(self)@, final(grid)@) == old(self)@.after_ground(old(grid)@, b)->Some_0,
    {
        match b {
            0x1b => {
                // A pending partial UTF-8 sequence is dropped on ESC.
                self.utf8_buf.clear();
                self.state = ParserState::Escape;
            },
            0x07 => {},
            0x08 => grid.cursor_col = grid.cursor_col.saturating_sub(1),
            0x09 => grid.cursor_col = next_tab_stop(grid.cursor_col, grid.cols),
            0x0a => {
                if grid.cursor_row + 1 >= grid.rows {
                    grid.scroll_up(1);
                    grid.cursor_row = grid.rows - 1;
                } else {
                    grid.cursor_row = grid.cursor_row + 1;
                }
            },
            0x0d => grid.cursor_col = 0,
            0x20..=0x7e => grid.write_char(b as char),
            _ => self.decode_utf8(b, grid),
        }
    }

    /// Feeds one byte.
    fn step(&mut self, b: u8, grid: &mut Grid)
        requires
            old(grid).wf(),
            old(self)@.step(old(grid)@, b) is Some,
        ensures
            final(grid).wf(),
            (final(self)@, final(grid)@) == old(self)@.step(old(grid)@, b)->Some_0,
    {
        match self.state {
            ParserState::Ground => self.ground(b, grid),
            ParserState::Escape => self.escape(b),
            ParserState::Csi => self.csi(b, grid),
            ParserState::Osc => self.osc(b),
            ParserState::OscEscape => {
                // ESC \ (string terminator) ends the OSC string.
                self.finalize_osc();
                self.state = ParserState::Ground;
            },
        }
    }

    /// Feeds a chunk of bytes into the parser and applies effects to `grid`.
    ///
    /// This method may be called repeatedly with partial escape sequences;
    /// parser state is preserved between calls. A single-row grid cannot
    /// scroll: input that would make it scroll is refused by the precondition
    /// (see `try_feed`).
    pub fn feed(&mut self, bytes: &[u8], grid: &mut Grid)
        requires
            old(grid).wf(),
            old(self)@.fed(old(grid)@, bytes@) is Some,
        ensures
            final(grid).wf(),
            (final(self)@, final(grid)@) == old(self)@.fed(old(grid)@, bytes@)->Some_0,
    {
        let ghost p0 = self@;
        let ghost g0 = grid@;
        let mut k: usize = 0;
        while k < bytes.len()
            invariant
                k <= bytes@.len(),
                p0.fed(g0, bytes@) is Some,
                grid.wf(),
                p0.fed(g0, bytes@.take(k as int)) == Some((self@, grid@)),
            decreases bytes@.len() - k,
        {
            proof {
                lemma_fed_prefix(p0, g0, bytes@, k + 1);
                assert(bytes@.take(k + 1).drop_last() =~= bytes@.take(k as int));
            }
            self.step(bytes[k], grid);
            k = k + 1;
        }
        assert(bytes@.take(bytes@.len() as int) =~= bytes@);
    }
}

/// Lemma: on a screen of at least two rows, a write never needs the refused
/// scroll, and keeps the screen's height.
pub proof fn lemma_written_tall(g: GridView, ch: char, w: Option<usize>)
    requires
        g.rows >= 2,
    ensures
        g.written(ch, w) is Some,
        g.written(ch, w)->Some_0.rows == g.rows,
{
}

/// Lemma: on a screen of at least two rows, writing clusters always succeeds.
pub proof fn lemma_clusters_tall(g: GridView, gs: Seq<Seq<char>>)
    requires
        g.rows >= 2,
    ensures
        clusters_written(g, gs) is Some,
        clusters_written(g, gs)->Some_0.rows == g.rows,
    decreases gs.len(),
{
    if gs.len() > 0 {
        lemma_clusters_tall(g, gs.drop_last());
        let g1 = clusters_written(g, gs.drop_last())->Some_0;
        if gs.last().len() > 0 {
            lemma_written_tall(g1, gs.last()[0], char_columns(gs.last()[0]));
        }
    }
}

/// Lemma: on a screen of at least two rows, every byte is accepted.
pub proof fn lemma_step_tall(p: ParserView, g: GridView, b: u8)
    requires
        g.rows >= 2,
    ensures
        p.step(g, b) is Some,
{
    lemma_written_tall(g, b as char, char_columns(b as char));
    lemma_written_tall(g, '?', char_columns('?'));
    lemma_clusters_tall(g, extended_graphemes(decode_utf8(p.utf8_buf.push(b))));
}

/// Lemma: on a single-row screen, a write succeeds exactly when the
/// character has no width or fits before the last column; it then moves the
/// cursor right by the width and keeps the screen single-row.
pub proof fn lemma_written_single_row(g: GridView, ch: char, w: Option<usize>)
    requires
        g.wf(),
        g.rows == 1,
    ensures
        ({
            let n: int = match w {
                Some(x) => x as int,
                None => 1,
            };
            &&& (g.written(ch, w) is Some) == (n == 0 || g.cursor_col + n < g.cols)
            &&& g.written(ch, w) is Some ==> {
                let g1 = g.written(ch, w)->Some_0;
                &&& g1.rows == 1
                &&& g1.cols == g.cols
                &&& g1.cursor_col == g.cursor_col + n
                &&& g1.cursor_row == 0
                &&& g1.cells.len() == g.cells.len()
            }
        }),
{
    assert(g.next_line() is None);
    let n: int = match w {
        Some(x) => x as int,
        None => 1,
    };
    if n != 0 && g.cursor_col + n < g.cols {
        assert(g.written(ch, w) is Some);
    }
}

/// Lemma: writing clusters that fails on some prefix fails altogether.
pub proof fn lemma_clusters_none_extends(g: GridView, gs: Seq<Seq<char>>, k: int)
    requires
        0 <= k <= gs.len(),
        clusters_written(g, gs.take(k)) is None,
    ensures
        clusters_written(g, gs) is None,
{
    if clusters_written(g, gs) is Some {
        lemma_clusters_prefix(g, gs, k);
    }
}

/// Lemma: feeding bytes that fails on some prefix fails altogether.
pub proof fn lemma_fed_none_extends(p: ParserView, g: GridView, bytes: Seq<u8>, k: int)
    requires
        0 <= k <= bytes.len(),
        p.fed(g, bytes.take(k)) is None,
    ensures
        p.fed(g, bytes) is None,
{
    if p.fed(g, bytes) is Some {
        lemma_fed_prefix(p, g, bytes, k);
    }
}

impl Parser {
    /// Whether the byte `b`, read in `Ground` and not printable ASCII nor a
    /// handled control byte, can be taken on a single-row grid.
    fn text_byte_fits(&self, b: u8, grid: &Grid) -> (ok: bool)
        requires
            grid.wf(),
            grid@.rows == 1,
        ensures
            ok == self@.after_text_byte(grid@, b) is Some,
    {
        let ghost g0 = grid@;
        let mut buf: Vec<u8> = Vec::new();
        let mut j: usize = 0;
        while j < self.utf8_buf.len()
            invariant
                j <= self.utf8_buf@.len(),
                buf@ == self.utf8_buf@.take(j as int),
            decreases self.utf8_buf@.len() - j,
        {
            buf.push(self.utf8_buf[j]);
            j = j + 1;
            assert(buf@ =~= self.utf8_buf@.take(j as int));
        }
        assert(buf@ =~= self.utf8_buf@);
        buf.push(b);
        match decode_utf8_bytes(buf.as_slice()) {
            Utf8Decoded::Text(s) => {
                let clusters = graphemes(s.as_str());
                let ghost gs = cluster_views(clusters@);
                let mut col = grid.cursor_col;
                let mut k: usize = 0;
                while k < clusters.len()
                    invariant
                        k <= clusters@.len(),
                        gs == cluster_views(clusters@),
                        buf@ == self.utf8_buf@.push(b),
                        valid_utf8(buf@),
                        gs == extended_graphemes(decode_utf8(buf@)),
                        g0 == grid@,
                        g0.wf(),
                        g0.rows == 1,
                        clusters_written(g0, gs.take(k as int)) is Some,
                        clusters_written(g0, gs.take(k as int))->Some_0.wf(),
                        clusters_written(g0, gs.take(k as int))->Some_0.rows == 1,
                        clusters_written(g0, gs.take(k as int))->Some_0.cols == g0.cols,
                        clusters_written(g0, gs.take(k as int))->Some_0.cursor_col == col,
                    decreases clusters@.len() - k,
                {
                    let ghost gk = clusters_written(g0, gs.take(k as int))->Some_0;
                    proof {
                        assert(gs.take(k + 1).drop_last() =~= gs.take(k as int));
                        assert(gs.take(k + 1).last() == gs[k as int]);
                        assert(gs[k as int] == clusters@[k as int]@);
                    }
                    let g = clusters[k].as_str();
                    if g.unicode_len() > 0 {
                        let ch = g.get_char(0);
                        let w = match crate::unicode::char_width(ch) {
                            Some(n) => n,
                            None => 1,
                        };
                        proof {
                            lemma_written_single_row(gk, ch, char_columns(ch));
                        }
                        if w != 0 {
                            if w >= grid.cols - col {
                                proof {
                                    lemma_clusters_none_extends(g0, gs, k + 1);
                                }
                                return false;
                            }
                            col = col + w;
                        }
                        proof {
                            let g1 = gk.written(ch, char_columns(ch))->Some_0;
                            assert(g1.wf());
                        }
                    }
                    k = k + 1;
                }
                assert(gs.take(clusters@.len() as int) =~= gs);
                true
            },
            Utf8Decoded::Incomplete => true,
            Utf8Decoded::Invalid => {
                proof {
                    lemma_written_single_row(g0, '?', char_columns('?'));
                }
                grid.cursor_col + 1 < grid.cols
            },
        }
    }

    /// Whether feeding the byte `b` next is possible: always, except on a
    /// single-row grid where it would make the grid scroll.
    pub fn step_fits(&self, b: u8, grid: &Grid) -> (ok: bool)
        requires
            grid.wf(),
        ensures
            ok == self@.step(grid@, b) is Some,
    {
        if grid.rows >= 2 {
            proof {
                lemma_step_tall(self@, grid@, b);
            }
            return true;
        }
        proof {
            lemma_written_single_row(grid@, b as char, char_columns(b as char));
        }
        match self.state {
            ParserState::Ground => match b {
                0x0a => false,
                0x1b | 0x07 | 0x08 | 0x09 | 0x0d => true,
                0x20..=0x7e => grid.cursor_col + 1 < grid.cols,
                _ => self.text_byte_fits(b, grid),
            },
            _ => true,
        }
    }

    /// Feeds `bytes` as `feed` does, up to the first byte that a single-row
    /// grid cannot take (one that would make it scroll), and returns how many
    /// bytes were consumed: all of them exactly when `feed` would accept the
    /// whole chunk.
    pub fn try_feed(&mut self, bytes: &[u8], grid: &mut Grid) -> (n: usize)
        requires
            old(grid).wf(),
        ensures
            final(grid).wf(),
            n <= bytes@.len(),
            old(self)@.fed(old(grid)@, bytes@.take(n as int)) == Some((final(self)@, final(grid)@)),
            n < bytes@.len() ==> old(self)@.fed(old(grid)@, bytes@.take(n + 1)) is None,
            (n == bytes@.len()) == (old(self)@.fed(old(grid)@, bytes@) is Some),
    {
        let ghost p0 = self@;
        let ghost g0 = grid@;
        let mut k: usize = 0;
        while k < bytes.len()
            invariant
                k <= bytes@.len(),
                grid.wf(),
                p0 == old(self)@,
                g0 == old(grid)@,
                p0.fed(g0, bytes@.take(k as int)) == Some((self@, grid@)),
            decreases bytes@.len() - k,
        {
            proof {
                assert(bytes@.take(k + 1).drop_last() =~= bytes@.take(k as int));
                assert(bytes@.take(k + 1).last() == bytes@[k as int]);
            }
            if !self.step_fits(bytes[k], grid) {
                proof {
                    lemma_fed_none_extends(p0, g0, bytes@, k + 1);
                }
                return k;
            }
            self.step(bytes[k], grid);
            k = k + 1;
        }
        assert(bytes@.take(bytes@.len() as int) =~= bytes@);
        k
    }
}

/// Law: feeding `a` and then `b` in a second call is the same as feeding
/// `a + b` in one: sequences split across reads are handled as if they had
/// arrived whole.
pub proof fn lemma_feed_split(p: ParserView, g: GridView, a: Seq<u8>, b: Seq<u8>)
    ensures
        p.fed(g, a + b) == match p.fed(g, a) {
            None => None,
            Some((p1, g1)) => p1.fed(g1, b),
        },
    decreases b.len(),
{
    if b.len() == 0 {
        assert(a + b =~= a);
    } else {
        lemma_feed_split(p, g, a, b.drop_last());
        assert((a + b).drop_last() =~= a + b.drop_last());
        assert((a + b).last() == b.last());
    }
}

/// Lemma: a step keeps the screen's height.
pub proof fn lemma_step_rows(p: ParserView, g: GridView, b: u8)
    requires
        p.step(g, b) is Some,
    ensures
        p.step(g, b)->Some_0.1.rows == g.rows,
{
    let buf = p.utf8_buf.push(b);
    if g.rows >= 2 {
        lemma_written_tall(g, b as char, char_columns(b as char));
        lemma_written_tall(g, '?', char_columns('?'));
        lemma_clusters_tall(g, extended_graphemes(decode_utf8(buf)));
    } else {
        lemma_clusters_rows(g, extended_graphemes(decode_utf8(buf)));
        lemma_written_rows(g, b as char, char_columns(b as char));
        lemma_written_rows(g, '?', char_columns('?'));
    }
}

/// Lemma: a write keeps the screen's height.
pub proof fn lemma_written_rows(g: GridView, ch: char, w: Option<usize>)
    ensures
        g.written(ch, w) matches Some(g1) ==> g1.rows == g.rows,
{
}

/// Lemma: writing clusters keeps the screen's height.
pub proof fn lemma_clusters_rows(g: GridView, gs: Seq<Seq<char>>)
    ensures
        clusters_written(g, gs) matches Some(g1) ==> g1.rows == g.rows,
    decreases gs.len(),
{
    if gs.len() > 0 {
        lemma_clusters_rows(g, gs.drop_last());
        if let Some(g1) = clusters_written(g, gs.drop_last()) {
            if gs.last().len() > 0 {
                lemma_written_rows(g1, gs.last()[0], char_columns(gs.last()[0]));
            }
        }
    }
}

/// Law: on a screen of at least two rows, the parser accepts every byte
/// stream, from any state.
pub proof fn lemma_fed_tall(p: ParserView, g: GridView, bytes: Seq<u8>)
    requires
        g.rows >= 2,
    ensures
        p.fed(g, bytes) is Some,
        p.fed(g, bytes)->Some_0.1.rows == g.rows,
    decreases bytes.len(),
{
    if bytes.len() > 0 {
        lemma_fed_tall(p, g, bytes.drop_last());
        let (p1, g1) = p.fed(g, bytes.drop_last())->Some_0;
        lemma_step_tall(p1, g1, bytes.last());
        lemma_step_rows(p1, g1, bytes.last());
    }
}

/// Law: the final byte of a CSI sequence always returns the parser to
/// `Ground` with no parameters pending.
pub proof fn lemma_csi_final_returns_to_ground(p: ParserView, g: GridView, b: u8)
    requires
        p.state == ParserState::Csi,
        0x40 <= b <= 0x7e,
    ensures
        p.step(g, b) matches Some((p1, _)) && p1.state == ParserState::Ground && p1.params.len() == 0
            && p1.current == 0 && !p1.seen_digit && !p1.csi_private,
{
}

/// Law: a private CSI sequence (`ESC [ ? ...`) leaves the screen as it was.
pub proof fn lemma_private_csi_keeps_screen(p: ParserView, g: GridView, b: u8)
    requires
        p.state == ParserState::Csi,
        p.csi_private,
        0x40 <= b <= 0x7e,
    ensures
        p.step(g, b) matches Some((_, g1)) && g1 == g,
{
}

/// Law: `ESC` in `Ground` drops any partial UTF-8 character, so escape
/// sequences are never mixed into text.
pub proof fn lemma_escape_drops_partial_text(p: ParserView, g: GridView)
    requires
        p.state == ParserState::Ground,
    ensures
        p.step(g, 0x1b) matches Some((p1, g1)) && p1.utf8_buf.len() == 0
            && p1.state == ParserState::Escape && g1 == g,
{
}

/// Law: a restore (`u`) dispatched after a save (`s`), with nothing saved in
/// between, puts the cursor back where the save found it, when that position
/// is on the screen; it changes no cell, not the attributes, and not the
/// parser. (The screen's size fits in `usize`, as that of every `Grid`.)
pub proof fn lemma_dispatch_save_restore(p: ParserView, g: GridView, q: ParserView, g2: GridView)
    requires
        g.wf(),
        g2.wf(),
        g.rows <= usize::MAX,
        g.cols <= usize::MAX,
        !p.csi_private,
        !q.csi_private,
        q.saved_cursor == p.dispatched(g, 0x73).0.saved_cursor,
        g.cursor_row < g2.rows,
        g.cursor_col < g2.cols,
    ensures
        p.dispatched(g, 0x73).1 == g,
        q.dispatched(g2, 0x75) == (q, GridView { cursor_row: g.cursor_row, cursor_col: g.cursor_col, ..g2 }),
{
}

/// Whether feeding `bytes` from `p` and `g` reads a save-cursor final byte
/// (`ESC [ s`) somewhere: a byte `s` read in the `Csi` state of a sequence
/// that is not private.
pub open spec fn saves_cursor(p: ParserView, g: GridView, bytes: Seq<u8>) -> bool {
    exists|k: int| 0 <= k < bytes.len() && #[trigger] saves_at(p, g, bytes, k)
}

/// Whether byte `k` of `bytes`, fed from `p` and `g`, ends a save-cursor
/// sequence.
pub open spec fn saves_at(p: ParserView, g: GridView, bytes: Seq<u8>, k: int) -> bool {
    match p.fed(g, bytes.take(k)) {
        Some((pk, _)) => pk.state == ParserState::Csi && !pk.csi_private && bytes[k] == 0x73,
        None => false,
    }
}

/// Law: a save-cursor sequence records where the cursor is, and no other
/// byte changes what was saved.
pub proof fn lemma_step_saved_cursor(p: ParserView, g: GridView, b: u8)
    ensures
        match p.step(g, b) {
            Some((p1, _)) => if p.state == ParserState::Csi && !p.csi_private && b == 0x73 {
                p1.saved_cursor == (g.cursor_row as usize, g.cursor_col as usize)
            } else {
                p1.saved_cursor == p.saved_cursor
            },
            None => true,
        },
{
}

/// Law: across any bytes that contain no save-cursor sequence, the saved
/// cursor position stays what it was.
pub proof fn lemma_fed_keeps_saved_cursor(p: ParserView, g: GridView, bytes: Seq<u8>)
    requires
        !saves_cursor(p, g, bytes),
    ensures
        p.fed(g, bytes) matches Some((p1, _)) ==> p1.saved_cursor == p.saved_cursor,
    decreases bytes.len(),
{
    if bytes.len() > 0 {
        let prev = bytes.drop_last();
        let k = bytes.len() - 1;
        assert(bytes.take(k) =~= prev);
        if saves_cursor(p, g, prev) {
            let j = choose|j: int| 0 <= j < prev.len() && #[trigger] saves_at(p, g, prev, j);
            assert(prev.take(j) =~= bytes.take(j));
            assert(saves_at(p, g, bytes, j));
        }
        lemma_fed_keeps_saved_cursor(p, g, prev);
        match p.fed(g, prev) {
            Some((pk, gk)) => {
                assert(p.fed(g, bytes.take(k)) == Some((pk, gk)));
                assert(!saves_at(p, g, bytes, k));
                assert(bytes[k] == bytes.last());
                lemma_step_saved_cursor(pk, gk, bytes.last());
                assert(p.fed(g, bytes) == pk.step(gk, bytes.last()));
            },
            None => {},
        }
    }
}

/// Law: a restore-cursor sequence (`ESC [ u`) puts the cursor back where it
/// was saved, when that position is on the screen, and changes nothing else:
/// no cell, not the attributes, not what was saved.
pub proof fn lemma_restore_returns_to_saved(p: ParserView, g: GridView)
    requires
        g.wf(),
        p.state == ParserState::Csi,
        !p.csi_private,
        !p.seen_digit,
        (p.saved_cursor.0 as int) < g.rows,
        (p.saved_cursor.1 as int) < g.cols,
    ensures
        p.step(g, 0x75) matches Some((p1, g1)) && {
            &&& g1 == GridView { cursor_row: p.saved_cursor.0 as int, cursor_col: p.saved_cursor.1 as int, ..g }
            &&& p1.saved_cursor == p.saved_cursor
            &&& p1.state == ParserState::Ground
        },
{
}

/// Whether column `k` is a tab stop: every eighth column, from column 0.
pub open spec fn is_tab_stop(k: int) -> bool {
    k % 8 == 0
}

/// Law: a tab read in `Ground` moves the cursor right to the next tab stop
/// (the next column that is a multiple of 8, strictly after the cursor), or
/// to the last column when that stop is off the screen; nothing else changes.
pub proof fn lemma_tab_moves_to_next_stop(p: ParserView, g: GridView)
    requires
        g.wf(),
        p.state == ParserState::Ground,
    ensures
        p.step(g, 0x09) matches Some((p1, g1)) && {
            &&& p1 == p
            &&& g1 == GridView { cursor_col: g1.cursor_col, ..g }
            &&& g1.cursor_col <= g.cols - 1
            &&& g1.cursor_col <= g.cursor_col + 8
            &&& (g.cursor_col < g.cols - 1 ==> g.cursor_col < g1.cursor_col)
            &&& (g1.cursor_col < g.cols - 1 ==> is_tab_stop(g1.cursor_col))
            &&& forall|k: int| g.cursor_col < k < g1.cursor_col ==> !#[trigger] is_tab_stop(k)
        },
{
    let c = g.cursor_col;
    let t = (c / 8 + 1) * 8;
    assert(c - 8 < (c / 8) * 8 <= c) by (nonlinear_arith)
        requires
            c >= 0,
    ;
    assert(t % 8 == 0) by (nonlinear_arith)
        requires
            t == (c / 8 + 1) * 8,
            c >= 0,
    ;
    assert forall|k: int| c < k < t implies !#[trigger] is_tab_stop(k) by {
        if k % 8 == 0 {
            assert(k == (k / 8) * 8) by (nonlinear_arith)
                requires
                    k % 8 == 0,
            ;
            assert((c / 8) * 8 <= c < k < (c / 8 + 1) * 8);
            assert(c / 8 < k / 8 < c / 8 + 1) by (nonlinear_arith)
                requires
                    (c / 8) * 8 < k,
                    k < (c / 8 + 1) * 8,
                    k == (k / 8) * 8,
            ;
        }
    }
}

/// Law: the eight basic SGR colors follow the ANSI order — black, red,
/// green, yellow, blue, magenta, cyan, white — for the foreground (30–37),
/// the background (40–47), and, when the extended set is on, their bright
/// forms (90–97, 100–107); whatever the attributes were before.
pub proof fn lemma_sgr_basic_colors(a: Attributes, caps: AnsiCapabilities)
    ensures
        sgr_applied(a, seq![30u16], caps).fg == Color::Black,
        sgr_applied(a, seq![31u16], caps).fg == Color::Red,
        sgr_applied(a, seq![32u16], caps).fg == Color::Green,
        sgr_applied(a, seq![33u16], caps).fg == Color::Yellow,
        sgr_applied(a, seq![34u16], caps).fg == Color::Blue,
        sgr_applied(a, seq![35u16], caps).fg == Color::Magenta,
        sgr_applied(a, seq![36u16], caps).fg == Color::Cyan,
        sgr_applied(a, seq![37u16], caps).fg == Color::White,
        sgr_applied(a, seq![40u16], caps).bg == Color::Black,
        sgr_applied(a, seq![41u16], caps).bg == Color::Red,
        sgr_applied(a, seq![42u16], caps).bg == Color::Green,
        sgr_applied(a, seq![43u16], caps).bg == Color::Yellow,
        sgr_applied(a, seq![44u16], caps).bg == Color::Blue,
        sgr_applied(a, seq![45u16], caps).bg == Color::Magenta,
        sgr_applied(a, seq![46u16], caps).bg == Color::Cyan,
        sgr_applied(a, seq![47u16], caps).bg == Color::White,
        caps.xterm_extended ==> {
            &&& sgr_applied(a, seq![90u16], caps).fg == Color::Black
            &&& sgr_applied(a, seq![91u16], caps).fg == Color::Red
            &&& sgr_applied(a, seq![92u16], caps).fg == Color::Green
            &&& sgr_applied(a, seq![93u16], caps).fg == Color::Yellow
            &&& sgr_applied(a, seq![94u16], caps).fg == Color::Blue
            &&& sgr_applied(a, seq![95u16], caps).fg == Color::Magenta
            &&& sgr_applied(a, seq![96u16], caps).fg == Color::Cyan
            &&& sgr_applied(a, seq![97u16], caps).fg == Color::White
            &&& sgr_applied(a, seq![100u16], caps).bg == Color::Black
            &&& sgr_applied(a, seq![101u16], caps).bg == Color::Red
            &&& sgr_applied(a, seq![102u16], caps).bg == Color::Green
            &&& sgr_applied(a, seq![103u16], caps).bg == Color::Yellow
            &&& sgr_applied(a, seq![104u16], caps).bg == Color::Blue
            &&& sgr_applied(a, seq![105u16], caps).bg == Color::Magenta
            &&& sgr_applied(a, seq![106u16], caps).bg == Color::Cyan
            &&& sgr_applied(a, seq![107u16], caps).bg == Color::White
        },
{
    reveal_with_fuel(sgr_from, 2);
}

/// `v + d` limited to `hi`, computed without overflow.
fn clamped_add(v: usize, d: usize, hi: usize) -> (r: usize)
    requires
        v <= hi,
    ensures
        r == min(v + d, hi as int),
{
    if d >= hi - v {
        hi
    } else {
        v + d
    }
}

} // verus!
