use terminal_emulator::ansi::{AnsiCapabilities, Parser};
use terminal_emulator::config::{config_path_parts, fallback_shell, default_cols, default_font_size, default_rows, default_scheme, Config};
use terminal_emulator::grid;
use terminal_emulator::pty::pty_master::{fds_to_close, shell_to_run, write_progress, WriteStep};
use terminal_emulator::pty::TermSize;
use terminal_emulator::terminal::screen_buffer::{Attributes, Color, EraseMode, Grid, Scrollback};

fn feed(bytes: &[u8], rows: usize, cols: usize) -> (Parser, Grid) {
    let mut p = Parser::new(AnsiCapabilities::default());
    let mut g = Grid::new(rows, cols);
    p.feed(bytes, &mut g);
    (p, g)
}

#[test]
fn feeding_in_chunks_equals_feeding_at_once() {
    let input: &[u8] = b"ab\x1b[3;2Hc\x1b[31mde\xc3\xa9\x1b]0;t\x07\r\nxyz";
    let (p_all, g_all) = feed(input, 4, 6);
    for split in 0..=input.len() {
        let mut p = Parser::new(AnsiCapabilities::default());
        let mut g = Grid::new(4, 6);
        p.feed(&input[..split], &mut g);
        p.feed(&input[split..], &mut g);
        assert_eq!(g.to_string(), g_all.to_string(), "split at {split}");
        assert_eq!((g.cursor_row, g.cursor_col), (g_all.cursor_row, g_all.cursor_col));
        assert_eq!(g.current_attrs, g_all.current_attrs);
        assert_eq!(p.osc_title, p_all.osc_title);
    }
}

#[test]
fn write_then_read_gives_the_character() {
    let mut g = Grid::new(3, 5);
    g.move_cursor(1, 3);
    g.current_attrs.fg = Color::Cyan;
    g.write_char('q');
    let c = g.get(1, 3).unwrap();
    assert_eq!(c.ch, 'q');
    assert_eq!(c.attrs.fg, Color::Cyan);
    assert!(c.dirty);
    assert!(!c.wide_continuation);
}

#[test]
fn grid_text_lists_rows() {
    let (_, g) = feed(b"ab\r\ncd", 2, 3);
    assert_eq!(g.to_string(), "ab \ncd \n");
}

#[test]
fn wide_character_takes_two_columns() {
    let mut g = Grid::new(2, 4);
    g.write_char('日');
    assert_eq!(g.cursor_col, 2);
    assert_eq!(g.get(0, 0).unwrap().ch, '日');
    assert!(g.get(0, 1).unwrap().wide_continuation);
}

#[test]
fn wide_character_at_last_column_wraps_first() {
    let mut g = Grid::new(2, 3);
    g.move_cursor(0, 2);
    g.write_char('日');
    assert_eq!(g.get(1, 0).unwrap().ch, '日');
    assert!(g.get(1, 1).unwrap().wide_continuation);
    assert_eq!((g.cursor_row, g.cursor_col), (1, 2));
}

#[test]
fn combining_mark_takes_no_cell() {
    let (_, g) = feed("e\u{301}x".as_bytes(), 2, 5);
    assert_eq!(g.get(0, 0).unwrap().ch, 'e');
    assert_eq!(g.get(0, 1).unwrap().ch, 'x');
}

#[test]
fn control_character_takes_one_column() {
    let mut g = Grid::new(2, 4);
    g.write_char('\x07');
    assert_eq!(g.cursor_col, 1);
    assert_eq!(g.get(0, 0).unwrap().ch, '\x07');
}

#[test]
fn character_split_across_chunks_is_decoded_once_complete() {
    let mut p = Parser::new(AnsiCapabilities::default());
    let mut g = Grid::new(2, 6);
    p.feed(&[0xe6, 0x97], &mut g);
    assert_eq!(g.cursor_col, 0);
    assert_eq!(g.get(0, 0).unwrap().ch, ' ');
    p.feed(&[0xa5, b'!'], &mut g);
    assert_eq!(g.get(0, 0).unwrap().ch, '日');
    assert!(g.get(0, 1).unwrap().wide_continuation);
    assert_eq!(g.get(0, 2).unwrap().ch, '!');
}

#[test]
fn accented_text_is_written_as_characters() {
    let (_, g) = feed("né e\u{301}".as_bytes(), 2, 8);
    assert_eq!(g.to_string(), "né e    \n        \n");
}

#[test]
fn invalid_utf8_shows_replacement_mark() {
    let (_, g) = feed(&[0xff, b'k'], 2, 4);
    assert_eq!(g.get(0, 0).unwrap().ch, '?');
    assert_eq!(g.get(0, 1).unwrap().ch, 'k');
}

#[test]
fn huge_csi_parameter_saturates() {
    let (_, g) = feed(b"\x1b[99999;99999H", 5, 7);
    assert_eq!((g.cursor_row, g.cursor_col), (4, 6));
    let (_, g) = feed(b"\x1b[3;3H\x1b[99999A", 5, 7);
    assert_eq!((g.cursor_row, g.cursor_col), (0, 2));
}

#[test]
fn cursor_motions() {
    let (_, g) = feed(b"\x1b[3;4H\x1b[B\x1b[2C\x1b[D", 6, 10);
    assert_eq!((g.cursor_row, g.cursor_col), (3, 4));
    let (_, g) = feed(b"abc\x08\x08", 2, 10);
    assert_eq!(g.cursor_col, 1);
    let (_, g) = feed(b"a\tb", 2, 20);
    assert_eq!(g.get(0, 8).unwrap().ch, 'b');
}

#[test]
fn erase_display_modes() {
    let mut g = Grid::new(3, 3);
    for ch in "abcdefgh".chars() {
        g.write_char(ch);
    }
    let mut to_end = Grid::new(3, 3);
    let mut p = Parser::new(AnsiCapabilities::default());
    p.feed(b"abcdefgh\x1b[2;2H\x1b[J", &mut to_end);
    assert_eq!(to_end.to_string(), "abc\nd  \n   \n");
    let mut to_start = Grid::new(3, 3);
    let mut p = Parser::new(AnsiCapabilities::default());
    p.feed(b"abcdefgh\x1b[2;2H\x1b[1J", &mut to_start);
    assert_eq!(to_start.to_string(), "   \n  f\ngh \n");
    g.erase_display(EraseMode::All);
    assert_eq!(g.to_string(), "   \n   \n   \n");
}

#[test]
fn erase_line_modes() {
    let (_, g) = feed(b"abcde\x1b[3G\x1b[1K", 2, 6);
    assert_eq!(g.to_string(), "   de \n      \n");
    let (_, g) = feed(b"abcde\x1b[3G\x1b[2K", 2, 6);
    assert_eq!(g.to_string(), "      \n      \n");
}

#[test]
fn sgr_reset_and_colors() {
    let (_, g) = feed(b"\x1b[1;4;3;44;93m", 2, 4);
    let a = g.current_attrs;
    assert!(a.bold && a.underline && a.italic);
    assert!(!a.blink && !a.reverse);
    assert_eq!(a.bg, Color::Blue);
    assert_eq!(a.fg, Color::Yellow);
    let (_, g) = feed(b"\x1b[1;4;3m\x1b[21;24;23m", 2, 4);
    assert_eq!(g.current_attrs, Attributes::default());
    let (_, g) = feed(b"\x1b[1;4;31m\x1b[0m", 2, 4);
    assert_eq!(g.current_attrs, Attributes::default());
    let (_, g) = feed(b"\x1b[48;2;1;2;3m\x1b[38;5;7m", 2, 4);
    assert_eq!(g.current_attrs.bg, Color::Rgb(1, 2, 3));
    assert_eq!(g.current_attrs.fg, Color::Indexed(7));
}

#[test]
fn osc_without_capability_is_ignored() {
    let caps = AnsiCapabilities { ansi_core: true, xterm_extended: true, osc: false };
    let mut p = Parser::new(caps);
    let mut g = Grid::new(2, 10);
    p.feed(b"\x1b]0;T\x07Z", &mut g);
    assert_eq!(p.osc_title, None);
}

#[test]
fn osc_terminated_by_string_terminator() {
    let (p, _) = feed(b"\x1b]2;Hello\x1b\\", 2, 10);
    assert_eq!(p.osc_title.as_deref(), Some("Hello"));
}

#[test]
fn single_row_grid_refuses_to_scroll() {
    let mut p = Parser::new(AnsiCapabilities::default());
    let mut g = Grid::new(1, 3);
    let n = p.try_feed(b"ab\ncd", &mut g);
    assert_eq!(n, 2);
    assert_eq!(g.to_string(), "ab \n");
    let mut g = Grid::new(1, 2);
    g.write_char('x');
    assert!(!g.try_write_char('y'));
    assert_eq!((g.cursor_row, g.cursor_col), (0, 1));
    let mut g = Grid::new(2, 2);
    assert!(g.try_write_char('y'));
}

#[test]
fn scrollback_keeps_a_bounded_history() {
    let mut g = Grid::new(2, 2);
    for _ in 0..7 {
        g.scroll_up(1);
    }
    assert_eq!(g.scrollback.len(), 7);
    assert!(!g.scrollback.is_empty());
    let s = Scrollback::new(3);
    assert!(s.is_empty());
    assert_eq!(s.len(), 0);
}

#[test]
fn resize_keeps_overlap_and_blanks_the_rest() {
    let (_, mut g) = feed(b"abc\r\nde", 3, 4);
    g.resize(4, 2);
    assert_eq!(g.to_string(), "ab\nde\n  \n  \n");
    assert_eq!((g.cursor_row, g.cursor_col), (1, 1));
}

#[test]
fn relative_moves_clamp_at_the_far_edges() {
    let mut g = Grid::new(4, 8);
    g.move_cursor_relative(2, 3);
    assert_eq!((g.cursor_row, g.cursor_col), (2, 3));
    g.move_cursor_relative(999, 999);
    assert_eq!((g.cursor_row, g.cursor_col), (3, 7));
}

#[test]
fn configuration_defaults() {
    assert_eq!(default_rows(), 24);
    assert_eq!(default_cols(), 80);
    assert_eq!(default_font_size(), 14);
    assert_eq!(default_scheme(), "dark");
    let c = Config::with_shell("/bin/zsh".to_string());
    assert_eq!(c.shell, "/bin/zsh");
    assert_eq!((c.rows, c.cols), (24, 80));
    assert_eq!(fallback_shell(None), "/bin/bash");
    assert_eq!(fallback_shell(Some("/bin/zsh".into())), "/bin/zsh");
    assert_eq!(
        config_path_parts(Some("/x".into()), Some("/home/u".into())),
        vec!["/x", "terminal_emulator", "config.toml"]
    );
    assert_eq!(
        config_path_parts(None, Some("/home/u".into())),
        vec!["/home/u", ".config", "terminal_emulator", "config.toml"]
    );
    assert_eq!(config_path_parts(None, None), vec![".", ".config", "terminal_emulator", "config.toml"]);
    let t = TermSize::default_vt100();
    assert_eq!((t.rows, t.cols), (24, 80));
    assert!(t.shell.is_none());
}

#[test]
fn plain_grid_writes_wraps_and_scrolls() {
    let mut g = grid::Grid::new(2, 2);
    for ch in ['a', 'b', 'c', 'd', 'e'] {
        g.write_char(ch);
    }
    assert_eq!(g.to_string(), "cd\ne \n");
    assert_eq!((g.cursor_row, g.cursor_col), (1, 1));
    assert_eq!(g.get(1, 0).unwrap().ch, 'e');
    assert!(g.get(2, 0).is_none());
}

#[test]
fn plain_grid_clears_and_tracks_dirt() {
    let mut g = grid::Grid::new(2, 3);
    g.write_char('x');
    g.clear_dirty();
    assert!(g.dirty_cells().is_empty());
    g.current_attrs.bg = grid::Color::Green;
    g.move_cursor(0, 1);
    g.clear_line_from_cursor();
    assert_eq!(g.get(0, 0).unwrap().ch, 'x');
    assert_eq!(g.get(0, 2).unwrap().attrs.bg, grid::Color::Green);
    assert_eq!(g.dirty_cells().len(), 2);
    g.move_cursor(9, 9);
    assert_eq!((g.cursor_row, g.cursor_col), (1, 2));
    g.clear();
    assert_eq!(g.to_string(), "   \n   \n");
    assert_eq!(g.get(1, 2).unwrap().attrs.bg, grid::Color::Green);
    assert_eq!(g.get(0, 0).unwrap().attrs.fg, grid::Color::Default);
    assert!(g.get(0, 0).unwrap().dirty);
    assert_eq!((g.cursor_row, g.cursor_col), (0, 0));
    if let Some(c) = g.get_mut(1, 1) {
        c.ch = 'm';
    }
    assert_eq!(g.get(1, 1).unwrap().ch, 'm');
    g.scroll_up();
    assert_eq!(g.get(0, 1).unwrap().ch, 'm');
}

#[test]
fn sgr_blink_and_reverse() {
    let (_, g) = feed(b"\x1b[5;7mX", 2, 4);
    assert!(g.current_attrs.blink && g.current_attrs.reverse);
    assert!(g.get(0, 0).unwrap().attrs.blink);
    let (_, g) = feed(b"\x1b[5;7m\x1b[25;27m", 2, 4);
    assert!(g.current_attrs.blink && g.current_attrs.reverse);
    let (_, g) = feed(b"\x1b[5;7m\x1b[0m", 2, 4);
    assert_eq!(g.current_attrs, Attributes::default());
}

#[test]
fn bell_draws_nothing() {
    let (_, g) = feed(b"a\x07b", 2, 4);
    assert_eq!(g.to_string(), "ab  \n    \n");
}

#[test]
fn forked_child_closes_every_descriptor_above_the_standard_streams() {
    // 7 and 8 stand for the PTY's master and slave ends.
    assert_eq!(fds_to_close(&[0, 1, 2, 7, 8, 3, 12]), vec![7, 8, 3, 12]);
    assert_eq!(fds_to_close(&[0, 1, 2]), Vec::<i32>::new());
}

#[test]
fn write_loop_steps() {
    assert_eq!(write_progress(0, 10, -1), WriteStep::Fail);
    assert_eq!(write_progress(0, 10, 4), WriteStep::Continue(4));
    assert_eq!(write_progress(4, 10, 0), WriteStep::Continue(4));
    assert_eq!(write_progress(4, 10, 6), WriteStep::Done);
    // A short write followed by the rest: every byte once, in order.
    let mut written = 0;
    let mut steps = Vec::new();
    for n in [3isize, 5, 2] {
        let s = write_progress(written, 10, n);
        steps.push(s);
        if let WriteStep::Continue(w) = s {
            written = w;
        }
    }
    assert_eq!(steps, vec![WriteStep::Continue(3), WriteStep::Continue(8), WriteStep::Done]);
}

#[test]
fn shell_choice() {
    assert_eq!(shell_to_run(Some("/bin/zsh".into()), Some("/bin/fish".into())), "/bin/zsh");
    assert_eq!(shell_to_run(None, Some("/bin/fish".into())), "/bin/fish");
    assert_eq!(shell_to_run(None, None), "/bin/sh");
}

#[test]
fn save_then_restore_returns_the_cursor() {
    let (_, g) = feed(b"\x1b[2;3H\x1b[sab\r\ncd\x1b[31m\x1b[?25l\x1b[u", 4, 6);
    assert_eq!((g.cursor_row, g.cursor_col), (1, 2));
    assert_eq!(g.to_string(), "      \n  ab  \ncd    \n      \n");
    assert_eq!(g.current_attrs.fg, Color::Red);
}
