use terminal_emulator::ansi::{AnsiCapabilities, Parser};
use terminal_emulator::terminal::screen_buffer::{Color, Grid};

#[test]
fn parses_utf8_and_csi() {
    let mut p = Parser::new(AnsiCapabilities::default());
    let mut g = Grid::new(5, 20);
    p.feed("hé".as_bytes(), &mut g);
    p.feed(b"\x1b[2;3H!", &mut g);
    assert_eq!(g.get(0, 0).expect("cell").ch, 'h');
    assert_eq!(g.get(0, 1).expect("cell").ch, 'é');
    assert_eq!(g.get(1, 2).expect("cell").ch, '!');
}

#[test]
fn sgr_bold_toggle() {
    let mut p = Parser::new(AnsiCapabilities::default());
    let mut g = Grid::new(5, 20);
    p.feed(b"\x1b[1mA\x1b[22mB", &mut g);
    // after ESC[22m bold should be off
    assert!(!g.current_attrs.bold);
}

#[test]
fn sgr_256_color() {
    let mut p = Parser::new(AnsiCapabilities::default());
    let mut g = Grid::new(5, 20);
    p.feed(b"\x1b[38;5;200m", &mut g);
    assert_eq!(g.current_attrs.fg, Color::Indexed(200));
}

#[test]
fn sgr_true_color() {
    let mut p = Parser::new(AnsiCapabilities::default());
    let mut g = Grid::new(5, 20);
    p.feed(b"\x1b[38;2;10;20;30m", &mut g);
    assert_eq!(g.current_attrs.fg, Color::Rgb(10, 20, 30));
}

#[test]
fn osc_title_stored() {
    let mut p = Parser::new(AnsiCapabilities::default());
    let mut g = Grid::new(5, 20);
    p.feed(b"\x1b]0;My Terminal\x07", &mut g);
    assert_eq!(p.osc_title.as_deref(), Some("My Terminal"));
}

#[test]
fn private_csi_does_not_corrupt_state() {
    let mut p = Parser::new(AnsiCapabilities::default());
    let mut g = Grid::new(5, 20);
    // ESC[?25l followed by plain text must still render
    p.feed(b"\x1b[?25lHello", &mut g);
    assert_eq!(g.get(0, 0).expect("cell").ch, 'H');
}

#[test]
fn utf8_buf_cleared_on_esc() {
    let mut p = Parser::new(AnsiCapabilities::default());
    let mut g = Grid::new(5, 20);
    // 0xC3 is the first byte of a 2-byte UTF-8 sequence; then ESC + plain text
    p.feed(&[0xC3, 0x1b, b'[', b'A', b'X'], &mut g);
    // Should not panic or leave garbage; X must render
    assert_eq!(g.get(0, 0).expect("cell").ch, 'X');
}
