use terminal_emulator::terminal::renderer::{render_commands, DrawCommand, StyleAttribute};
use terminal_emulator::terminal::screen_buffer::{Color, Grid};

fn prints(cmds: &[DrawCommand], ch: char) -> bool {
    cmds.iter().any(|c| *c == DrawCommand::Print(ch))
}

fn has(cmds: &[DrawCommand], cmd: DrawCommand) -> bool {
    cmds.iter().any(|c| *c == cmd)
}

/// Commands that change a color or an attribute.
fn style_changes(cmds: &[DrawCommand]) -> usize {
    cmds.iter()
        .filter(|c| {
            matches!(
                c,
                DrawCommand::SetForeground(_) | DrawCommand::SetBackground(_) | DrawCommand::SetAttribute(_)
            )
        })
        .count()
}

#[test]
fn renders_dirty_cells() {
    let mut grid = Grid::new(3, 10);
    grid.write_char('A');
    grid.write_char('B');
    let cmds = render_commands(&grid);
    assert!(prints(&cmds, 'A'), "expected 'A' in output");
    assert!(prints(&cmds, 'B'), "expected 'B' in output");
}

#[test]
fn skips_clean_cells_after_mark_clean() {
    let mut grid = Grid::new(3, 10);
    grid.write_char('X');
    // Mark everything clean, then render: only the cursor MoveTo should appear.
    grid.clear_dirty();
    let cmds = render_commands(&grid);
    assert!(!prints(&cmds, 'X'), "clean cell 'X' should not be re-rendered");
}

#[test]
fn bold_attribute_emitted() {
    let mut grid = Grid::new(3, 10);
    grid.current_attrs.bold = true;
    grid.write_char('B');
    let cmds = render_commands(&grid);
    assert!(has(&cmds, DrawCommand::SetAttribute(StyleAttribute::Bold)), "expected escape sequence for bold");
    assert!(prints(&cmds, 'B'));
}

#[test]
fn italic_attribute_emitted() {
    let mut grid = Grid::new(3, 10);
    grid.current_attrs.italic = true;
    grid.write_char('I');
    let cmds = render_commands(&grid);
    assert!(has(&cmds, DrawCommand::SetAttribute(StyleAttribute::Italic)), "expected escape sequence for italic");
    assert!(prints(&cmds, 'I'));
}

#[test]
fn underline_attribute_emitted() {
    let mut grid = Grid::new(3, 10);
    grid.current_attrs.underline = true;
    grid.write_char('U');
    let cmds = render_commands(&grid);
    assert!(
        has(&cmds, DrawCommand::SetAttribute(StyleAttribute::Underlined)),
        "expected escape sequence for underline"
    );
    assert!(prints(&cmds, 'U'));
}

#[test]
fn blink_attribute_emitted() {
    let mut grid = Grid::new(3, 10);
    grid.current_attrs.blink = true;
    grid.write_char('K');
    let cmds = render_commands(&grid);
    assert!(has(&cmds, DrawCommand::SetAttribute(StyleAttribute::SlowBlink)), "expected escape sequence for blink");
    assert!(prints(&cmds, 'K'));
}

#[test]
fn reverse_attribute_emitted() {
    let mut grid = Grid::new(3, 10);
    grid.current_attrs.reverse = true;
    grid.write_char('R');
    let cmds = render_commands(&grid);
    assert!(has(&cmds, DrawCommand::SetAttribute(StyleAttribute::Reverse)), "expected escape sequence for reverse");
    assert!(prints(&cmds, 'R'));
}

#[test]
fn attribute_off_emitted_on_transition() {
    // One bold cell, then one non-bold cell: NormalIntensity between them.
    let mut grid = Grid::new(3, 20);
    grid.current_attrs.bold = true;
    grid.write_char('B');
    grid.current_attrs.bold = false;
    grid.write_char('N');
    let cmds = render_commands(&grid);
    assert!(prints(&cmds, 'B'));
    assert!(prints(&cmds, 'N'));
    let count = style_changes(&cmds);
    assert!(count >= 2, "expected at least 2 SGR sequences, got {}", count);
    assert!(has(&cmds, DrawCommand::SetAttribute(StyleAttribute::NormalIntensity)));
}

#[test]
fn fg_color_change_emitted() {
    let mut grid = Grid::new(3, 20);
    grid.current_attrs.fg = Color::Red;
    grid.write_char('R');
    grid.current_attrs.fg = Color::Blue;
    grid.write_char('B');
    let cmds = render_commands(&grid);
    assert!(prints(&cmds, 'R'));
    assert!(prints(&cmds, 'B'));
    assert!(style_changes(&cmds) >= 2);
    assert!(has(&cmds, DrawCommand::SetForeground(Color::Red)));
    assert!(has(&cmds, DrawCommand::SetForeground(Color::Blue)));
}

#[test]
fn adjacent_cells_share_one_cursor_move() {
    let mut grid = Grid::new(2, 5);
    grid.write_char('a');
    grid.write_char('b');
    let cmds = render_commands(&grid);
    let first = vec![
        DrawCommand::MoveTo(0, 0),
        DrawCommand::SetForeground(Color::Default),
        DrawCommand::SetBackground(Color::Default),
        DrawCommand::SetAttribute(StyleAttribute::NormalIntensity),
        DrawCommand::SetAttribute(StyleAttribute::NoItalic),
        DrawCommand::SetAttribute(StyleAttribute::NoUnderline),
        DrawCommand::SetAttribute(StyleAttribute::NoBlink),
        DrawCommand::SetAttribute(StyleAttribute::NoReverse),
        DrawCommand::Print('a'),
        DrawCommand::Print('b'),
        DrawCommand::MoveTo(2, 0),
    ];
    assert_eq!(cmds, first);
}

#[test]
fn clean_frame_only_places_cursor() {
    let mut grid = Grid::new(3, 4);
    grid.write_char('x');
    grid.move_cursor(2, 3);
    grid.clear_dirty();
    assert_eq!(render_commands(&grid), vec![DrawCommand::MoveTo(3, 2)]);
}

#[test]
fn wide_character_drawn_once() {
    let mut grid = Grid::new(2, 6);
    grid.write_char('日');
    let cmds = render_commands(&grid);
    let printed: Vec<char> = cmds
        .iter()
        .filter_map(|c| match c {
            DrawCommand::Print(ch) => Some(*ch),
            _ => None,
        })
        .collect();
    assert_eq!(printed, vec!['日']);
}

#[test]
fn frame_prints_dirty_cells_in_screen_order() {
    let mut grid = Grid::new(3, 4);
    grid.move_cursor(2, 1);
    grid.write_char('z');
    grid.move_cursor(0, 2);
    grid.write_char('y');
    let cmds = render_commands(&grid);
    let printed: Vec<char> = cmds
        .iter()
        .filter_map(|c| match c {
            DrawCommand::Print(ch) => Some(*ch),
            _ => None,
        })
        .collect();
    assert_eq!(printed, vec!['y', 'z']);
    assert!(has(&cmds, DrawCommand::MoveTo(2, 0)));
    assert!(has(&cmds, DrawCommand::MoveTo(1, 2)));
    assert_eq!(cmds.last(), Some(&DrawCommand::MoveTo(3, 0)));
}
