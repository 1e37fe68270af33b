use terminal_emulator::terminal::screen_buffer::{Color, EraseMode, Grid};

#[test]
fn new_grid_is_blank() {
    let g = Grid::new(4, 8);
    for row in 0..4 {
        for col in 0..8 {
            let cell = g.get(row, col).unwrap();
            assert_eq!(cell.ch, ' ');
            assert!(!cell.dirty, "new cell should not be dirty");
        }
    }
}

#[test]
fn write_char_sets_cell_and_advances_cursor() {
    let mut g = Grid::new(4, 8);
    g.write_char('A');
    assert_eq!(g.get(0, 0).unwrap().ch, 'A');
    assert!(g.get(0, 0).unwrap().dirty);
    assert_eq!(g.cursor_col, 1);
    assert_eq!(g.cursor_row, 0);
}

#[test]
fn write_char_wraps_at_end_of_line() {
    let mut g = Grid::new(4, 4);
    for _ in 0..4 {
        g.write_char('x');
    }
    assert_eq!(g.cursor_row, 1);
    assert_eq!(g.cursor_col, 0);
}

#[test]
fn write_char_scrolls_when_past_last_row() {
    let mut g = Grid::new(2, 2);
    for ch in ['a', 'b', 'c', 'd'] {
        g.write_char(ch);
    }
    g.write_char('e');
    assert_eq!(g.cursor_row, 1);
    assert_eq!(g.get(0, 0).unwrap().ch, 'c');
}

#[test]
fn clear_dirty_resets_all_flags() {
    let mut g = Grid::new(4, 8);
    g.write_char('Z');
    assert!(g.dirty_cells().len() > 0);
    g.clear_dirty();
    assert_eq!(g.dirty_cells().len(), 0);
}

#[test]
fn scroll_up_moves_rows() {
    let mut g = Grid::new(3, 3);
    g.move_cursor(1, 0);
    g.write_char('X');
    g.scroll_up(1);
    assert_eq!(g.get(0, 0).unwrap().ch, 'X');
    assert_eq!(g.get(2, 0).unwrap().ch, ' ');
}

#[test]
fn scroll_up_pushes_rows_into_scrollback() {
    let mut g = Grid::new(2, 3);
    for ch in ['a', 'b', 'c', 'd', 'e', 'f'] {
        g.write_char(ch);
    }
    g.scroll_up(1);
    assert_eq!(g.scrollback.len(), 1);
}

#[test]
fn erase_line_to_end() {
    let mut g = Grid::new(3, 5);
    for ch in ['a', 'b', 'c', 'd', 'e'] {
        g.write_char(ch);
    }
    g.move_cursor(0, 2);
    g.erase_line(EraseMode::ToEnd);
    assert_eq!(g.get(0, 0).unwrap().ch, 'a');
    assert_eq!(g.get(0, 1).unwrap().ch, 'b');
    for c in 2..5 {
        assert_eq!(g.get(0, c).unwrap().ch, ' ', "col {c} should be blank");
    }
}

#[test]
fn erase_line_preserves_current_bg() {
    let mut g = Grid::new(3, 5);
    g.current_attrs.bg = Color::Red;
    g.erase_line(EraseMode::All);
    for c in 0..5 {
        assert_eq!(g.get(0, c).unwrap().attrs.bg, Color::Red);
    }
}

#[test]
fn clear_homes_cursor() {
    let mut g = Grid::new(3, 5);
    g.move_cursor(2, 4);
    g.clear();
    assert_eq!(g.cursor_row, 0);
    assert_eq!(g.cursor_col, 0);
}

#[test]
fn move_cursor_clamps_to_bounds() {
    let mut g = Grid::new(4, 8);
    g.move_cursor(100, 100);
    assert_eq!(g.cursor_row, 3);
    assert_eq!(g.cursor_col, 7);
}

#[test]
fn move_cursor_relative_clamps() {
    let mut g = Grid::new(4, 8);
    g.move_cursor_relative(-999, -999);
    assert_eq!(g.cursor_row, 0);
    assert_eq!(g.cursor_col, 0);
}

#[test]
fn resize_preserves_content_in_overlap() {
    let mut g = Grid::new(4, 8);
    g.write_char('Q');
    g.resize(10, 20);
    assert_eq!(g.get(0, 0).unwrap().ch, 'Q', "content should survive resize");
}

#[test]
fn resize_clamps_cursor() {
    let mut g = Grid::new(10, 10);
    g.move_cursor(9, 9);
    g.resize(4, 4);
    assert_eq!(g.cursor_row, 3);
    assert_eq!(g.cursor_col, 3);
}

#[test]
fn get_out_of_bounds_returns_none() {
    let g = Grid::new(4, 8);
    assert!(g.get(4, 0).is_none());
    assert!(g.get(0, 8).is_none());
    assert!(g.get(99, 99).is_none());
}
