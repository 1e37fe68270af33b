use terminal_emulator::input::key::{KeyCode, KeyEvent, KeyModifiers};
use terminal_emulator::input::bytes::encode_key as plain_encode;
use terminal_emulator::input::keyboard::{encode_key, InputMode};

fn key(code: KeyCode) -> KeyEvent {
    KeyEvent::new(code, KeyModifiers::empty())
}
fn ctrl(c: char) -> KeyEvent {
    KeyEvent::new(KeyCode::Char(c), KeyModifiers::control())
}
fn normal() -> InputMode {
    InputMode { application_cursor_keys: false }
}
fn app() -> InputMode {
    InputMode { application_cursor_keys: true }
}

#[test]
fn arrow_keys_normal_mode() {
    assert_eq!(encode_key(key(KeyCode::Up), normal()), Some(vec![0x1b, b'[', b'A']));
    assert_eq!(encode_key(key(KeyCode::Down), normal()), Some(vec![0x1b, b'[', b'B']));
    assert_eq!(encode_key(key(KeyCode::Right), normal()), Some(vec![0x1b, b'[', b'C']));
    assert_eq!(encode_key(key(KeyCode::Left), normal()), Some(vec![0x1b, b'[', b'D']));
}

#[test]
fn arrow_keys_application_mode() {
    assert_eq!(encode_key(key(KeyCode::Up), app()), Some(vec![0x1b, b'O', b'A']));
    assert_eq!(encode_key(key(KeyCode::Down), app()), Some(vec![0x1b, b'O', b'B']));
    assert_eq!(encode_key(key(KeyCode::Right), app()), Some(vec![0x1b, b'O', b'C']));
    assert_eq!(encode_key(key(KeyCode::Left), app()), Some(vec![0x1b, b'O', b'D']));
}

#[test]
fn missing_keys_encoded() {
    assert_eq!(encode_key(key(KeyCode::Home), normal()), Some(vec![0x1b, b'[', b'H']));
    assert_eq!(encode_key(key(KeyCode::End), normal()), Some(vec![0x1b, b'[', b'F']));
    assert_eq!(encode_key(key(KeyCode::Delete), normal()), Some(vec![0x1b, b'[', b'3', b'~']));
    assert_eq!(encode_key(key(KeyCode::PageUp), normal()), Some(vec![0x1b, b'[', b'5', b'~']));
    assert_eq!(
        encode_key(key(KeyCode::PageDown), normal()),
        Some(vec![0x1b, b'[', b'6', b'~'])
    );
}

#[test]
fn f_keys_encoded() {
    assert_eq!(encode_key(key(KeyCode::F(1)), normal()), Some(vec![0x1b, b'O', b'P']));
    assert_eq!(
        encode_key(key(KeyCode::F(5)), normal()),
        Some(vec![0x1b, b'[', b'1', b'5', b'~'])
    );
    assert_eq!(
        encode_key(key(KeyCode::F(12)), normal()),
        Some(vec![0x1b, b'[', b'2', b'4', b'~'])
    );
}

#[test]
fn ctrl_keys_encoded() {
    assert_eq!(encode_key(ctrl('c'), normal()), Some(vec![3]));
    assert_eq!(encode_key(ctrl('a'), normal()), Some(vec![1]));
}

#[test]
fn basic_keys() {
    assert_eq!(encode_key(key(KeyCode::Enter), normal()), Some(vec![b'\r']));
    assert_eq!(encode_key(key(KeyCode::Tab), normal()), Some(vec![b'\t']));
    assert_eq!(encode_key(key(KeyCode::Backspace), normal()), Some(vec![0x7f]));
    assert_eq!(encode_key(key(KeyCode::Esc), normal()), Some(vec![0x1b]));
}

#[test]
fn ctrl_uppercase_letter_matches_lowercase() {
    assert_eq!(encode_key(ctrl('Z'), normal()), Some(vec![26]));
    assert_eq!(encode_key(ctrl('z'), app()), Some(vec![26]));
}

#[test]
fn ctrl_non_letter_sends_the_character() {
    assert_eq!(encode_key(ctrl('1'), normal()), Some(vec![b'1']));
}

#[test]
fn text_keys_send_utf8() {
    assert_eq!(encode_key(key(KeyCode::Char('é')), normal()), Some(vec![0xc3, 0xa9]));
    assert_eq!(encode_key(key(KeyCode::Char('日')), normal()), Some(vec![0xe6, 0x97, 0xa5]));
    assert_eq!(encode_key(key(KeyCode::Char('😀')), normal()), Some(vec![0xf0, 0x9f, 0x98, 0x80]));
}

#[test]
fn unknown_keys_send_nothing() {
    assert_eq!(encode_key(key(KeyCode::F(13)), normal()), None);
    assert_eq!(encode_key(key(KeyCode::F(0)), normal()), None);
    assert_eq!(encode_key(key(KeyCode::Insert), normal()), None);
    assert_eq!(encode_key(key(KeyCode::Other), app()), None);
}

#[test]
fn mode_changes_only_arrow_keys() {
    for code in [KeyCode::Home, KeyCode::End, KeyCode::Enter, KeyCode::F(3), KeyCode::Char('q')] {
        assert_eq!(encode_key(key(code), normal()), encode_key(key(code), app()));
    }
}

#[test]
fn plain_encoding_matches_normal_mode() {
    for code in [KeyCode::Up, KeyCode::Left, KeyCode::PageDown, KeyCode::Backspace, KeyCode::Char('x')] {
        assert_eq!(plain_encode(key(code)), encode_key(key(code), normal()));
    }
    assert_eq!(plain_encode(ctrl('c')), Some(vec![3]));
    assert_eq!(plain_encode(key(KeyCode::F(1))), None);
}
