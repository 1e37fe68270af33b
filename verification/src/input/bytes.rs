//! Key encoding without terminal modes: the byte chunks forwarded to the PTY.

use vstd::prelude::*;
use crate::input::key::{KeyCode, KeyEvent, char_key, char_key_bytes};

verus! {

/// One input event after encoding: the raw bytes to write to the PTY.
pub struct InputBytes(pub Vec<u8>);

/// The bytes a key press sends: text as UTF-8 (Ctrl+letter as its control
/// byte), and the VT sequences of Enter, Tab, Backspace, Escape, the arrow
/// keys (CSI form), Home, End, PageUp, PageDown and Delete. Other keys send
/// nothing.
pub open spec fn plain_key_sequence(ev: KeyEvent) -> Option<Seq<u8>> {
    match ev.code {
        KeyCode::Char(c) => Some(char_key_bytes(c, ev.modifiers.control)),
        KeyCode::Enter => Some(seq![0x0du8]),
        KeyCode::Tab => Some(seq![0x09u8]),
        KeyCode::Backspace => Some(seq![0x7fu8]),
        KeyCode::Esc => Some(seq![0x1bu8]),
        KeyCode::Up => Some(seq![0x1bu8, 0x5b, 0x41]),
        KeyCode::Down => Some(seq![0x1bu8, 0x5b, 0x42]),
        KeyCode::Right => Some(seq![0x1bu8, 0x5b, 0x43]),
        KeyCode::Left => Some(seq![0x1bu8, 0x5b, 0x44]),
        KeyCode::Home => Some(seq![0x1bu8, 0x5b, 0x48]),
        KeyCode::End => Some(seq![0x1bu8, 0x5b, 0x46]),
        KeyCode::PageUp => Some(seq![0x1bu8, 0x5b, 0x35, 0x7e]),
        KeyCode::PageDown => Some(seq![0x1bu8, 0x5b, 0x36, 0x7e]),
        KeyCode::Delete => Some(seq![0x1bu8, 0x5b, 0x33, 0x7e]),
        _ => None,
    }
}

/// Translate a key press into the byte sequence that bash expects on its
/// stdin (shells expect CR for Enter, DEL for Backspace).
pub fn encode_key(ev: KeyEvent) -> (r: Option<Vec<u8>>)
    ensures
        (r is Some) == (plain_key_sequence(ev) is Some),
        r matches Some(v) ==> v@ == plain_key_sequence(ev)->Some_0,
{
    match ev.code {
        KeyCode::Char(c) => Some(char_key(c, ev.modifiers.control)),
        KeyCode::Enter => Some(vec![0x0d]),
        KeyCode::Tab => Some(vec![0x09]),
        KeyCode::Backspace => Some(vec![0x7f]),
        KeyCode::Esc => Some(vec![0x1b]),
        KeyCode::Up => Some(vec![0x1b, 0x5b, 0x41]),
        KeyCode::Down => Some(vec![0x1b, 0x5b, 0x42]),
        KeyCode::Right => Some(vec![0x1b, 0x5b, 0x43]),
        KeyCode::Left => Some(vec![0x1b, 0x5b, 0x44]),
        KeyCode::Home => Some(vec![0x1b, 0x5b, 0x48]),
        KeyCode::End => Some(vec![0x1b, 0x5b, 0x46]),
        KeyCode::PageUp => Some(vec![0x1b, 0x5b, 0x35, 0x7e]),
        KeyCode::PageDown => Some(vec![0x1b, 0x5b, 0x36, 0x7e]),
        KeyCode::Delete => Some(vec![0x1b, 0x5b, 0x33, 0x7e]),
        _ => None,
    }
}

} // verus!
