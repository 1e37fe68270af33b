//! Key encoding with terminal modes, and the events the input side reports.

use vstd::prelude::*;
use crate::input::bytes::plain_key_sequence;
use crate::input::key::{KeyCode, KeyEvent, char_key, char_key_bytes};

verus! {

/// What the input side reports: bytes to forward to the shell, or a new
/// terminal size (columns, rows).
pub enum InputEvent {
    Bytes(Vec<u8>),
    Resize(u16, u16),
}

/// An event from the host terminal, as the input side sees it: a key press,
/// a new size (columns, rows), or anything else (focus, mouse, paste).
#[derive(Debug, Clone, Copy, PartialEq, Eq, Structural)]
pub enum TerminalEvent {
    Key(KeyEvent),
    Resize(u16, u16),
    Other,
}

/// Modes that change how keys are encoded.
#[derive(Debug, Clone, Copy, Default, PartialEq, Eq, Structural)]
pub struct InputMode {
    /// Application cursor key mode: arrow keys send SS3 sequences (`ESC O A`
    /// .. `ESC O D`) instead of CSI sequences (`ESC [ A` .. `ESC [ D`).
    pub application_cursor_keys: bool,
}

/// The sequence for an arrow key whose final byte is `last`, in the given
/// mode.
pub open spec fn arrow(last: u8, mode: InputMode) -> Seq<u8> {
    if mode.application_cursor_keys {
        seq![0x1b, 0x4f, last]
    } else {
        seq![0x1b, 0x5b, last]
    }
}

/// The sequence for function key `F(n)`, for F1..=F12.
pub open spec fn function_key(n: u8) -> Option<Seq<u8>> {
    if n == 1 {
        Some(seq![0x1bu8, 0x4f, 0x50])  // ESC O P
    } else if n == 2 {
        Some(seq![0x1bu8, 0x4f, 0x51])  // ESC O Q
    } else if n == 3 {
        Some(seq![0x1bu8, 0x4f, 0x52])  // ESC O R
    } else if n == 4 {
        Some(seq![0x1bu8, 0x4f, 0x53])  // ESC O S
    } else if n == 5 {
        Some(seq![0x1bu8, 0x5b, 0x31, 0x35, 0x7e])  // ESC [ 1 5 ~
    } else if n == 6 {
        Some(seq![0x1bu8, 0x5b, 0x31, 0x37, 0x7e])  // ESC [ 1 7 ~
    } else if n == 7 {
        Some(seq![0x1bu8, 0x5b, 0x31, 0x38, 0x7e])  // ESC [ 1 8 ~
    } else if n == 8 {
        Some(seq![0x1bu8, 0x5b, 0x31, 0x39, 0x7e])  // ESC [ 1 9 ~
    } else if n == 9 {
        Some(seq![0x1bu8, 0x5b, 0x32, 0x30, 0x7e])  // ESC [ 2 0 ~
    } else if n == 10 {
        Some(seq![0x1bu8, 0x5b, 0x32, 0x31, 0x7e])  // ESC [ 2 1 ~
    } else if n == 11 {
        Some(seq![0x1bu8, 0x5b, 0x32, 0x33, 0x7e])  // ESC [ 2 3 ~
    } else if n == 12 {
        Some(seq![0x1bu8, 0x5b, 0x32, 0x34, 0x7e])  // ESC [ 2 4 ~
    } else {
        None
    }
}

/// The bytes a key press sends to the shell in the given mode, or `None` for
/// a key that sends nothing.
pub open spec fn key_sequence(ev: KeyEvent, mode: InputMode) -> Option<Seq<u8>> {
    match ev.code {
        KeyCode::Char(c) => Some(char_key_bytes(c, ev.modifiers.control)),
        KeyCode::Enter => Some(seq![0x0du8]),
        KeyCode::Tab => Some(seq![0x09u8]),
        KeyCode::Backspace => Some(seq![0x7fu8]),
        KeyCode::Esc => Some(seq![0x1bu8]),
        KeyCode::Up => Some(arrow(0x41, mode)),
        KeyCode::Down => Some(arrow(0x42, mode)),
        KeyCode::Right => Some(arrow(0x43, mode)),
        KeyCode::Left => Some(arrow(0x44, mode)),
        KeyCode::Home => Some(seq![0x1bu8, 0x5b, 0x48]),
        KeyCode::End => Some(seq![0x1bu8, 0x5b, 0x46]),
        KeyCode::Delete => Some(seq![0x1bu8, 0x5b, 0x33, 0x7e]),
        KeyCode::PageUp => Some(seq![0x1bu8, 0x5b, 0x35, 0x7e]),
        KeyCode::PageDown => Some(seq![0x1bu8, 0x5b, 0x36, 0x7e]),
        KeyCode::F(n) => function_key(n),
        _ => None,
    }
}

/// Translates a key press into the byte sequence the shell expects: text as
/// UTF-8, Ctrl+letter as its control byte, Enter as CR, Backspace as DEL,
/// cursor keys as CSI (or, in application cursor key mode, SS3) sequences,
/// and the editing and function keys as their VT sequences.
pub fn encode_key(ev: KeyEvent, mode: InputMode) -> (r: Option<Vec<u8>>)
    ensures
        (r is Some) == (key_sequence(ev, mode) is Some),
        r matches Some(v) ==> v@ == key_sequence(ev, mode)->Some_0,
{
    let app = mode.application_cursor_keys;
    match ev.code {
        KeyCode::Char(c) => Some(char_key(c, ev.modifiers.control)),
        KeyCode::Enter => Some(vec![0x0d]),
        KeyCode::Tab => Some(vec![0x09]),
        KeyCode::Backspace => Some(vec![0x7f]),
        KeyCode::Esc => Some(vec![0x1b]),
        KeyCode::Up => Some(if app { vec![0x1b, 0x4f, 0x41] } else { vec![0x1b, 0x5b, 0x41] }),
        KeyCode::Down => Some(if app { vec![0x1b, 0x4f, 0x42] } else { vec![0x1b, 0x5b, 0x42] }),
        KeyCode::Right => Some(if app { vec![0x1b, 0x4f, 0x43] } else { vec![0x1b, 0x5b, 0x43] }),
        KeyCode::Left => Some(if app { vec![0x1b, 0x4f, 0x44] } else { vec![0x1b, 0x5b, 0x44] }),
        KeyCode::Home => Some(vec![0x1b, 0x5b, 0x48]),
        KeyCode::End => Some(vec![0x1b, 0x5b, 0x46]),
        KeyCode::Delete => Some(vec![0x1b, 0x5b, 0x33, 0x7e]),
        KeyCode::PageUp => Some(vec![0x1b, 0x5b, 0x35, 0x7e]),
        KeyCode::PageDown => Some(vec![0x1b, 0x5b, 0x36, 0x7e]),
        KeyCode::F(1) => Some(vec![0x1b, 0x4f, 0x50]),
        KeyCode::F(2) => Some(vec![0x1b, 0x4f, 0x51]),
        KeyCode::F(3) => Some(vec![0x1b, 0x4f, 0x52]),
        KeyCode::F(4) => Some(vec![0x1b, 0x4f, 0x53]),
        KeyCode::F(5) => Some(vec![0x1b, 0x5b, 0x31, 0x35, 0x7e]),
        KeyCode::F(6) => Some(vec![0x1b, 0x5b, 0x31, 0x37, 0x7e]),
        KeyCode::F(7) => Some(vec![0x1b, 0x5b, 0x31, 0x38, 0x7e]),
        KeyCode::F(8) => Some(vec![0x1b, 0x5b, 0x31, 0x39, 0x7e]),
        KeyCode::F(9) => Some(vec![0x1b, 0x5b, 0x32, 0x30, 0x7e]),
        KeyCode::F(10) => Some(vec![0x1b, 0x5b, 0x32, 0x31, 0x7e]),
        KeyCode::F(11) => Some(vec![0x1b, 0x5b, 0x32, 0x33, 0x7e]),
        KeyCode::F(12) => Some(vec![0x1b, 0x5b, 0x32, 0x34, 0x7e]),
        _ => None,
    }
}

/// What the input side reports for a host terminal event: the bytes of a
/// key that sends any, a resize as it came; nothing for other events.
pub fn input_event_for(ev: TerminalEvent, mode: InputMode) -> (r: Option<InputEvent>)
    ensures
        match ev {
            TerminalEvent::Key(k) => match key_sequence(k, mode) {
                Some(seq) => r matches Some(InputEvent::Bytes(v)) && v@ == seq,
                None => r is None,
            },
            TerminalEvent::Resize(c, rw) => r == Some(InputEvent::Resize(c, rw)),
            TerminalEvent::Other => r is None,
        },
{
    match ev {
        TerminalEvent::Key(k) => match encode_key(k, mode) {
            Some(v) => Some(InputEvent::Bytes(v)),
            None => None,
        },
        TerminalEvent::Resize(c, rw) => Some(InputEvent::Resize(c, rw)),
        TerminalEvent::Other => None,
    }
}

/// Law: the cursor key mode changes only the arrow keys; every other key
/// sends the same bytes in both modes.
pub proof fn lemma_mode_affects_only_arrows(ev: KeyEvent, m1: InputMode, m2: InputMode)
    requires
        !(ev.code is Up || ev.code is Down || ev.code is Left || ev.code is Right),
    ensures
        key_sequence(ev, m1) == key_sequence(ev, m2),
{
}

/// Law: in normal cursor key mode, every key but the function keys sends
/// what the mode-less encoding sends.
pub proof fn lemma_normal_mode_matches_plain(ev: KeyEvent)
    requires
        !(ev.code is F),
    ensures
        key_sequence(ev, InputMode { application_cursor_keys: false }) == plain_key_sequence(ev),
{
}

/// Law: Ctrl with an ASCII letter sends exactly one byte, 1 for A up to 26
/// for Z, whatever the letter's case and the mode.
pub proof fn lemma_ctrl_letter_single_byte(c: char, mode: InputMode, ev: KeyEvent)
    requires
        ev.code == KeyCode::Char(c),
        ev.modifiers.control,
        ('a' <= c <= 'z') || ('A' <= c <= 'Z'),
    ensures
        key_sequence(ev, mode) matches Some(s) && s.len() == 1 && 1 <= s[0] <= 26,
        ('a' <= c <= 'z') ==> key_sequence(ev, mode) == Some(seq![(c as u32 - 0x60) as u8]),
{
}

/// `ESC [ code ~` for a two-digit decimal `code`: the VT220 form of the
/// editing and higher function keys.
pub open spec fn csi_tilde(code: int) -> Seq<u8> {
    seq![0x1bu8, 0x5bu8, (0x30 + code / 10) as u8, (0x30 + code % 10) as u8, 0x7eu8]
}

/// `ESC O final`: the SS3 form that F1–F4 send.
pub open spec fn ss3(last: char) -> Seq<u8> {
    seq![0x1bu8, 0x4fu8, last as u8]
}

/// Law: every function key sends its xterm sequence, whatever the modifiers
/// and the cursor key mode: F1–F4 send `ESC O P` .. `ESC O S`, and F5–F12
/// send `ESC [ n ~` with n = 15, 17, 18, 19, 20, 21, 23, 24 (16 and 22 are
/// skipped, as on the VT220). No other function key sends anything.
pub proof fn lemma_function_keys(ev: KeyEvent, mode: InputMode, n: u8)
    requires
        ev.code == KeyCode::F(n),
    ensures
        n == 1 ==> key_sequence(ev, mode) == Some(ss3('P')),
        n == 2 ==> key_sequence(ev, mode) == Some(ss3('Q')),
        n == 3 ==> key_sequence(ev, mode) == Some(ss3('R')),
        n == 4 ==> key_sequence(ev, mode) == Some(ss3('S')),
        n == 5 ==> key_sequence(ev, mode) == Some(csi_tilde(15)),
        n == 6 ==> key_sequence(ev, mode) == Some(csi_tilde(17)),
        n == 7 ==> key_sequence(ev, mode) == Some(csi_tilde(18)),
        n == 8 ==> key_sequence(ev, mode) == Some(csi_tilde(19)),
        n == 9 ==> key_sequence(ev, mode) == Some(csi_tilde(20)),
        n == 10 ==> key_sequence(ev, mode) == Some(csi_tilde(21)),
        n == 11 ==> key_sequence(ev, mode) == Some(csi_tilde(23)),
        n == 12 ==> key_sequence(ev, mode) == Some(csi_tilde(24)),
        (n == 0 || n > 12) ==> key_sequence(ev, mode) is None,
{
    assert(csi_tilde(15) =~= seq![0x1bu8, 0x5b, 0x31, 0x35, 0x7e]);
    assert(csi_tilde(17) =~= seq![0x1bu8, 0x5b, 0x31, 0x37, 0x7e]);
    assert(csi_tilde(18) =~= seq![0x1bu8, 0x5b, 0x31, 0x38, 0x7e]);
    assert(csi_tilde(19) =~= seq![0x1bu8, 0x5b, 0x31, 0x39, 0x7e]);
    assert(csi_tilde(20) =~= seq![0x1bu8, 0x5b, 0x32, 0x30, 0x7e]);
    assert(csi_tilde(21) =~= seq![0x1bu8, 0x5b, 0x32, 0x31, 0x7e]);
    assert(csi_tilde(23) =~= seq![0x1bu8, 0x5b, 0x32, 0x33, 0x7e]);
    assert(csi_tilde(24) =~= seq![0x1bu8, 0x5b, 0x32, 0x34, 0x7e]);
    assert(ss3('P') =~= seq![0x1bu8, 0x4f, 0x50]);
    assert(ss3('Q') =~= seq![0x1bu8, 0x4f, 0x51]);
    assert(ss3('R') =~= seq![0x1bu8, 0x4f, 0x52]);
    assert(ss3('S') =~= seq![0x1bu8, 0x4f, 0x53]);
}

} // verus!
