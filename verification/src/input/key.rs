//! Key events as the terminal sees them: a key code and its modifiers.

use vstd::prelude::*;
use vstd::utf8::encode_scalar;

verus! {

/// A key on the keyboard.
#[derive(Debug, Clone, Copy, PartialEq, Eq, Structural)]
pub enum KeyCode {
    Backspace,
    Enter,
    Left,
    Right,
    Up,
    Down,
    Home,
    End,
    PageUp,
    PageDown,
    Tab,
    BackTab,
    Delete,
    Insert,
    /// Function key `F(n)`.
    F(u8),
    /// A character key.
    Char(char),
    Null,
    Esc,
    /// Any other key (lock keys, media keys, bare modifiers, ...).
    Other,
}

/// Modifier keys held down with a key.
#[derive(Debug, Clone, Copy, PartialEq, Eq, Structural)]
pub struct KeyModifiers {
    pub shift: bool,
    pub control: bool,
    pub alt: bool,
    pub super_key: bool,
    pub hyper: bool,
    pub meta: bool,
}

impl KeyModifiers {
    /// No modifier held.
    pub fn empty() -> (m: Self)
        ensures
            !m.shift && !m.control && !m.alt && !m.super_key && !m.hyper && !m.meta,
    {
        KeyModifiers { shift: false, control: false, alt: false, super_key: false, hyper: false, meta: false }
    }

    /// Only Control held.
    pub fn control() -> (m: Self)
        ensures
            !m.shift && m.control && !m.alt && !m.super_key && !m.hyper && !m.meta,
    {
        KeyModifiers { shift: false, control: true, alt: false, super_key: false, hyper: false, meta: false }
    }
}

/// A key press.
#[derive(Debug, Clone, Copy, PartialEq, Eq, Structural)]
pub struct KeyEvent {
    pub code: KeyCode,
    pub modifiers: KeyModifiers,
}

impl KeyEvent {
    pub fn new(code: KeyCode, modifiers: KeyModifiers) -> (e: Self)
        ensures
            e.code == code,
            e.modifiers == modifiers,
    {
        KeyEvent { code, modifiers }
    }
}

/// The control byte that Ctrl+`c` sends: `c` must be an ASCII letter (either
/// case), which maps to 1..=26 (Ctrl+A = 0x01).
pub open spec fn control_byte(c: char) -> Option<u8> {
    if 'a' <= c <= 'z' {
        Some((c as u32 - 0x60) as u8)
    } else if 'A' <= c <= 'Z' {
        Some((c as u32 - 0x40) as u8)
    } else {
        None
    }
}

/// The character sent as text: its UTF-8 encoding.
pub open spec fn char_bytes(c: char) -> Seq<u8> {
    encode_scalar(c as u32)
}

/// The bytes of a character key: its control byte when Control is held and
/// it is a letter, its UTF-8 encoding otherwise.
pub open spec fn char_key_bytes(c: char, control: bool) -> Seq<u8> {
    if control && control_byte(c) is Some {
        seq![control_byte(c)->Some_0]
    } else {
        char_bytes(c)
    }
}

/// The control byte for Ctrl+`c`: the letter is lowered to ASCII lowercase
/// and counted from `a` = 1.
pub(crate) fn control_byte_of(c: char) -> (r: Option<u8>)
    ensures
        r == control_byte(c),
{
    let lower = if 'A' <= c && c <= 'Z' {
        ((c as u8) + 32) as char
    } else {
        c
    };
    if 'a' <= lower && lower <= 'z' {
        Some((lower as u8) - 0x61 + 1)
    } else {
        None
    }
}

/// The UTF-8 encoding of `c`.
pub(crate) fn utf8_of(c: char) -> (v: Vec<u8>)
    ensures
        v@ == char_bytes(c),
{
    let x = c as u32;
    if x <= 0x7f {
        vec![(x & 0x7f) as u8]
    } else if x <= 0x7ff {
        vec![0xc0 | ((x >> 6) & 0x1f) as u8, 0x80 | (x & 0x3f) as u8]
    } else if x <= 0xffff {
        vec![0xe0 | ((x >> 12) & 0x0f) as u8, 0x80 | ((x >> 6) & 0x3f) as u8, 0x80 | (x & 0x3f) as u8]
    } else {
        vec![
            0xf0 | ((x >> 18) & 0x7) as u8,
            0x80 | ((x >> 12) & 0x3f) as u8,
            0x80 | ((x >> 6) & 0x3f) as u8,
            0x80 | (x & 0x3f) as u8,
        ]
    }
}

/// The bytes of a character key (see `char_key_bytes`).
pub(crate) fn char_key(c: char, control: bool) -> (v: Vec<u8>)
    ensures
        v@ == char_key_bytes(c, control),
{
    if control {
        match control_byte_of(c) {
            Some(b) => return vec![b],
            None => {},
        }
    }
    utf8_of(c)
}

} // verus!
