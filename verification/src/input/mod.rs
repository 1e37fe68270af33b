//! Input subsystem: key events, and the byte sequences that TTY applications
//! expect for them.

pub mod bytes;
pub mod key;
pub mod keyboard;

pub use keyboard::{InputEvent, InputMode};
