//! Core of a terminal emulator: a byte-oriented ANSI/VT parser that drives a
//! styled screen grid with dirty tracking, a fixed-capacity ring buffer for
//! scrollback history, key encoding, and the computation of incremental
//! redraws.

pub mod ansi;
pub mod buffer;
pub mod config;
pub mod grid;
pub mod input;
pub mod pty;
pub mod session;
pub mod terminal;
pub mod unicode;
