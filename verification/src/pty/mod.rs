//! PTY configuration shared with the I/O side: the window size a shell is
//! started with.

pub mod pty_master;

pub use pty_master::TermSize;
