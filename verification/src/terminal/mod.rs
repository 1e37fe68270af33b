//! Terminal presentation subsystem.
//!
//! This layer contains the in-memory screen representation (`screen_buffer`)
//! and the computation of incremental redraws (`renderer`).

pub mod host;
pub mod renderer;
pub mod screen_buffer;

pub use screen_buffer::Grid;
