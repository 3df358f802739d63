//! The key handlers, one for each mode.

pub mod command;
pub mod insert;
pub mod normal;
pub mod visual;
