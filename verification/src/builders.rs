//! Building commands.

pub mod command;
pub mod raw;
