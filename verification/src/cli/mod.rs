//! What the command line asks for.

pub mod commands;
