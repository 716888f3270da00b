//! The arguments of the commands.

pub mod inputs;
pub mod scan;
