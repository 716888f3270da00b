//! Running a scan: its stages, the channel to the datastore, and the writer that drains it.

pub mod channel;
pub mod runner;
pub mod setup;
pub mod writer;
