//! Finding out whether credentials are live.

pub mod gcp;
