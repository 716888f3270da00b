//! The rules of a scanner for secrets: what it walks, which repositories it lists, in which order
//! its stages run, how findings get to the store, how templates are filled in and how credentials
//! are put to the test.

pub mod cli;
pub mod digest;
pub mod encoding;
pub mod failure;
pub mod filesystem;
pub mod gitlab;
pub mod liquid_filters;
pub mod order;
pub mod scanner;
pub mod text;
pub mod validation;
