//! Configuration parsing, harness synthesis and run bookkeeping for tests
//! that execute in a sealed environment: a fresh process, a private working
//! directory, staged files, environment variables and setup/teardown hooks.

pub mod attributes;
pub mod guarantees;
pub mod harness;
pub mod isolation;
pub mod literal;
pub mod parser;
pub mod path;
pub mod run;
