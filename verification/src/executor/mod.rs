//! Progress of a run over many test files.

pub mod progress;
