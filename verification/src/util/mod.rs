//! Small helpers shared by the rest of the library.

pub mod error_utils;
pub mod memory_pool;
