//! A MySQL test runner library: parsing of `.test` files, variable handling,
//! expression evaluation, result comparison and report helpers.

pub mod cli;
pub mod executor;
pub mod report;
pub mod resolve;
pub mod tester;
pub mod text;
pub mod unicode;
pub mod util;

use vstd::prelude::*;

verus! {

} // verus!
