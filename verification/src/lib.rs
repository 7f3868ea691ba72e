//! Verified core of a desktop dashboard for `ccusage` token and cost reports.
use vstd::prelude::*;

pub mod cache;
pub mod commands;
pub mod dates;
pub mod errors;
pub mod grouping;
pub mod json;
pub mod models;
pub mod report;
pub mod runner;
pub mod settings;
pub mod state;
pub mod text;
pub mod totals;
pub mod parser;
pub mod paths;

verus! {

} // verus!
