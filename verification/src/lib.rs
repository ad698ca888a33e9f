//! Benchmark-result aggregation and comparison-chart preparation.
//!
//! The library consumes a line-delimited stream of benchmark events: each
//! line is a JSON record that either reports one completed measurement,
//! keyed by a compound identifier `category/name/variant[/input]`, or marks
//! the currently open group of measurements as finished.  Measurements that
//! belong to the same logical test case are folded into a group under
//! consistency checks, and a finished group is turned into the exact data
//! of a normalized, sorted horizontal-bar comparison chart.  Estimates are
//! carried as exact decimal scalars, so normalization is stated and proved
//! as integer arithmetic.

use vstd::prelude::*;

pub mod chart;
pub mod errors;
pub mod estimate;
pub mod event;
pub mod filters;
pub mod fmt;
pub mod group;
pub mod ident;
pub mod num;
pub mod runtimes;
pub mod strutil;
pub mod vms;
pub mod wasm;

pub use errors::FatalError;
pub use errors::Field;
pub use errors::ParseError;

verus! {

} // verus!
