//! The standalone runtime configurations benchmarked against older
//! engine versions.  Engine setup, loading and calls run outside this
//! library; here live the configurations and their stable names.

use vstd::prelude::*;

verus! {

/// The 0.31-series engine under test.
#[derive(Debug, Copy, Clone, PartialEq, Eq, Structural)]
pub struct Wasmi031;

impl Wasmi031 {
    /// Returns the name of the Wasm runtime and its configuration.
    pub fn name(&self) -> (r: &'static str)
        ensures
            r@ == "wasmi-v0.31"@,
    {
        "wasmi-v0.31"
    }
}

/// The 0.32-series engine under test.
#[derive(Debug, Copy, Clone, PartialEq, Eq, Structural)]
pub struct Wasmi032;

impl Wasmi032 {
    /// Returns the name of the Wasm runtime and its configuration.
    pub fn name(&self) -> (r: &'static str)
        ensures
            r@ == "wasmi-v0.32"@,
    {
        "wasmi-v0.32"
    }
}

/// Whether the engine validates Wasm input while compiling it.
#[derive(Debug, Copy, Clone, PartialEq, Eq, Structural)]
pub enum Validation {
    Checked,
    Unchecked,
}

} // verus!
