//! The previous-generation engine under test.

use vstd::prelude::*;

verus! {

#[derive(Debug, Copy, Clone, PartialEq, Eq, Structural)]
pub struct WasmiOld;

impl WasmiOld {
    /// Returns the name of the Wasm runtime and its configuration.
    pub fn name(&self) -> (r: &'static str)
        ensures
            r@ == "wasmi-old"@,
    {
        "wasmi-old"
    }
}

} // verus!
