//! The register-machine translation of the engine under test.

use vstd::prelude::*;

verus! {

#[derive(Debug, Copy, Clone, PartialEq, Eq, Structural)]
pub struct Rwasm;

impl Rwasm {
    /// Returns the name of the Wasm runtime and its configuration.
    pub fn name(&self) -> (r: &'static str)
        ensures
            r@ == "rwasm"@,
    {
        "rwasm"
    }
}

} // verus!
