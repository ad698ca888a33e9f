//! The register-machine runtime with its state router under test.

use vstd::prelude::*;

verus! {

#[derive(Debug, Copy, Clone, PartialEq, Eq, Structural)]
pub struct RwasmRm;

impl RwasmRm {
    /// The state selector of the deployment entry point.
    pub const STATE_DEPLOY: u32 = 1;

    /// The state selector of the main entry point.
    pub const STATE_MAIN: u32 = 0;

    /// Returns the name of the Wasm runtime and its configuration.
    pub fn name(&self) -> (r: &'static str)
        ensures
            r@ == "rwasm-rm"@,
    {
        "rwasm-rm"
    }
}

} // verus!
