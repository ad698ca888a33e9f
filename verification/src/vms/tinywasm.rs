//! The Tinywasm interpreter under test.

use vstd::prelude::*;

use crate::filters::ExecuteTestFilter;
use crate::filters::TestFilter;

verus! {

#[derive(Debug, Copy, Clone, PartialEq, Eq, Structural)]
pub struct Tinywasm;

impl Tinywasm {
    /// Returns the name of the Wasm runtime and its configuration.
    pub fn name(&self) -> (r: &'static str)
        ensures
            r@ == "tinywasm"@,
    {
        "tinywasm"
    }

    /// Returns the test filter of this runtime: everything but the
    /// tail-recursive case, which the runtime does not support.
    pub fn test_filter(&self) -> (r: TestFilter)
        ensures
            r == (TestFilter {
                execute: ExecuteTestFilter {
                    fib_tailrec: false,
                    ..ExecuteTestFilter::spec_set_to(true)
                },
                ..TestFilter::spec_set_to(true)
            }),
    {
        let mut execute = ExecuteTestFilter::set_to(true);
        execute.fib_tailrec = false;
        TestFilter { execute, compile: crate::filters::CompileTestFilter::set_to(true) }
    }
}

} // verus!
