//! The Stitch interpreter under test.

use vstd::prelude::*;

use crate::filters::CompileTestFilter;
use crate::filters::ExecuteTestFilter;
use crate::filters::TestFilter;

verus! {

#[derive(Debug, Copy, Clone, PartialEq, Eq, Structural)]
pub struct Stitch;

impl Stitch {
    /// Returns the name of the Wasm runtime and its configuration.
    pub fn name(&self) -> (r: &'static str)
        ensures
            r@ == "stitch"@,
    {
        "stitch"
    }

    /// Returns the test filter of this runtime.  The runtime relies on
    /// an optimization that only 64-bit platforms guarantee; the caller
    /// passes whether this platform does.
    pub fn test_filter(&self, supported: bool) -> (r: TestFilter)
        ensures
            r == (TestFilter {
                execute: ExecuteTestFilter {
                    fib_tailrec: false,
                    argon2: false,
                    ..ExecuteTestFilter::spec_set_to(supported)
                },
                compile: CompileTestFilter {
                    ffmpeg: false,
                    ..CompileTestFilter::spec_set_to(supported)
                },
            }),
    {
        let mut execute = ExecuteTestFilter::set_to(supported);
        execute.fib_tailrec = false;
        execute.argon2 = false;
        let mut compile = CompileTestFilter::set_to(supported);
        compile.ffmpeg = false;
        TestFilter { execute, compile }
    }
}

} // verus!
