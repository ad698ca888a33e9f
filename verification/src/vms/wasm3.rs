//! The Wasm3 interpreter under test.

use vstd::prelude::*;

use crate::filters::CompileTestFilter;
use crate::filters::ExecuteTestFilter;
use crate::filters::TestFilter;

verus! {

/// When the interpreter compiles a loaded module.
#[derive(Debug, Copy, Clone, PartialEq, Eq, Structural)]
pub enum CompilationMode {
    Lazy,
    Eager,
}

#[derive(Debug, Copy, Clone, PartialEq, Eq, Structural)]
pub struct Wasm3 {
    pub compilation_mode: CompilationMode,
}

impl Wasm3 {
    /// Returns the name of the Wasm runtime and its configuration.
    pub fn name(&self) -> (r: &'static str)
        ensures
            self.compilation_mode == CompilationMode::Lazy ==> r@ == "wasm3.lazy"@,
            self.compilation_mode == CompilationMode::Eager ==> r@ == "wasm3.eager"@,
    {
        match self.compilation_mode {
            CompilationMode::Lazy => "wasm3.lazy",
            CompilationMode::Eager => "wasm3.eager",
        }
    }

    /// Returns the test filter of this runtime: everything but the
    /// tail-recursive case, which the runtime does not support.
    pub fn test_filter(&self) -> (r: TestFilter)
        ensures
            r == (TestFilter {
                execute: ExecuteTestFilter {
                    fib_tailrec: false,
                    ..ExecuteTestFilter::spec_set_to(true)
                },
                ..TestFilter::spec_set_to(true)
            }),
    {
        let mut execute = ExecuteTestFilter::set_to(true);
        execute.fib_tailrec = false;
        TestFilter { execute, compile: CompileTestFilter::set_to(true) }
    }
}

} // verus!
