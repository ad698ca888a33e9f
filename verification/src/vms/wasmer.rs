//! The Wasmer runtime under test, in its compiler configurations.

use vstd::prelude::*;

use crate::filters::CompileTestFilter;
use crate::filters::ExecuteTestFilter;
use crate::filters::TestFilter;

verus! {

/// The compiler backend the runtime is configured with.
#[derive(Debug, Copy, Clone, PartialEq, Eq, Structural)]
pub enum WasmerCompiler {
    Cranelift,
    Singlepass,
}

#[derive(Debug, Copy, Clone, PartialEq, Eq, Structural)]
pub struct Wasmer {
    pub compiler: WasmerCompiler,
}

impl Wasmer {
    /// Returns the name of the Wasm runtime and its configuration.
    pub fn name(&self) -> (r: &'static str)
        ensures
            self.compiler == WasmerCompiler::Cranelift ==> r@ == "wasmer.cranelift"@,
            self.compiler == WasmerCompiler::Singlepass ==> r@ == "wasmer.singlepass"@,
    {
        match self.compiler {
            WasmerCompiler::Cranelift => "wasmer.cranelift",
            WasmerCompiler::Singlepass => "wasmer.singlepass",
        }
    }

    /// Returns the test filter of this runtime: everything but the
    /// tail-recursive case, for either compiler.
    pub fn test_filter(&self) -> (r: TestFilter)
        ensures
            r == (TestFilter {
                execute: ExecuteTestFilter {
                    fib_tailrec: false,
                    ..ExecuteTestFilter::spec_set_to(true)
                },
                ..TestFilter::spec_set_to(true)
            }),
    {
        let mut execute = ExecuteTestFilter::set_to(true);
        execute.fib_tailrec = false;
        TestFilter { execute, compile: CompileTestFilter::set_to(true) }
    }
}

} // verus!
