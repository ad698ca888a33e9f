//! The Wasmtime runtime under test, in its strategy configurations.

use vstd::prelude::*;

use crate::filters::CompileTestFilter;
use crate::filters::ExecuteTestFilter;
use crate::filters::TestFilter;

verus! {

/// The compilation strategy the runtime is configured with.
#[derive(Debug, Copy, Clone, PartialEq, Eq, Structural)]
pub enum Strategy {
    Cranelift,
    Winch,
    Pulley,
}

#[derive(Debug, Copy, Clone, PartialEq, Eq, Structural)]
pub struct Wasmtime {
    pub strategy: Strategy,
}

impl Wasmtime {
    /// Returns the name of the Wasm runtime and its configuration.
    pub fn name(&self) -> (r: &'static str)
        ensures
            self.strategy == Strategy::Cranelift ==> r@ == "wasmtime.cranelift"@,
            self.strategy == Strategy::Winch ==> r@ == "wasmtime.winch"@,
            self.strategy == Strategy::Pulley ==> r@ == "wasmtime.pulley"@,
    {
        match self.strategy {
            Strategy::Cranelift => "wasmtime.cranelift",
            Strategy::Winch => "wasmtime.winch",
            Strategy::Pulley => "wasmtime.pulley",
        }
    }

    /// Returns the test filter of this strategy.  The Winch strategy
    /// works on one architecture family only; the caller passes whether
    /// this platform is of it.
    pub fn test_filter(&self, winch_works: bool) -> (r: TestFilter)
        ensures
            self.strategy == Strategy::Cranelift ==> r == (TestFilter {
                compile: CompileTestFilter { ffmpeg: false, ..CompileTestFilter::spec_set_to(true) },
                ..TestFilter::spec_set_to(true)
            }),
            self.strategy == Strategy::Winch ==> r == (TestFilter {
                execute: ExecuteTestFilter {
                    fib_tailrec: false,
                    argon2: false,
                    bulk_ops: false,
                    coremark: false,
                    ..ExecuteTestFilter::spec_set_to(winch_works)
                },
                compile: CompileTestFilter { argon2: false, ..CompileTestFilter::spec_set_to(winch_works) },
            }),
            self.strategy == Strategy::Pulley ==> r == (TestFilter {
                execute: ExecuteTestFilter::spec_set_to(true),
                compile: CompileTestFilter { ffmpeg: false, ..CompileTestFilter::spec_set_to(true) },
            }),
    {
        match self.strategy {
            Strategy::Cranelift => {
                let mut compile = CompileTestFilter::set_to(true);
                compile.ffmpeg = false;  // takes too long to compile
                TestFilter { execute: ExecuteTestFilter::set_to(true), compile }
            },
            Strategy::Winch => {
                let mut execute = ExecuteTestFilter::set_to(winch_works);
                execute.fib_tailrec = false;
                execute.argon2 = false;
                execute.bulk_ops = false;
                execute.coremark = false;
                let mut compile = CompileTestFilter::set_to(winch_works);
                compile.argon2 = false;
                TestFilter { execute, compile }
            },
            Strategy::Pulley => {
                let mut compile = CompileTestFilter::set_to(true);
                compile.ffmpeg = false;
                TestFilter { execute: ExecuteTestFilter::set_to(true), compile }
            },
        }
    }
}

} // verus!
