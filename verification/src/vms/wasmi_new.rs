//! The current-generation engine under test, in its compilation and
//! validation configurations.

use vstd::prelude::*;

use crate::filters::ExecuteTestFilter;
use crate::filters::TestFilter;

verus! {

/// When the engine translates a loaded module.
#[derive(Debug, Copy, Clone, PartialEq, Eq, Structural)]
pub enum CompilationMode {
    Eager,
    LazyTranslation,
    Lazy,
}

/// Whether the engine validates Wasm input while compiling it.
#[derive(Debug, Copy, Clone, PartialEq, Eq, Structural)]
pub enum Validation {
    Checked,
    Unchecked,
}

#[derive(Debug, Copy, Clone, PartialEq, Eq, Structural)]
pub struct WasmiNew {
    pub compilation_mode: CompilationMode,
    pub validation: Validation,
}

impl WasmiNew {
    /// The name of the Wasm runtime and its configuration.
    pub open spec fn spec_name(self) -> Seq<char> {
        match (self.compilation_mode, self.validation) {
            (CompilationMode::Eager, Validation::Checked) => "wasmi-new.eager.checked"@,
            (CompilationMode::Eager, Validation::Unchecked) => "wasmi-new.eager.unchecked"@,
            (CompilationMode::LazyTranslation, Validation::Checked) =>
                "wasmi-new.lazy-translation.checked"@,
            (CompilationMode::LazyTranslation, Validation::Unchecked) =>
                "wasmi-new.lazy-translation.unchecked"@,
            (CompilationMode::Lazy, Validation::Checked) => "wasmi-new.lazy.checked"@,
            (CompilationMode::Lazy, Validation::Unchecked) => "wasmi-new.lazy.unchecked"@,
        }
    }

    /// Returns the name of the Wasm runtime and its configuration.
    pub fn name(&self) -> (r: &'static str)
        ensures
            r@ == self.spec_name(),
    {
        match (self.compilation_mode, self.validation) {
            (CompilationMode::Eager, Validation::Checked) => "wasmi-new.eager.checked",
            (CompilationMode::Eager, Validation::Unchecked) => "wasmi-new.eager.unchecked",
            (CompilationMode::LazyTranslation, Validation::Checked) => {
                "wasmi-new.lazy-translation.checked"
            },
            (CompilationMode::LazyTranslation, Validation::Unchecked) => {
                "wasmi-new.lazy-translation.unchecked"
            },
            (CompilationMode::Lazy, Validation::Checked) => "wasmi-new.lazy.checked",
            (CompilationMode::Lazy, Validation::Unchecked) => "wasmi-new.lazy.unchecked",
        }
    }

    /// Returns the test filter of this configuration: everything
    /// compiles, and only the checked eager and lazy configurations run
    /// execution cases — the others are not expected to behave
    /// differently there.
    pub fn test_filter(&self) -> (r: TestFilter)
        ensures
            r == (TestFilter {
                execute: ExecuteTestFilter::spec_set_to(
                    self.validation == Validation::Checked && (self.compilation_mode
                        == CompilationMode::Eager || self.compilation_mode
                        == CompilationMode::Lazy),
                ),
                ..TestFilter::spec_set_to(true)
            }),
    {
        let execute = match self.validation {
            Validation::Checked => match self.compilation_mode {
                CompilationMode::Eager | CompilationMode::Lazy => true,
                CompilationMode::LazyTranslation => false,
            },
            Validation::Unchecked => false,
        };
        TestFilter {
            execute: ExecuteTestFilter::set_to(execute),
            compile: crate::filters::CompileTestFilter::set_to(true),
        }
    }
}

} // verus!
