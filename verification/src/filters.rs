//! Test filters: which benchmark cases apply to a runtime under test,
//! and the encoding of benchmark input files.

use vstd::prelude::*;
use vstd::string::StringExecFns;

verus! {

/// Which execution benchmark cases are enabled.
#[derive(Debug, Copy, Clone, PartialEq, Eq, Structural)]
pub struct ExecuteTestFilter {
    pub counter: bool,
    pub fib_iterative: bool,
    pub fib_recursive: bool,
    pub fib_tailrec: bool,
    pub primes: bool,
    pub matrix_multiply: bool,
    pub argon2: bool,
    pub bulk_ops: bool,
    pub coremark: bool,
}

impl ExecuteTestFilter {
    /// The filter with every case set to `flag`.
    pub open spec fn spec_set_to(flag: bool) -> ExecuteTestFilter {
        ExecuteTestFilter {
            counter: flag,
            fib_iterative: flag,
            fib_recursive: flag,
            fib_tailrec: flag,
            primes: flag,
            matrix_multiply: flag,
            argon2: flag,
            bulk_ops: flag,
            coremark: flag,
        }
    }

    /// Sets every case to `flag`.
    pub fn set_to(flag: bool) -> (r: Self)
        ensures
            r == Self::spec_set_to(flag),
    {
        Self {
            counter: flag,
            fib_iterative: flag,
            fib_recursive: flag,
            fib_tailrec: flag,
            primes: flag,
            matrix_multiply: flag,
            argon2: flag,
            bulk_ops: flag,
            coremark: flag,
        }
    }
}

impl Default for ExecuteTestFilter {
    /// Every case is enabled by default.
    fn default() -> (r: Self)
        ensures
            r == Self::spec_set_to(true),
    {
        Self::set_to(true)
    }
}

/// Which compilation benchmark cases are enabled.
#[derive(Debug, Copy, Clone, PartialEq, Eq, Structural)]
pub struct CompileTestFilter {
    pub bz2: bool,
    pub pulldown_cmark: bool,
    pub spidermonkey: bool,
    pub ffmpeg: bool,
    pub coremark_minimal: bool,
    pub argon2: bool,
}

impl CompileTestFilter {
    /// The filter with every case set to `flag`.
    pub open spec fn spec_set_to(flag: bool) -> CompileTestFilter {
        CompileTestFilter {
            bz2: flag,
            pulldown_cmark: flag,
            spidermonkey: flag,
            ffmpeg: flag,
            coremark_minimal: flag,
            argon2: flag,
        }
    }

    /// Sets every case to `flag`.
    pub fn set_to(flag: bool) -> (r: Self)
        ensures
            r == Self::spec_set_to(flag),
    {
        Self {
            bz2: flag,
            pulldown_cmark: flag,
            spidermonkey: flag,
            ffmpeg: flag,
            coremark_minimal: flag,
            argon2: flag,
        }
    }
}

impl Default for CompileTestFilter {
    /// Every case is enabled by default.
    fn default() -> (r: Self)
        ensures
            r == Self::spec_set_to(true),
    {
        Self::set_to(true)
    }
}

/// The full filter: execution and compilation cases.
#[derive(Debug, Copy, Clone, PartialEq, Eq, Structural)]
pub struct TestFilter {
    pub execute: ExecuteTestFilter,
    pub compile: CompileTestFilter,
}

impl TestFilter {
    /// The filter with every case set to `flag`.
    pub open spec fn spec_set_to(flag: bool) -> TestFilter {
        TestFilter {
            execute: ExecuteTestFilter::spec_set_to(flag),
            compile: CompileTestFilter::spec_set_to(flag),
        }
    }

    /// Sets every case to `flag`.
    pub fn set_to(flag: bool) -> (r: Self)
        ensures
            r == Self::spec_set_to(flag),
    {
        Self { execute: ExecuteTestFilter::set_to(flag), compile: CompileTestFilter::set_to(flag) }
    }
}

impl Default for TestFilter {
    /// Every case is enabled by default.
    fn default() -> (r: Self)
        ensures
            r == Self::spec_set_to(true),
    {
        Self::set_to(true)
    }
}

/// The encoded format of a benchmark input file.
#[derive(Debug, Copy, Clone, PartialEq, Eq, Structural)]
pub enum InputEncoding {
    /// The input is encoded as `.wat` text format.
    Wat,
    /// The input is encoded as `.wasm` binary.
    Wasm,
}

impl InputEncoding {
    /// The display token of the encoding.
    pub open spec fn spec_token(self) -> Seq<char> {
        match self {
            InputEncoding::Wat => "wat"@,
            InputEncoding::Wasm => "wasm"@,
        }
    }

    /// Returns the encoding's token, used in file names.
    pub fn token(&self) -> (r: &'static str)
        ensures
            r@ == self.spec_token(),
    {
        match self {
            InputEncoding::Wat => "wat",
            InputEncoding::Wasm => "wasm",
        }
    }
}

/// Where the named benchmark input file of the given encoding lies.
pub open spec fn spec_benchmark_file_path(encoding: InputEncoding, name: Seq<char>) -> Seq<char> {
    "benches/res/"@ + encoding.spec_token() + "/"@ + name + "."@ + encoding.spec_token()
}

/// Builds the path of the named benchmark input file, matching
/// [`spec_benchmark_file_path`]; reading the file is the caller's
/// concern.
pub fn benchmark_file_path(encoding: InputEncoding, name: &str) -> (r: String)
    ensures
        r@ == spec_benchmark_file_path(encoding, name@),
{
    let mut p = "benches/res/".to_owned();
    p.append(encoding.token());
    p.append("/");
    p.append(name);
    p.append(".");
    p.append(encoding.token());
    p
}

} // verus!
