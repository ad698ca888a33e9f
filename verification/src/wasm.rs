//! Wasm plumbing around outside engines: text-to-binary conversion and
//! module parsing, behind trusted wrappers, and the callable module
//! instance that a runtime hands back.

use vstd::prelude::*;

verus! {

#[verifier::external_type_specification]
#[verifier::external_body]
pub struct ExModule(wasmi::Module);

/// What converting WebAssembly text format to binary yields: a function
/// of the input bytes alone.
pub uninterp spec fn wasm_of(wat_bytes: Seq<u8>) -> Seq<u8>;

/// Converts `.wat` encoded `bytes` into `.wasm` encoded bytes.
///
/// Relies on `wat::parse_bytes`: the conversion depends on the bytes
/// alone; input that is not valid text format (nor already a binary,
/// which passes through) is an error.
#[verifier::external_body]
pub fn wat2wasm(bytes: &[u8]) -> (r: Result<Vec<u8>, String>)
    ensures
        r matches Ok(w) ==> w@ == wasm_of(bytes@),
{
    match wat::parse_bytes(bytes) {
        Ok(cow) => Ok(cow.into_owned()),
        Err(e) => Err(e.to_string()),
    }
}

/// Whether the engine accepts the given bytes as a module under lazy
/// translation: a function of the bytes alone.
pub uninterp spec fn module_parses(wasm_bytes: Seq<u8>) -> bool;

/// Parses the `wasm` bytes and returns an engine module, from which
/// import information can be queried.
///
/// Relies on `wasmi`'s `Config`, `Engine` and `Module`: the module is
/// parsed with lazy translation, deterministically from the bytes;
/// bytes the engine rejects are an error.
#[verifier::external_body]
pub fn parse_module(wasm: &[u8]) -> (r: Result<wasmi::Module, String>)
    ensures
        r is Ok <==> module_parses(wasm@),
{
    let mut config = wasmi::Config::default();
    config.compilation_mode(wasmi::CompilationMode::Lazy);
    let engine = wasmi::Engine::new(&config);
    wasmi::Module::new(&engine, wasm).map_err(|e| e.to_string())
}

/// The module instance of a Wasm runtime that is capable of being
/// benchmarked; each runtime under test implements it outside this
/// library.
pub trait BenchInstance {
    /// Calls the callable Wasm runtime module instance.
    fn call(&mut self, input: i64);
}

} // verus!
