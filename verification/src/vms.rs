//! The runtimes-plus-configurations under test.  Engine setup, loading
//! and calls run outside this library; here live the configurations,
//! their stable names, and the test filters that apply to each.

pub mod rwasm;
pub mod rwasm_runtime;
pub mod stitch;
pub mod tinywasm;
pub mod wasm3;
pub mod wasmer;
pub mod wasmi_new;
pub mod wasmi_old;
pub mod wasmtime;

pub use stitch::Stitch;
pub use tinywasm::Tinywasm;
pub use wasm3::Wasm3;
pub use wasmer::Wasmer;
pub use wasmi_new::WasmiNew;
pub use wasmi_old::WasmiOld;
pub use wasmtime::Strategy as WasmtimeStrategy;
pub use wasmtime::Wasmtime;
