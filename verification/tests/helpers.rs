//! Filters, input paths, runtime names, number rendering, and the
//! trusted Wasm wrappers against the real crates.

use wasmi_benchmarks::filters::benchmark_file_path;
use wasmi_benchmarks::filters::CompileTestFilter;
use wasmi_benchmarks::filters::ExecuteTestFilter;
use wasmi_benchmarks::filters::InputEncoding;
use wasmi_benchmarks::filters::TestFilter;
use wasmi_benchmarks::fmt::u128_digits;
use wasmi_benchmarks::fmt::rel_tag;
use wasmi_benchmarks::runtimes::Wasmi031;
use wasmi_benchmarks::runtimes::Wasmi032;
use wasmi_benchmarks::vms::wasmi_new::CompilationMode;
use wasmi_benchmarks::vms::wasmi_new::Validation;
use wasmi_benchmarks::vms::Stitch;
use wasmi_benchmarks::vms::Tinywasm;
use wasmi_benchmarks::vms::WasmiNew;
use wasmi_benchmarks::vms::WasmiOld;
use wasmi_benchmarks::vms::Wasmtime;
use wasmi_benchmarks::vms::WasmtimeStrategy;
use wasmi_benchmarks::wasm::parse_module;
use wasmi_benchmarks::wasm::wat2wasm;

#[test]
fn filters_set_every_case() {
    let on = TestFilter::set_to(true);
    assert!(on.execute.counter && on.execute.coremark && on.compile.ffmpeg);
    let off = TestFilter::set_to(false);
    assert!(!off.execute.fib_tailrec && !off.compile.bz2);
    let d = TestFilter::default();
    assert_eq!(d, on);
    assert_eq!(ExecuteTestFilter::default(), ExecuteTestFilter::set_to(true));
    assert_eq!(CompileTestFilter::default(), CompileTestFilter::set_to(true));
}

#[test]
fn benchmark_files_lie_under_their_encoding() {
    assert_eq!(benchmark_file_path(InputEncoding::Wat, "counter"), "benches/res/wat/counter.wat");
    assert_eq!(
        benchmark_file_path(InputEncoding::Wasm, "coremark-minimal"),
        "benches/res/wasm/coremark-minimal.wasm"
    );
}

#[test]
fn runtime_names_are_stable() {
    assert_eq!(Wasmi031.name(), "wasmi-v0.31");
    assert_eq!(Wasmi032.name(), "wasmi-v0.32");
    assert_eq!(WasmiOld.name(), "wasmi-old");
    assert_eq!(Tinywasm.name(), "tinywasm");
    let vm = WasmiNew { compilation_mode: CompilationMode::Lazy, validation: Validation::Unchecked };
    assert_eq!(vm.name(), "wasmi-new.lazy.unchecked");
    let wt = Wasmtime { strategy: WasmtimeStrategy::Pulley };
    assert_eq!(wt.name(), "wasmtime.pulley");
}

#[test]
fn adapter_filters_disable_unsupported_cases() {
    assert!(!Tinywasm.test_filter().execute.fib_tailrec);
    assert!(Tinywasm.test_filter().execute.counter);
    let st = Stitch.test_filter(true);
    assert!(!st.execute.fib_tailrec && !st.execute.argon2 && !st.compile.ffmpeg);
    assert!(st.execute.counter && st.compile.bz2);
    let eager = WasmiNew { compilation_mode: CompilationMode::Eager, validation: Validation::Checked };
    assert!(eager.test_filter().execute.counter);
    let lt = WasmiNew {
        compilation_mode: CompilationMode::LazyTranslation,
        validation: Validation::Checked,
    };
    assert!(!lt.test_filter().execute.counter && lt.test_filter().compile.bz2);
    let winch = Wasmtime { strategy: WasmtimeStrategy::Winch };
    let wf = winch.test_filter(false);
    assert!(!wf.execute.counter && !wf.compile.bz2);
}

#[test]
fn digits_render_in_decimal() {
    assert_eq!(u128_digits(0), "0");
    assert_eq!(u128_digits(7), "7");
    assert_eq!(u128_digits(12345), "12345");
    assert_eq!(u128_digits(340282366920938463463374607431768211455), "340282366920938463463374607431768211455");
}

#[test]
fn tags_render_quotients_to_two_places() {
    assert_eq!(rel_tag(1, 1), "x1.00");
    assert_eq!(rel_tag(250, 100), "x2.50");
    assert_eq!(rel_tag(1, 3), "x0.33");
    assert_eq!(rel_tag(2, 3), "x0.67");
    assert_eq!(rel_tag(5, 0), "xinf");
    assert_eq!(rel_tag(0, 0), "xNaN");
}

#[test]
fn wat_conversion_produces_a_wasm_binary() {
    let wasm = wat2wasm(b"(module)").expect("the empty module is valid text format");
    assert_eq!(wasm, vec![0x00, 0x61, 0x73, 0x6d, 0x01, 0x00, 0x00, 0x00]);
    assert!(wat2wasm(b"(not wat").is_err());
}

#[test]
fn modules_parse_through_the_engine() {
    let wasm = wat2wasm(b"(module (func (export \"run\") (param i64) (result i64) local.get 0))")
        .unwrap();
    assert!(parse_module(&wasm).is_ok());
    assert!(parse_module(b"junk").is_err());
}
