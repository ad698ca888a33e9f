//! The group accumulator: opening, folding, consistency errors, and
//! flushing.

use wasmi_benchmarks::errors::FatalError;
use wasmi_benchmarks::estimate::Estimate;
use wasmi_benchmarks::group::Accumulator;
use wasmi_benchmarks::group::Measurement;
use wasmi_benchmarks::ident::BenchCategory;
use wasmi_benchmarks::ident::BenchIdentifier;
use wasmi_benchmarks::ident::VmAndConfig;

fn measurement(category: BenchCategory, name: &str, variant: VmAndConfig, num: u64) -> Measurement {
    Measurement {
        id: BenchIdentifier { category, name: name.to_string(), variant, input: None },
        estimate: Estimate { num, den: 1 },
        unit: "ns".to_string(),
    }
}

#[test]
fn first_measurement_opens_a_group() {
    let acc = Accumulator::Idle;
    let m = measurement(BenchCategory::Execute, "counter", VmAndConfig::WasmiOld, 10);
    let acc = acc.feed_measurement(m).unwrap();
    match acc {
        Accumulator::Open(g) => {
            assert_eq!(g.category, BenchCategory::Execute);
            assert_eq!(g.name, "counter");
            assert_eq!(g.input, None);
            assert_eq!(g.results.len(), 1);
            assert_eq!(g.results[0].0, VmAndConfig::WasmiOld);
        },
        Accumulator::Idle => panic!("the group did not open"),
    }
}

#[test]
fn duplicate_variant_is_fatal() {
    let acc = Accumulator::Idle;
    let m1 = measurement(BenchCategory::Execute, "counter", VmAndConfig::WasmiOld, 10);
    let m2 = measurement(BenchCategory::Execute, "counter", VmAndConfig::WasmiOld, 12);
    let acc = acc.feed_measurement(m1).unwrap();
    assert_eq!(acc.feed_measurement(m2).unwrap_err(), FatalError::DuplicateVariant);
}

#[test]
fn inconsistent_key_is_fatal() {
    let acc = Accumulator::Idle;
    let m1 = measurement(BenchCategory::Execute, "counter", VmAndConfig::WasmiOld, 10);
    let m2 = measurement(BenchCategory::Execute, "primes", VmAndConfig::Tinywasm, 12);
    let acc = acc.feed_measurement(m1).unwrap();
    assert_eq!(acc.feed_measurement(m2).unwrap_err(), FatalError::InconsistentGroup);
}

#[test]
fn differing_input_is_inconsistent() {
    let acc = Accumulator::Idle;
    let mut m1 = measurement(BenchCategory::Execute, "counter", VmAndConfig::WasmiOld, 10);
    m1.id.input = Some(5);
    let mut m2 = measurement(BenchCategory::Execute, "counter", VmAndConfig::Tinywasm, 12);
    m2.id.input = Some(6);
    let acc = acc.feed_measurement(m1).unwrap();
    assert_eq!(acc.feed_measurement(m2).unwrap_err(), FatalError::InconsistentGroup);
}

#[test]
fn matching_measurements_fold_in() {
    let acc = Accumulator::Idle;
    let m1 = measurement(BenchCategory::Compile, "bz2", VmAndConfig::WasmiOld, 10);
    let m2 = measurement(BenchCategory::Compile, "bz2", VmAndConfig::Tinywasm, 12);
    let acc = acc.feed_measurement(m1).unwrap();
    let acc = acc.feed_measurement(m2).unwrap();
    match acc {
        Accumulator::Open(g) => {
            assert_eq!(g.results.len(), 2);
            assert_eq!(g.results[1].0, VmAndConfig::Tinywasm);
            assert_eq!(g.results[1].1.estimate, Estimate { num: 12, den: 1 });
        },
        Accumulator::Idle => panic!("the group closed unexpectedly"),
    }
}

#[test]
fn flush_hands_the_group_out_once() {
    let acc = Accumulator::Idle;
    let m = measurement(BenchCategory::Execute, "counter", VmAndConfig::WasmiOld, 10);
    let acc = acc.feed_measurement(m).unwrap();
    let (acc, flushed) = acc.feed_flush();
    let g = flushed.expect("the open group must be flushed");
    assert_eq!(g.name, "counter");
    assert!(matches!(acc, Accumulator::Idle));
    let (acc, flushed) = acc.feed_flush();
    assert!(flushed.is_none());
    assert!(matches!(acc, Accumulator::Idle));
}

#[test]
fn flush_while_idle_is_a_no_op() {
    let (acc, flushed) = Accumulator::Idle.feed_flush();
    assert!(flushed.is_none());
    assert!(matches!(acc, Accumulator::Idle));
}
