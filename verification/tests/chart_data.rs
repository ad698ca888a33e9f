//! The comparison chart data: normalization, ordering, ceiling, title,
//! path, and the degenerate empty chart.

use wasmi_benchmarks::chart::chart_spec;
use wasmi_benchmarks::estimate::Estimate;
use wasmi_benchmarks::group::BenchGroup;
use wasmi_benchmarks::group::BenchResult;
use wasmi_benchmarks::ident::BenchCategory;
use wasmi_benchmarks::ident::VmAndConfig;

fn group_of(estimates: &[(VmAndConfig, u64, u64)]) -> BenchGroup {
    let mut results = Vec::new();
    for &(vm, num, den) in estimates {
        results.push((vm, BenchResult { estimate: Estimate { num, den }, unit: "ns".to_string() }));
    }
    BenchGroup { category: BenchCategory::Execute, name: "counter".to_string(), input: None, results }
}

#[test]
fn fastest_is_exactly_one_and_ratios_are_exact() {
    // estimates: WasmiOld 10.0, WasmiNew 20.0, Tinywasm 5.0
    let g = group_of(&[
        (VmAndConfig::WasmiOld, 100, 10),
        (VmAndConfig::WasmiNew, 200, 10),
        (VmAndConfig::Tinywasm, 50, 10),
    ]);
    let c = chart_spec(None, &g);
    assert_eq!(c.rows.len(), 3);
    // rows are ordered by descending rank: Tinywasm, WasmiNew, WasmiOld
    assert_eq!(c.rows[0].variant, VmAndConfig::Tinywasm);
    assert_eq!(c.rows[1].variant, VmAndConfig::WasmiNew);
    assert_eq!(c.rows[2].variant, VmAndConfig::WasmiOld);
    // the fastest entry scores exactly 1.0
    assert_eq!(c.rows[0].rel_num, c.rows[0].rel_den);
    assert_eq!(c.rows[0].tag, "x1.00");
    // WasmiNew is exactly 4x, WasmiOld exactly 2x
    assert_eq!(c.rows[1].rel_num, 4 * c.rows[1].rel_den);
    assert_eq!(c.rows[1].tag, "x4.00");
    assert_eq!(c.rows[2].rel_num, 2 * c.rows[2].rel_den);
    assert_eq!(c.rows[2].tag, "x2.00");
}

#[test]
fn ceiling_spans_at_least_one_decade() {
    let g = group_of(&[
        (VmAndConfig::WasmiOld, 100, 10),
        (VmAndConfig::WasmiNew, 200, 10),
        (VmAndConfig::Tinywasm, 50, 10),
    ]);
    let c = chart_spec(None, &g);
    // the spread 20.0 / 5.0 is below one decade, so the ceiling is 10
    assert_eq!(c.ceiling_num, 10);
    assert_eq!(c.ceiling_den, 1);
}

#[test]
fn ceiling_stretches_with_the_spread() {
    let g = group_of(&[(VmAndConfig::WasmiOld, 50, 1), (VmAndConfig::Tinywasm, 1, 1)]);
    let c = chart_spec(None, &g);
    assert_eq!(c.ceiling_num, 50 * c.ceiling_den);
}

#[test]
fn title_path_and_height() {
    let g = group_of(&[(VmAndConfig::WasmiOld, 1, 1)]);
    let c = chart_spec(None, &g);
    assert_eq!(c.title, "execute/counter");
    assert_eq!(c.path, "target/wasmi-benchmarks/execute/counter.svg");
    assert_eq!(c.height, 155 + 50);
    let annotated = chart_spec(Some("nightly"), &g);
    assert_eq!(annotated.title, "execute/counter - nightly");
}

#[test]
fn empty_group_yields_a_degenerate_chart() {
    let g = group_of(&[]);
    let c = chart_spec(None, &g);
    assert_eq!(c.rows.len(), 0);
    assert_eq!(c.height, 155);
    assert_eq!(c.ceiling_num, 10);
    assert_eq!(c.ceiling_den, 1);
}

#[test]
fn zero_minimum_is_named_not_hidden() {
    let g = group_of(&[(VmAndConfig::WasmiOld, 0, 1), (VmAndConfig::Tinywasm, 5, 1)]);
    let c = chart_spec(None, &g);
    // Tinywasm first (rank 6), then WasmiOld; dividing by a zero minimum
    // is undefined for the zero entry and unbounded for the other
    assert_eq!(c.rows[0].tag, "xinf");
    assert_eq!(c.rows[1].tag, "xNaN");
}

#[test]
fn rows_carry_labels_and_colors() {
    let g = group_of(&[(VmAndConfig::WasmiOld, 1, 1), (VmAndConfig::Stitch, 2, 1)]);
    let c = chart_spec(None, &g);
    assert_eq!(c.rows[0].variant, VmAndConfig::Stitch);
    assert_eq!(c.rows[0].label, "Stitch (lazy)");
    assert_eq!(c.rows[0].color.r, 220);
    assert_eq!(c.rows[1].label, "Wasmi v0.31");
}

#[test]
fn tag_rounds_half_to_even() {
    // 1.005 rounds down to the even hundredth, 1.015 rounds up
    let g = group_of(&[(VmAndConfig::WasmiOld, 1005, 1000), (VmAndConfig::Tinywasm, 1, 1)]);
    let c = chart_spec(None, &g);
    assert_eq!(c.rows[1].tag, "x1.00");
    let g2 = group_of(&[(VmAndConfig::WasmiOld, 1015, 1000), (VmAndConfig::Tinywasm, 1, 1)]);
    let c2 = chart_spec(None, &g2);
    assert_eq!(c2.rows[1].tag, "x1.02");
}
