//! End to end: a stream of JSON lines through decoding, accumulation and
//! chart preparation.

use wasmi_benchmarks::chart::chart_spec;
use wasmi_benchmarks::event::decode_line;
use wasmi_benchmarks::event::process_event;
use wasmi_benchmarks::group::Accumulator;
use wasmi_benchmarks::ident::VmAndConfig;

#[test]
fn stream_produces_exactly_one_chart() {
    let lines = [
        r#"{"reason":"measurement-complete","id":"execute/foo/wasmi-old","typical":{"estimate":100,"unit":"ns"}}"#,
        r#"{"reason":"measurement-complete","id":"execute/foo/tinywasm","typical":{"estimate":50,"unit":"ns"}}"#,
        r#"{"reason":"group-complete","group_name":"execute/foo"}"#,
    ];
    let mut acc = Accumulator::Idle;
    let mut charts = Vec::new();
    for line in lines {
        let ev = decode_line(line).expect("each line must decode");
        let (next, flushed) = process_event(acc, ev).expect("the stream is consistent");
        acc = next;
        if let Some(group) = flushed {
            charts.push(chart_spec(None, &group));
        }
    }
    assert_eq!(charts.len(), 1);
    let c = &charts[0];
    assert_eq!(c.path, "target/wasmi-benchmarks/execute/foo.svg");
    assert_eq!(c.rows.len(), 2);
    // tinywasm is the fastest at exactly 1.0; wasmi-old at exactly 2.0
    assert_eq!(c.rows[0].variant, VmAndConfig::Tinywasm);
    assert_eq!(c.rows[0].rel_num, c.rows[0].rel_den);
    assert_eq!(c.rows[1].variant, VmAndConfig::WasmiOld);
    assert_eq!(c.rows[1].rel_num, 2 * c.rows[1].rel_den);
    assert!(matches!(acc, Accumulator::Idle));
}

#[test]
fn truncated_stream_renders_nothing() {
    let lines = [
        r#"{"reason":"measurement-complete","id":"execute/foo/wasmi-old","typical":{"estimate":100,"unit":"ns"}}"#,
    ];
    let mut acc = Accumulator::Idle;
    let mut charts: Vec<&str> = Vec::new();
    for line in lines {
        let ev = decode_line(line).unwrap();
        let (next, flushed) = process_event(acc, ev).unwrap();
        acc = next;
        if flushed.is_some() {
            charts.push("chart");
        }
    }
    // the group is still open at end of input and is discarded unrendered
    assert!(charts.is_empty());
    assert!(matches!(acc, Accumulator::Open(_)));
}
