//! The event decoder on whole JSON lines, through the real JSON parser.

use wasmi_benchmarks::errors::Field;
use wasmi_benchmarks::errors::ParseError;
use wasmi_benchmarks::estimate::Estimate;
use wasmi_benchmarks::event::decode_line;
use wasmi_benchmarks::event::Event;
use wasmi_benchmarks::ident::BenchCategory;
use wasmi_benchmarks::ident::VmAndConfig;

#[test]
fn measurement_line_decodes() {
    let line = r#"{"reason":"measurement-complete","id":"execute/counter/wasmi-old/1000000","typical":{"estimate":100.0,"unit":"ns"}}"#;
    match decode_line(line) {
        Ok(Event::Measurement(m)) => {
            assert_eq!(m.id.category, BenchCategory::Execute);
            assert_eq!(m.id.name, "counter");
            assert_eq!(m.id.variant, VmAndConfig::WasmiOld);
            assert_eq!(m.id.input, Some(1000000));
            assert_eq!(m.estimate, Estimate { num: 1000, den: 10 });
            assert_eq!(m.unit, "ns");
        },
        other => panic!("unexpected decode result: {other:?}"),
    }
}

#[test]
fn integer_estimate_decodes() {
    let line = r#"{"reason":"measurement-complete","id":"compile/bz2/tinywasm","typical":{"estimate":250,"unit":"ms"}}"#;
    match decode_line(line) {
        Ok(Event::Measurement(m)) => {
            assert_eq!(m.id.input, None);
            assert_eq!(m.estimate, Estimate { num: 250, den: 1 });
            assert_eq!(m.unit, "ms");
        },
        other => panic!("unexpected decode result: {other:?}"),
    }
}

#[test]
fn group_complete_line_decodes() {
    let line = r#"{"reason":"group-complete","group_name":"execute/counter"}"#;
    assert!(matches!(decode_line(line), Ok(Event::GroupComplete)));
}

#[test]
fn unknown_tag_is_unrecognized() {
    let line = r#"{"reason":"warm-up-complete"}"#;
    assert_eq!(decode_line(line), Err(ParseError::UnrecognizedEvent));
}

#[test]
fn missing_tag_is_unrecognized() {
    assert_eq!(decode_line(r#"{"id":"execute/counter/wasmi-old"}"#), Err(ParseError::UnrecognizedEvent));
    assert_eq!(decode_line(r#"{"reason":7}"#), Err(ParseError::UnrecognizedEvent));
}

#[test]
fn malformed_json_is_unrecognized() {
    assert_eq!(decode_line("not json at all"), Err(ParseError::UnrecognizedEvent));
    assert_eq!(decode_line(""), Err(ParseError::UnrecognizedEvent));
    assert_eq!(decode_line("[1, 2, 3"), Err(ParseError::UnrecognizedEvent));
}

#[test]
fn non_object_record_is_unrecognized() {
    assert_eq!(decode_line("[1, 2, 3]"), Err(ParseError::UnrecognizedEvent));
    assert_eq!(decode_line("42"), Err(ParseError::UnrecognizedEvent));
}

#[test]
fn missing_fields_are_named() {
    let no_id = r#"{"reason":"measurement-complete","typical":{"estimate":1.0,"unit":"ns"}}"#;
    assert_eq!(decode_line(no_id), Err(ParseError::MissingField(Field::Id)));
    let no_typical = r#"{"reason":"measurement-complete","id":"execute/counter/wasmi-old"}"#;
    assert_eq!(decode_line(no_typical), Err(ParseError::MissingField(Field::Typical)));
    let bad_estimate = r#"{"reason":"measurement-complete","id":"execute/counter/wasmi-old","typical":{"estimate":"fast","unit":"ns"}}"#;
    assert_eq!(decode_line(bad_estimate), Err(ParseError::MissingField(Field::Estimate)));
    let no_unit = r#"{"reason":"measurement-complete","id":"execute/counter/wasmi-old","typical":{"estimate":1.0}}"#;
    assert_eq!(decode_line(no_unit), Err(ParseError::MissingField(Field::Unit)));
}

#[test]
fn identifier_errors_surface_from_lines() {
    let bad_vm = r#"{"reason":"measurement-complete","id":"execute/counter/vmA","typical":{"estimate":1.0,"unit":"ns"}}"#;
    assert_eq!(decode_line(bad_vm), Err(ParseError::UnknownVariant));
    let bad_arity = r#"{"reason":"measurement-complete","id":"execute/counter","typical":{"estimate":1.0,"unit":"ns"}}"#;
    assert_eq!(decode_line(bad_arity), Err(ParseError::MalformedIdentifier));
}
