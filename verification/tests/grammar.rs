//! The identifier grammar: categories, variants, compound identifiers,
//! and the integer and decimal scalars they carry.

use wasmi_benchmarks::errors::ParseError;
use wasmi_benchmarks::estimate::parse_decimal;
use wasmi_benchmarks::estimate::Estimate;
use wasmi_benchmarks::ident::parse_category;
use wasmi_benchmarks::ident::parse_identifier;
use wasmi_benchmarks::ident::parse_variant;
use wasmi_benchmarks::ident::BenchCategory;
use wasmi_benchmarks::ident::Rgb;
use wasmi_benchmarks::ident::VmAndConfig;
use wasmi_benchmarks::num::parse_i64;

#[test]
fn category_tokens_parse() {
    assert_eq!(parse_category("execute"), Ok(BenchCategory::Execute));
    assert_eq!(parse_category("compile"), Ok(BenchCategory::Compile));
    assert_eq!(parse_category("Execute"), Err(ParseError::UnknownCategory));
    assert_eq!(parse_category(""), Err(ParseError::UnknownCategory));
}

#[test]
fn variant_tokens_parse() {
    assert_eq!(parse_variant("wasmi-old"), Ok(VmAndConfig::WasmiOld));
    assert_eq!(parse_variant("wasmi-new.lazy.checked"), Ok(VmAndConfig::WasmiNewLazy));
    assert_eq!(parse_variant("tinywasm"), Ok(VmAndConfig::Tinywasm));
    assert_eq!(parse_variant("wasmer.wamr"), Ok(VmAndConfig::WasmerWamr));
    assert_eq!(parse_variant("wasm3.eager"), Ok(VmAndConfig::Wasm3));
}

#[test]
fn unknown_variant_is_an_error_not_a_default() {
    assert_eq!(parse_variant("not-a-real-variant"), Err(ParseError::UnknownVariant));
    assert_eq!(parse_variant(""), Err(ParseError::UnknownVariant));
    assert_eq!(parse_variant("wasmi-old2"), Err(ParseError::UnknownVariant));
}

#[test]
fn four_part_identifier_round_trips_input() {
    let id = parse_identifier("execute/counter/wasmi-old/1000000").unwrap();
    assert_eq!(id.category, BenchCategory::Execute);
    assert_eq!(id.name, "counter");
    assert_eq!(id.variant, VmAndConfig::WasmiOld);
    assert_eq!(id.input, Some(1000000));
}

#[test]
fn three_part_identifier_has_no_input() {
    let id = parse_identifier("compile/bz2/wasmtime.winch").unwrap();
    assert_eq!(id.category, BenchCategory::Compile);
    assert_eq!(id.name, "bz2");
    assert_eq!(id.variant, VmAndConfig::WasmtimeWinch);
    assert_eq!(id.input, None);
}

#[test]
fn identifier_arity_is_checked() {
    assert_eq!(parse_identifier("execute/counter"), Err(ParseError::MalformedIdentifier));
    assert_eq!(parse_identifier("execute"), Err(ParseError::MalformedIdentifier));
    assert_eq!(
        parse_identifier("execute/counter/wasmi-old/5/extra"),
        Err(ParseError::MalformedIdentifier)
    );
    assert_eq!(parse_identifier(""), Err(ParseError::MalformedIdentifier));
}

#[test]
fn identifier_component_errors() {
    assert_eq!(parse_identifier("run/counter/wasmi-old"), Err(ParseError::UnknownCategory));
    assert_eq!(parse_identifier("execute/counter/vmA"), Err(ParseError::UnknownVariant));
    assert_eq!(
        parse_identifier("execute/counter/wasmi-old/ten"),
        Err(ParseError::InvalidInput)
    );
    assert_eq!(
        parse_identifier("execute/counter/wasmi-old/9223372036854775808"),
        Err(ParseError::InvalidInput)
    );
}

#[test]
fn integer_parsing_matches_the_standard_grammar() {
    assert_eq!(parse_i64("0"), Some(0));
    assert_eq!(parse_i64("+5"), Some(5));
    assert_eq!(parse_i64("-17"), Some(-17));
    assert_eq!(parse_i64("9223372036854775807"), Some(i64::MAX));
    assert_eq!(parse_i64("-9223372036854775808"), Some(i64::MIN));
    assert_eq!(parse_i64("9223372036854775808"), None);
    assert_eq!(parse_i64("-9223372036854775809"), None);
    assert_eq!(parse_i64(""), None);
    assert_eq!(parse_i64("+"), None);
    assert_eq!(parse_i64("12a"), None);
    assert_eq!(parse_i64(" 12"), None);
}

#[test]
fn decimal_parsing_is_exact() {
    assert_eq!(parse_decimal("10.0"), Some(Estimate { num: 100, den: 10 }));
    assert_eq!(parse_decimal("5"), Some(Estimate { num: 5, den: 1 }));
    assert_eq!(parse_decimal("2.5e-5"), Some(Estimate { num: 25, den: 1000000 }));
    assert_eq!(parse_decimal("1e3"), Some(Estimate { num: 1000, den: 1 }));
    assert_eq!(parse_decimal("1.5E2"), Some(Estimate { num: 150, den: 1 }));
    assert_eq!(parse_decimal("0"), Some(Estimate { num: 0, den: 1 }));
    assert_eq!(parse_decimal("0.25"), Some(Estimate { num: 25, den: 100 }));
}

#[test]
fn decimal_parsing_fails_closed() {
    assert_eq!(parse_decimal(""), None);
    assert_eq!(parse_decimal("abc"), None);
    assert_eq!(parse_decimal("-1.5"), None);
    assert_eq!(parse_decimal("1."), None);
    assert_eq!(parse_decimal(".5"), None);
    assert_eq!(parse_decimal("1e"), None);
    assert_eq!(parse_decimal("1e300"), None);
    assert_eq!(parse_decimal("1e-300"), None);
    assert_eq!(parse_decimal("10000000000000000000"), None);
}

#[test]
fn variant_labels_and_colors() {
    assert_eq!(VmAndConfig::WasmiOld.label(), "Wasmi v0.31");
    assert_eq!(VmAndConfig::Stitch.label(), "Stitch (lazy)");
    assert_eq!(VmAndConfig::WasmerWamr.label(), "Wasmer (WAMR)");
    assert_eq!(VmAndConfig::WasmiOld.color(), Rgb { r: 140, g: 130, b: 50 });
    assert_eq!(VmAndConfig::WasmiNewLazy.color(), Rgb { r: 200, g: 200, b: 70 });
    assert_eq!(VmAndConfig::WasmtimePulley.color(), Rgb { r: 140, g: 120, b: 160 });
}

#[test]
fn variant_ranks_follow_declaration_order() {
    assert_eq!(VmAndConfig::WasmiOld.rank(), 0);
    assert_eq!(VmAndConfig::WasmiNewLazyTranslation.rank(), 3);
    assert_eq!(VmAndConfig::Tinywasm.rank(), 6);
    assert_eq!(VmAndConfig::WasmerWamr.rank(), 15);
}

#[test]
fn category_tokens_display() {
    assert_eq!(BenchCategory::Execute.token(), "execute");
    assert_eq!(BenchCategory::Compile.token(), "compile");
}
