//! The identifier grammar: benchmark categories, runtime variants, and the
//! compound identifier `category/name/variant[/input]`.
//!
//! Both enumerations are closed: parsing is an exact match against a fixed
//! token set, and an unknown token is a hard error, never a default.

use vstd::prelude::*;

use crate::errors::ParseError;
use crate::num::all_digits;
use crate::num::is_digit;
use crate::num::parse_i64;
use crate::num::spec_parse_i64;
use crate::strutil::split_on_slash;
use crate::strutil::split_slash;
use crate::strutil::str_eq;

verus! {

broadcast use vstd::string::group_string_axioms;

/// The top-level kind of a measurement: executing a test case or compiling
/// its module.
#[derive(Debug, Clone, Copy, PartialEq, Eq, Structural)]
pub enum BenchCategory {
    Execute,
    Compile,
}

impl BenchCategory {
    /// The parse token and display token of the category.
    pub open spec fn spec_token(self) -> Seq<char> {
        match self {
            BenchCategory::Execute => "execute"@,
            BenchCategory::Compile => "compile"@,
        }
    }

    /// Returns the category's token, used both for parsing and display.
    pub fn token(&self) -> (r: &'static str)
        ensures
            r@ == self.spec_token(),
    {
        match self {
            BenchCategory::Execute => "execute",
            BenchCategory::Compile => "compile",
        }
    }
}

/// What parsing a category token yields: the matching category, or an
/// error for any other token.
pub open spec fn spec_parse_category(s: Seq<char>) -> Result<BenchCategory, ParseError> {
    if s == "execute"@ {
        Ok(BenchCategory::Execute)
    } else if s == "compile"@ {
        Ok(BenchCategory::Compile)
    } else {
        Err(ParseError::UnknownCategory)
    }
}

/// Parses a category token by exact string match.
pub fn parse_category(s: &str) -> (r: Result<BenchCategory, ParseError>)
    ensures
        r == spec_parse_category(s@),
{
    if str_eq(s, "execute") {
        Ok(BenchCategory::Execute)
    } else if str_eq(s, "compile") {
        Ok(BenchCategory::Compile)
    } else {
        Err(ParseError::UnknownCategory)
    }
}

/// Every category's token parses back to that category.
pub proof fn lemma_category_token_parses(c: BenchCategory)
    ensures
        spec_parse_category(c.spec_token()) == Ok::<BenchCategory, ParseError>(c),
{
    reveal_strlit("execute");
    reveal_strlit("compile");
    match c {
        BenchCategory::Execute => {
        },
        BenchCategory::Compile => {
            assert(("compile"@)[0] != ("execute"@)[0]);
        },
    }
}

/// One runtime-plus-configuration identity under test.  The declaration
/// order is the total ordering used for chart rows, exposed by [`Self::rank`].
#[derive(Debug, Clone, Copy, PartialEq, Eq, Structural)]
pub enum VmAndConfig {
    WasmiOld,
    WasmiNew,
    WasmiNewUnchecked,
    WasmiNewLazyTranslation,
    WasmiNewLazy,
    WasmiNewLazyUnchecked,
    Tinywasm,
    Wasm3,
    Wasm3Lazy,
    Stitch,
    WasmtimeCranelift,
    WasmtimeWinch,
    WasmtimePulley,
    WasmerCranelift,
    WasmerSinglepass,
    WasmerWamr,
}

/// An opaque color as red, green and blue channels.
#[derive(Debug, Clone, Copy, PartialEq, Eq, Structural)]
pub struct Rgb {
    pub r: u8,
    pub g: u8,
    pub b: u8,
}

impl VmAndConfig {
    /// The stable parse token of the variant.
    pub open spec fn spec_token(self) -> Seq<char> {
        match self {
            VmAndConfig::WasmiOld => "wasmi-old"@,
            VmAndConfig::WasmiNew => "wasmi-new.eager.checked"@,
            VmAndConfig::WasmiNewUnchecked => "wasmi-new.eager.unchecked"@,
            VmAndConfig::WasmiNewLazyTranslation => "wasmi-new.lazy-translation.checked"@,
            VmAndConfig::WasmiNewLazy => "wasmi-new.lazy.checked"@,
            VmAndConfig::WasmiNewLazyUnchecked => "wasmi-new.lazy.unchecked"@,
            VmAndConfig::Tinywasm => "tinywasm"@,
            VmAndConfig::Wasm3 => "wasm3.eager"@,
            VmAndConfig::Wasm3Lazy => "wasm3.lazy"@,
            VmAndConfig::Stitch => "stitch"@,
            VmAndConfig::WasmtimeCranelift => "wasmtime.cranelift"@,
            VmAndConfig::WasmtimeWinch => "wasmtime.winch"@,
            VmAndConfig::WasmtimePulley => "wasmtime.pulley"@,
            VmAndConfig::WasmerCranelift => "wasmer.cranelift"@,
            VmAndConfig::WasmerSinglepass => "wasmer.singlepass"@,
            VmAndConfig::WasmerWamr => "wasmer.wamr"@,
        }
    }

    /// The human-readable label of the variant.
    pub open spec fn spec_label(self) -> Seq<char> {
        match self {
            VmAndConfig::WasmiOld => "Wasmi v0.31"@,
            VmAndConfig::WasmiNew => "Wasmi v0.32 (eager)"@,
            VmAndConfig::WasmiNewUnchecked => "Wasmi v0.32 (eager, unchecked)"@,
            VmAndConfig::WasmiNewLazyTranslation => "Wasmi v0.32 (lazy-translation)"@,
            VmAndConfig::WasmiNewLazy => "Wasmi v0.32 (lazy)"@,
            VmAndConfig::WasmiNewLazyUnchecked => "Wasmi v0.32 (lazy, unchecked)"@,
            VmAndConfig::Tinywasm => "Tinywasm"@,
            VmAndConfig::Wasm3 => "Wasm3 (eager)"@,
            VmAndConfig::Wasm3Lazy => "Wasm3 (lazy)"@,
            VmAndConfig::Stitch => "Stitch (lazy)"@,
            VmAndConfig::WasmtimeCranelift => "Wasmtime (Cranelift)"@,
            VmAndConfig::WasmtimeWinch => "Wasmtime (Winch)"@,
            VmAndConfig::WasmtimePulley => "Wasmtime (Pulley)"@,
            VmAndConfig::WasmerCranelift => "Wasmer (Cranelift)"@,
            VmAndConfig::WasmerSinglepass => "Wasmer (Singlepass)"@,
            VmAndConfig::WasmerWamr => "Wasmer (WAMR)"@,
        }
    }

    /// Returns the label of the Wasm runtime kind.
    pub fn label(&self) -> (r: &'static str)
        ensures
            r@ == self.spec_label(),
    {
        match self {
            VmAndConfig::WasmiOld => "Wasmi v0.31",
            VmAndConfig::WasmiNew => "Wasmi v0.32 (eager)",
            VmAndConfig::WasmiNewUnchecked => "Wasmi v0.32 (eager, unchecked)",
            VmAndConfig::WasmiNewLazyTranslation => "Wasmi v0.32 (lazy-translation)",
            VmAndConfig::WasmiNewLazy => "Wasmi v0.32 (lazy)",
            VmAndConfig::WasmiNewLazyUnchecked => "Wasmi v0.32 (lazy, unchecked)",
            VmAndConfig::Tinywasm => "Tinywasm",
            VmAndConfig::Wasm3 => "Wasm3 (eager)",
            VmAndConfig::Wasm3Lazy => "Wasm3 (lazy)",
            VmAndConfig::Stitch => "Stitch (lazy)",
            VmAndConfig::WasmtimeCranelift => "Wasmtime (Cranelift)",
            VmAndConfig::WasmtimeWinch => "Wasmtime (Winch)",
            VmAndConfig::WasmtimePulley => "Wasmtime (Pulley)",
            VmAndConfig::WasmerCranelift => "Wasmer (Cranelift)",
            VmAndConfig::WasmerSinglepass => "Wasmer (Singlepass)",
            VmAndConfig::WasmerWamr => "Wasmer (WAMR)",
        }
    }

    /// The display color of the variant.
    pub open spec fn spec_color(self) -> Rgb {
        match self {
            VmAndConfig::WasmiOld => Rgb { r: 140, g: 130, b: 50 },
            VmAndConfig::WasmiNew
            | VmAndConfig::WasmiNewUnchecked
            | VmAndConfig::WasmiNewLazyTranslation
            | VmAndConfig::WasmiNewLazy
            | VmAndConfig::WasmiNewLazyUnchecked => Rgb { r: 200, g: 200, b: 70 },
            VmAndConfig::Tinywasm => Rgb { r: 108, g: 140, b: 108 },
            VmAndConfig::Wasm3 | VmAndConfig::Wasm3Lazy => Rgb { r: 90, g: 90, b: 90 },
            VmAndConfig::Stitch => Rgb { r: 220, g: 175, b: 180 },
            VmAndConfig::WasmtimeCranelift
            | VmAndConfig::WasmtimeWinch
            | VmAndConfig::WasmtimePulley => Rgb { r: 140, g: 120, b: 160 },
            VmAndConfig::WasmerCranelift
            | VmAndConfig::WasmerSinglepass
            | VmAndConfig::WasmerWamr => Rgb { r: 95, g: 140, b: 175 },
        }
    }

    /// Returns the color associated to the Wasm runtime kind.
    pub fn color(&self) -> (r: Rgb)
        ensures
            r == self.spec_color(),
    {
        match self {
            VmAndConfig::WasmiOld => Rgb { r: 140, g: 130, b: 50 },
            VmAndConfig::WasmiNew
            | VmAndConfig::WasmiNewUnchecked
            | VmAndConfig::WasmiNewLazyTranslation
            | VmAndConfig::WasmiNewLazy
            | VmAndConfig::WasmiNewLazyUnchecked => Rgb { r: 200, g: 200, b: 70 },
            VmAndConfig::Tinywasm => Rgb { r: 108, g: 140, b: 108 },
            VmAndConfig::Wasm3 | VmAndConfig::Wasm3Lazy => Rgb { r: 90, g: 90, b: 90 },
            VmAndConfig::Stitch => Rgb { r: 220, g: 175, b: 180 },
            VmAndConfig::WasmtimeCranelift
            | VmAndConfig::WasmtimeWinch
            | VmAndConfig::WasmtimePulley => Rgb { r: 140, g: 120, b: 160 },
            VmAndConfig::WasmerCranelift
            | VmAndConfig::WasmerSinglepass
            | VmAndConfig::WasmerWamr => Rgb { r: 95, g: 140, b: 175 },
        }
    }

    /// The position of the variant in the total ordering, following the
    /// declaration order.
    pub open spec fn spec_rank(self) -> u8 {
        match self {
            VmAndConfig::WasmiOld => 0,
            VmAndConfig::WasmiNew => 1,
            VmAndConfig::WasmiNewUnchecked => 2,
            VmAndConfig::WasmiNewLazyTranslation => 3,
            VmAndConfig::WasmiNewLazy => 4,
            VmAndConfig::WasmiNewLazyUnchecked => 5,
            VmAndConfig::Tinywasm => 6,
            VmAndConfig::Wasm3 => 7,
            VmAndConfig::Wasm3Lazy => 8,
            VmAndConfig::Stitch => 9,
            VmAndConfig::WasmtimeCranelift => 10,
            VmAndConfig::WasmtimeWinch => 11,
            VmAndConfig::WasmtimePulley => 12,
            VmAndConfig::WasmerCranelift => 13,
            VmAndConfig::WasmerSinglepass => 14,
            VmAndConfig::WasmerWamr => 15,
        }
    }

    /// Returns the variant's rank in the total ordering.
    pub fn rank(&self) -> (r: u8)
        ensures
            r == self.spec_rank(),
            r < 16,
    {
        match self {
            VmAndConfig::WasmiOld => 0,
            VmAndConfig::WasmiNew => 1,
            VmAndConfig::WasmiNewUnchecked => 2,
            VmAndConfig::WasmiNewLazyTranslation => 3,
            VmAndConfig::WasmiNewLazy => 4,
            VmAndConfig::WasmiNewLazyUnchecked => 5,
            VmAndConfig::Tinywasm => 6,
            VmAndConfig::Wasm3 => 7,
            VmAndConfig::Wasm3Lazy => 8,
            VmAndConfig::Stitch => 9,
            VmAndConfig::WasmtimeCranelift => 10,
            VmAndConfig::WasmtimeWinch => 11,
            VmAndConfig::WasmtimePulley => 12,
            VmAndConfig::WasmerCranelift => 13,
            VmAndConfig::WasmerSinglepass => 14,
            VmAndConfig::WasmerWamr => 15,
        }
    }
}

/// Two variants with the same rank are the same variant.
pub proof fn lemma_rank_injective(a: VmAndConfig, b: VmAndConfig)
    ensures
        a.spec_rank() == b.spec_rank() ==> a == b,
{
}

/// What parsing a variant token yields: the matching variant, or an error
/// for any other token — never a default.
pub open spec fn spec_parse_variant(s: Seq<char>) -> Result<VmAndConfig, ParseError> {
    if s == "wasmi-old"@ {
        Ok(VmAndConfig::WasmiOld)
    } else if s == "wasmi-new.eager.checked"@ {
        Ok(VmAndConfig::WasmiNew)
    } else if s == "wasmi-new.eager.unchecked"@ {
        Ok(VmAndConfig::WasmiNewUnchecked)
    } else if s == "wasmi-new.lazy-translation.checked"@ {
        Ok(VmAndConfig::WasmiNewLazyTranslation)
    } else if s == "wasmi-new.lazy.checked"@ {
        Ok(VmAndConfig::WasmiNewLazy)
    } else if s == "wasmi-new.lazy.unchecked"@ {
        Ok(VmAndConfig::WasmiNewLazyUnchecked)
    } else if s == "tinywasm"@ {
        Ok(VmAndConfig::Tinywasm)
    } else if s == "wasm3.eager"@ {
        Ok(VmAndConfig::Wasm3)
    } else if s == "wasm3.lazy"@ {
        Ok(VmAndConfig::Wasm3Lazy)
    } else if s == "stitch"@ {
        Ok(VmAndConfig::Stitch)
    } else if s == "wasmtime.cranelift"@ {
        Ok(VmAndConfig::WasmtimeCranelift)
    } else if s == "wasmtime.winch"@ {
        Ok(VmAndConfig::WasmtimeWinch)
    } else if s == "wasmtime.pulley"@ {
        Ok(VmAndConfig::WasmtimePulley)
    } else if s == "wasmer.cranelift"@ {
        Ok(VmAndConfig::WasmerCranelift)
    } else if s == "wasmer.singlepass"@ {
        Ok(VmAndConfig::WasmerSinglepass)
    } else if s == "wasmer.wamr"@ {
        Ok(VmAndConfig::WasmerWamr)
    } else {
        Err(ParseError::UnknownVariant)
    }
}

/// Parses a variant token by exact string match.
pub fn parse_variant(s: &str) -> (r: Result<VmAndConfig, ParseError>)
    ensures
        r == spec_parse_variant(s@),
{
    if str_eq(s, "wasmi-old") {
        Ok(VmAndConfig::WasmiOld)
    } else if str_eq(s, "wasmi-new.eager.checked") {
        Ok(VmAndConfig::WasmiNew)
    } else if str_eq(s, "wasmi-new.eager.unchecked") {
        Ok(VmAndConfig::WasmiNewUnchecked)
    } else if str_eq(s, "wasmi-new.lazy-translation.checked") {
        Ok(VmAndConfig::WasmiNewLazyTranslation)
    } else if str_eq(s, "wasmi-new.lazy.checked") {
        Ok(VmAndConfig::WasmiNewLazy)
    } else if str_eq(s, "wasmi-new.lazy.unchecked") {
        Ok(VmAndConfig::WasmiNewLazyUnchecked)
    } else if str_eq(s, "tinywasm") {
        Ok(VmAndConfig::Tinywasm)
    } else if str_eq(s, "wasm3.eager") {
        Ok(VmAndConfig::Wasm3)
    } else if str_eq(s, "wasm3.lazy") {
        Ok(VmAndConfig::Wasm3Lazy)
    } else if str_eq(s, "stitch") {
        Ok(VmAndConfig::Stitch)
    } else if str_eq(s, "wasmtime.cranelift") {
        Ok(VmAndConfig::WasmtimeCranelift)
    } else if str_eq(s, "wasmtime.winch") {
        Ok(VmAndConfig::WasmtimeWinch)
    } else if str_eq(s, "wasmtime.pulley") {
        Ok(VmAndConfig::WasmtimePulley)
    } else if str_eq(s, "wasmer.cranelift") {
        Ok(VmAndConfig::WasmerCranelift)
    } else if str_eq(s, "wasmer.singlepass") {
        Ok(VmAndConfig::WasmerSinglepass)
    } else if str_eq(s, "wasmer.wamr") {
        Ok(VmAndConfig::WasmerWamr)
    } else {
        Err(ParseError::UnknownVariant)
    }
}

/// Every variant's token parses back to that variant.
pub proof fn lemma_variant_token_parses(v: VmAndConfig)
    ensures
        spec_parse_variant(v.spec_token()) == Ok::<VmAndConfig, ParseError>(v),
{
    reveal_strlit("wasmi-old");
    reveal_strlit("wasmi-new.eager.checked");
    reveal_strlit("wasmi-new.eager.unchecked");
    reveal_strlit("wasmi-new.lazy-translation.checked");
    reveal_strlit("wasmi-new.lazy.checked");
    reveal_strlit("wasmi-new.lazy.unchecked");
    reveal_strlit("tinywasm");
    reveal_strlit("wasm3.eager");
    reveal_strlit("wasm3.lazy");
    reveal_strlit("stitch");
    reveal_strlit("wasmtime.cranelift");
    reveal_strlit("wasmtime.winch");
    reveal_strlit("wasmtime.pulley");
    reveal_strlit("wasmer.cranelift");
    reveal_strlit("wasmer.singlepass");
    reveal_strlit("wasmer.wamr");
    assert(("wasmi-old"@).len() == 9);
    assert(("wasmi-new.eager.checked"@).len() == 23);
    assert(("wasmi-new.eager.unchecked"@).len() == 25);
    assert(("wasmi-new.lazy-translation.checked"@).len() == 34);
    assert(("wasmi-new.lazy.checked"@).len() == 22);
    assert(("wasmi-new.lazy.unchecked"@).len() == 24);
    assert(("tinywasm"@).len() == 8);
    assert(("wasm3.eager"@).len() == 11);
    assert(("wasm3.lazy"@).len() == 10);
    assert(("stitch"@).len() == 6);
    assert(("wasmtime.cranelift"@).len() == 18);
    assert(("wasmtime.winch"@).len() == 14);
    assert(("wasmtime.pulley"@).len() == 15);
    assert(("wasmer.cranelift"@).len() == 16);
    assert(("wasmer.singlepass"@).len() == 17);
    assert(("wasmer.wamr"@).len() == 11);
    match v {
        VmAndConfig::WasmiOld => {
        },
        VmAndConfig::WasmiNew => {
        },
        VmAndConfig::WasmiNewUnchecked => {
        },
        VmAndConfig::WasmiNewLazyTranslation => {
        },
        VmAndConfig::WasmiNewLazy => {
        },
        VmAndConfig::WasmiNewLazyUnchecked => {
        },
        VmAndConfig::Tinywasm => {
        },
        VmAndConfig::Wasm3 => {
        },
        VmAndConfig::Wasm3Lazy => {
        },
        VmAndConfig::Stitch => {
        },
        VmAndConfig::WasmtimeCranelift => {
        },
        VmAndConfig::WasmtimeWinch => {
        },
        VmAndConfig::WasmtimePulley => {
        },
        VmAndConfig::WasmerCranelift => {
        },
        VmAndConfig::WasmerSinglepass => {
        },
        VmAndConfig::WasmerWamr => {
            // same length as `wasm3.eager`; they differ in the 5th character
            assert(("wasmer.wamr"@)[4] != ("wasm3.eager"@)[4]);
        },
    }
}

/// A parsed compound identifier.
#[derive(Debug, Clone, PartialEq, Eq)]
pub struct BenchIdentifier {
    pub category: BenchCategory,
    pub name: String,
    pub variant: VmAndConfig,
    pub input: Option<i64>,
}

/// The mathematical value of a [`BenchIdentifier`].
pub ghost struct IdentView {
    pub category: BenchCategory,
    pub name: Seq<char>,
    pub variant: VmAndConfig,
    pub input: Option<i64>,
}

impl View for BenchIdentifier {
    type V = IdentView;

    open spec fn view(&self) -> IdentView {
        IdentView {
            category: self.category,
            name: self.name@,
            variant: self.variant,
            input: self.input,
        }
    }
}

/// What parsing a compound identifier yields.  The string must split on
/// `/` into exactly 3 or 4 parts; the parts are then checked in order:
/// category, variant, and — for 4 parts — the integer input.
pub open spec fn spec_parse_identifier(s: Seq<char>) -> Result<IdentView, ParseError> {
    let parts = split_slash(s);
    if parts.len() != 3 && parts.len() != 4 {
        Err(ParseError::MalformedIdentifier)
    } else {
        match spec_parse_category(parts[0]) {
            Err(e) => Err(e),
            Ok(category) => match spec_parse_variant(parts[2]) {
                Err(e) => Err(e),
                Ok(variant) => if parts.len() == 3 {
                    Ok(IdentView { category, name: parts[1], variant, input: None })
                } else {
                    match spec_parse_i64(parts[3]) {
                        None => Err(ParseError::InvalidInput),
                        Some(v) => Ok(
                            IdentView { category, name: parts[1], variant, input: Some(v) },
                        ),
                    }
                },
            },
        }
    }
}

/// The view of an identifier parse result, for stating contracts.
pub open spec fn ident_result_view(r: Result<BenchIdentifier, ParseError>) -> Result<
    IdentView,
    ParseError,
> {
    match r {
        Ok(id) => Ok(id@),
        Err(e) => Err(e),
    }
}

/// Parses a compound identifier exactly as [`spec_parse_identifier`] says.
pub fn parse_identifier(s: &str) -> (r: Result<BenchIdentifier, ParseError>)
    ensures
        ident_result_view(r) == spec_parse_identifier(s@),
{
    let parts = split_on_slash(s);
    if parts.len() != 3 && parts.len() != 4 {
        return Err(ParseError::MalformedIdentifier);
    }
    let category = match parse_category(parts[0].as_str()) {
        Ok(c) => c,
        Err(e) => {
            return Err(e);
        },
    };
    let variant = match parse_variant(parts[2].as_str()) {
        Ok(v) => v,
        Err(e) => {
            return Err(e);
        },
    };
    let input = if parts.len() == 4 {
        match parse_i64(parts[3].as_str()) {
            Some(v) => Some(v),
            None => {
                return Err(ParseError::InvalidInput);
            },
        }
    } else {
        None
    };
    let name = parts[1].clone();
    Ok(BenchIdentifier { category, name, variant, input })
}

/// A string that holds no `/` separator, so it is one whole part.
pub open spec fn slash_free(s: Seq<char>) -> bool {
    forall|i: int| 0 <= i < s.len() ==> #[trigger] s[i] != '/'
}

/// A slash-free string splits into itself as the only part.
pub proof fn lemma_split_slash_free(s: Seq<char>)
    requires
        slash_free(s),
    ensures
        split_slash(s) == seq![s],
    decreases s.len(),
{
    if s.len() == 0 {
        assert(split_slash(s) =~~= seq![s]);
    } else {
        assert(slash_free(s.skip(1)));
        lemma_split_slash_free(s.skip(1));
        assert(seq![s[0]] + s.skip(1) =~= s);
        assert(split_slash(s) =~~= seq![s]);
    }
}

/// Splitting at the first separator after a slash-free prefix yields the
/// prefix as one part, followed by the split of the remainder.
pub proof fn lemma_split_slash_concat(s1: Seq<char>, s2: Seq<char>)
    requires
        slash_free(s1),
    ensures
        split_slash(s1 + seq!['/'] + s2) == seq![s1] + split_slash(s2),
    decreases s1.len(),
{
    let whole = s1 + seq!['/'] + s2;
    crate::strutil::lemma_split_slash_nonempty(s2);
    if s1.len() == 0 {
        assert(whole[0] == '/');
        assert(whole.skip(1) =~= s2);
        assert(split_slash(whole) =~~= seq![s1] + split_slash(s2));
    } else {
        let t = s1.skip(1);
        assert(slash_free(t));
        lemma_split_slash_concat(t, s2);
        crate::strutil::lemma_split_slash_nonempty(t + seq!['/'] + s2);
        assert(whole[0] == s1[0]);
        assert(whole[0] != '/');
        assert(whole.skip(1) =~= t + seq!['/'] + s2);
        let rest = split_slash(t + seq!['/'] + s2);
        assert(rest == seq![t] + split_slash(s2));
        assert(rest[0] == t);
        assert(rest.skip(1) =~~= split_slash(s2));
        assert(seq![s1[0]] + t =~= s1);
        assert(split_slash(whole) =~~= seq![s1] + split_slash(s2));
    }
}


/// No category token holds a separator.
pub proof fn lemma_category_token_slash_free(c: BenchCategory)
    ensures
        slash_free(c.spec_token()),
{
    reveal_strlit("execute");
    reveal_strlit("compile");
    match c {
        BenchCategory::Execute => {
            assert forall|i: int| 0 <= i < "execute"@.len() implies #[trigger] ("execute"@)[i]
                != '/' by {}
        },
        BenchCategory::Compile => {
            assert forall|i: int| 0 <= i < "compile"@.len() implies #[trigger] ("compile"@)[i]
                != '/' by {}
        },
    }
}

/// No variant token holds a separator.
pub proof fn lemma_variant_token_slash_free(v: VmAndConfig)
    ensures
        slash_free(v.spec_token()),
{
    reveal_strlit("wasmi-old");
    reveal_strlit("wasmi-new.eager.checked");
    reveal_strlit("wasmi-new.eager.unchecked");
    reveal_strlit("wasmi-new.lazy-translation.checked");
    reveal_strlit("wasmi-new.lazy.checked");
    reveal_strlit("wasmi-new.lazy.unchecked");
    reveal_strlit("tinywasm");
    reveal_strlit("wasm3.eager");
    reveal_strlit("wasm3.lazy");
    reveal_strlit("stitch");
    reveal_strlit("wasmtime.cranelift");
    reveal_strlit("wasmtime.winch");
    reveal_strlit("wasmtime.pulley");
    reveal_strlit("wasmer.cranelift");
    reveal_strlit("wasmer.singlepass");
    reveal_strlit("wasmer.wamr");
    assert forall|i: int| 0 <= i < v.spec_token().len() implies #[trigger] v.spec_token()[i]
        != '/' by {}
}

/// For every valid 3-part identifier `category/name/variant` the parse
/// succeeds with exactly those components and no input.
pub proof fn lemma_parse_identifier_three_parts(
    c: BenchCategory,
    name: Seq<char>,
    v: VmAndConfig,
)
    requires
        slash_free(name),
    ensures
        spec_parse_identifier(c.spec_token() + seq!['/'] + name + seq!['/'] + v.spec_token())
            == Ok::<IdentView, ParseError>(
            IdentView { category: c, name, variant: v, input: None },
        ),
{
    lemma_category_token_slash_free(c);
    lemma_variant_token_slash_free(v);
    let tail = name + seq!['/'] + v.spec_token();
    let whole = c.spec_token() + seq!['/'] + tail;
    assert(c.spec_token() + seq!['/'] + name + seq!['/'] + v.spec_token() =~= whole);
    lemma_split_slash_concat(c.spec_token(), tail);
    lemma_split_slash_concat(name, v.spec_token());
    lemma_split_slash_free(v.spec_token());
    let parts = split_slash(whole);
    assert(parts =~~= seq![c.spec_token(), name, v.spec_token()]);
    lemma_category_token_parses(c);
    lemma_variant_token_parses(v);
}

/// For every valid 4-part identifier `category/name/variant/input` the
/// parse succeeds, and the 4th component round-trips as the integer input.
pub proof fn lemma_parse_identifier_four_parts(
    c: BenchCategory,
    name: Seq<char>,
    v: VmAndConfig,
    num: Seq<char>,
)
    requires
        slash_free(name),
        spec_parse_i64(num) is Some,
    ensures
        spec_parse_identifier(
            c.spec_token() + seq!['/'] + name + seq!['/'] + v.spec_token() + seq!['/'] + num,
        ) == Ok::<IdentView, ParseError>(
            IdentView { category: c, name, variant: v, input: spec_parse_i64(num) },
        ),
{
    lemma_category_token_slash_free(c);
    lemma_variant_token_slash_free(v);
    lemma_parse_i64_slash_free(num);
    let tail2 = v.spec_token() + seq!['/'] + num;
    let tail1 = name + seq!['/'] + tail2;
    let whole = c.spec_token() + seq!['/'] + tail1;
    assert(c.spec_token() + seq!['/'] + name + seq!['/'] + v.spec_token() + seq!['/'] + num
        =~= whole);
    lemma_split_slash_concat(c.spec_token(), tail1);
    lemma_split_slash_concat(name, tail2);
    lemma_split_slash_concat(v.spec_token(), num);
    lemma_split_slash_free(num);
    let parts = split_slash(whole);
    assert(parts =~~= seq![c.spec_token(), name, v.spec_token(), num]);
    lemma_category_token_parses(c);
    lemma_variant_token_parses(v);
}

/// A string that parses as an integer holds only sign and digit
/// characters, so it is slash-free.
pub proof fn lemma_parse_i64_slash_free(num: Seq<char>)
    requires
        spec_parse_i64(num) is Some,
    ensures
        slash_free(num),
{
    let signed = num.len() > 0 && (num[0] == '+' || num[0] == '-');
    let digits = if signed {
        num.skip(1)
    } else {
        num
    };
    assert(all_digits(digits));
    assert forall|i: int| 0 <= i < num.len() implies #[trigger] num[i] != '/' by {
        if signed && i == 0 {
        } else if signed {
            assert(digits[i - 1] == num[i]);
            assert(is_digit(digits[i - 1]));
        } else {
            assert(is_digit(digits[i]));
        }
    }
}

} // verus!
