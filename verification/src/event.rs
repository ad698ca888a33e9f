//! The event decoder: one line of JSON text becomes one typed event —
//! a completed measurement or a group-finished marker — or a parse
//! error.  The decoder fails closed: any record that is not a
//! well-formed object with a known tag is an error.
//!
//! JSON itself is read through `serde_json` behind trusted wrappers; the
//! fields a line carries are deterministic in the line and are named by
//! [`record_of`].  All dispatching and validation runs on those plain
//! values, in [`decode_fields`], whose contract is exact, so
//! [`decode_line`]'s contract pins the whole decoder.

use vstd::prelude::*;

use crate::errors::Field;
use crate::errors::FatalError;
use crate::errors::ParseError;
use crate::estimate::lemma_parse_decimal_wf;
use crate::estimate::parse_decimal;
use crate::estimate::spec_parse_decimal;
use crate::estimate::Estimate;
use crate::group::AccView;
use crate::group::Accumulator;
use crate::group::BenchGroup;
use crate::group::Measurement;
use crate::group::MeasurementView;
use crate::group::spec_feed;
use crate::ident::ident_result_view;
use crate::ident::parse_identifier;
use crate::ident::spec_parse_identifier;
use crate::strutil::str_eq;

verus! {

#[verifier::external_type_specification]
#[verifier::external_body]
pub struct ExValue(serde_json::Value);

#[verifier::external_type_specification]
#[verifier::external_body]
pub struct ExNumber(serde_json::Number);

/// Relies on `serde_json::from_str`: parses one line of JSON text into a
/// JSON value, or nothing when the text is not well-formed JSON.
#[verifier::external_body]
fn json_parse(s: &str) -> (r: Option<serde_json::Value>) {
    serde_json::from_str(s).ok()
}

/// Relies on `serde_json::Value::get`: the value under `key` when `v` is
/// an object holding that key.
#[verifier::external_body]
fn value_get<'a>(v: &'a serde_json::Value, key: &str) -> (r: Option<&'a serde_json::Value>) {
    v.get(key)
}

/// Relies on `serde_json::Value::as_str`: the string content when `v` is
/// a JSON string.
#[verifier::external_body]
fn value_as_str<'a>(v: &'a serde_json::Value) -> (r: Option<&'a str>) {
    v.as_str()
}

/// Relies on `serde_json::Value::as_number`: the number when `v` is a
/// JSON number.
#[verifier::external_body]
fn value_as_number<'a>(v: &'a serde_json::Value) -> (r: Option<&'a serde_json::Number>) {
    v.as_number()
}

/// Relies on `Display for serde_json::Number`: the number's decimal
/// text.
#[verifier::external_body]
fn number_text(n: &serde_json::Number) -> (r: String) {
    n.to_string()
}

/// The decoder-relevant fields of one parsed record, as plain values:
/// each field is present exactly when the record holds it with the
/// expected JSON type.
#[derive(Debug, Clone, PartialEq, Eq)]
pub struct RawRecord {
    /// The tag under `reason`, when it is a string.
    pub reason: Option<String>,
    /// The compound identifier under `id`, when it is a string.
    pub id: Option<String>,
    /// Whether the record holds a `typical` field at all.
    pub has_typical: bool,
    /// The decimal text of `typical.estimate`, when it is a number.
    pub estimate: Option<String>,
    /// The unit under `typical.unit`, when it is a string.
    pub unit: Option<String>,
}

/// The mathematical value of a [`RawRecord`].
pub ghost struct RawView {
    pub reason: Option<Seq<char>>,
    pub id: Option<Seq<char>>,
    pub has_typical: bool,
    pub estimate: Option<Seq<char>>,
    pub unit: Option<Seq<char>>,
}

impl View for RawRecord {
    type V = RawView;

    open spec fn view(&self) -> RawView {
        RawView {
            reason: match self.reason {
                Some(ref s) => Some(s@),
                None => None,
            },
            id: match self.id {
                Some(ref s) => Some(s@),
                None => None,
            },
            has_typical: self.has_typical,
            estimate: match self.estimate {
                Some(ref s) => Some(s@),
                None => None,
            },
            unit: match self.unit {
                Some(ref s) => Some(s@),
                None => None,
            },
        }
    }
}

/// Pulls the decoder-relevant fields out of one parsed record.  What
/// each field holds is opaque to verification; everything decided from
/// them is decided in [`decode_fields`].
fn extract_record(v: &serde_json::Value) -> RawRecord {
    let reason = match value_get(v, "reason") {
        Some(x) => match value_as_str(x) {
            Some(s) => Some(s.to_owned()),
            None => None,
        },
        None => None,
    };
    let id = match value_get(v, "id") {
        Some(x) => match value_as_str(x) {
            Some(s) => Some(s.to_owned()),
            None => None,
        },
        None => None,
    };
    let typical = value_get(v, "typical");
    let has_typical = typical.is_some();
    let estimate = match typical {
        Some(t) => match value_get(t, "estimate") {
            Some(e) => match value_as_number(e) {
                Some(n) => Some(number_text(n)),
                None => None,
            },
            None => None,
        },
        None => None,
    };
    let unit = match typical {
        Some(t) => match value_get(t, "unit") {
            Some(u) => match value_as_str(u) {
                Some(s) => Some(s.to_owned()),
                None => None,
            },
            None => None,
        },
        None => None,
    };
    RawRecord { reason, id, has_typical, estimate, unit }
}

/// One decoded event.
#[derive(Debug, Clone, PartialEq, Eq)]
pub enum Event {
    /// A completed measurement.
    Measurement(Measurement),
    /// The currently open group is finished.
    GroupComplete,
}

/// The mathematical value of an [`Event`].
pub ghost enum EventView {
    Measurement(MeasurementView),
    GroupComplete,
}

impl View for Event {
    type V = EventView;

    open spec fn view(&self) -> EventView {
        match self {
            Event::Measurement(m) => EventView::Measurement(m@),
            Event::GroupComplete => EventView::GroupComplete,
        }
    }
}

/// What decoding a record's fields yields.  A record tagged
/// `measurement-complete` must carry a parseable identifier, a `typical`
/// object with a representable numeric estimate, and a unit string; a
/// record tagged `group-complete` needs nothing more; any other tag — or
/// no string tag at all — is unrecognized.
pub open spec fn spec_decode_fields(raw: RawView) -> Result<EventView, ParseError> {
    match raw.reason {
        None => Err(ParseError::UnrecognizedEvent),
        Some(reason) => if reason == "measurement-complete"@ {
            match raw.id {
                None => Err(ParseError::MissingField(Field::Id)),
                Some(id_text) => match spec_parse_identifier(id_text) {
                    Err(e) => Err(e),
                    Ok(id) => if !raw.has_typical {
                        Err(ParseError::MissingField(Field::Typical))
                    } else {
                        match raw.estimate {
                            None => Err(ParseError::MissingField(Field::Estimate)),
                            Some(est_text) => match spec_parse_decimal(est_text) {
                                None => Err(ParseError::MissingField(Field::Estimate)),
                                Some(est) => match raw.unit {
                                    None => Err(ParseError::MissingField(Field::Unit)),
                                    Some(unit) => Ok(
                                        EventView::Measurement(
                                            MeasurementView { id, estimate: est, unit },
                                        ),
                                    ),
                                },
                            },
                        }
                    },
                },
            }
        } else if reason == "group-complete"@ {
            Ok(EventView::GroupComplete)
        } else {
            Err(ParseError::UnrecognizedEvent)
        },
    }
}

/// The view of a decode result, for stating contracts.
pub open spec fn event_result_view(r: Result<Event, ParseError>) -> Result<
    EventView,
    ParseError,
> {
    match r {
        Ok(e) => Ok(e@),
        Err(e) => Err(e),
    }
}

/// Decodes the fields of one record, exactly as [`spec_decode_fields`]
/// says; a decoded measurement carries a well-formed estimate.
pub fn decode_fields(raw: &RawRecord) -> (r: Result<Event, ParseError>)
    ensures
        event_result_view(r) == spec_decode_fields(raw@),
        r matches Ok(e) ==> match e@ {
            EventView::Measurement(m) => m.estimate.wf(),
            EventView::GroupComplete => true,
        },
{
    let reason = match raw.reason {
        Some(ref s) => s,
        None => {
            return Err(ParseError::UnrecognizedEvent);
        },
    };
    if str_eq(reason.as_str(), "measurement-complete") {
        let id_text = match raw.id {
            Some(ref s) => s,
            None => {
                return Err(ParseError::MissingField(Field::Id));
            },
        };
        let id = match parse_identifier(id_text.as_str()) {
            Ok(id) => id,
            Err(e) => {
                return Err(e);
            },
        };
        if !raw.has_typical {
            return Err(ParseError::MissingField(Field::Typical));
        }
        let est_text = match raw.estimate {
            Some(ref s) => s,
            None => {
                return Err(ParseError::MissingField(Field::Estimate));
            },
        };
        let estimate = match parse_decimal(est_text.as_str()) {
            Some(e) => e,
            None => {
                return Err(ParseError::MissingField(Field::Estimate));
            },
        };
        proof {
            lemma_parse_decimal_wf(est_text@);
        }
        let unit = match raw.unit {
            Some(ref s) => s.clone(),
            None => {
                return Err(ParseError::MissingField(Field::Unit));
            },
        };
        Ok(Event::Measurement(Measurement { id, estimate, unit }))
    } else if str_eq(reason.as_str(), "group-complete") {
        Ok(Event::GroupComplete)
    } else {
        Err(ParseError::UnrecognizedEvent)
    }
}

/// What reading the decoder-relevant fields of one line yields: a
/// function of the line alone.  The JSON parse, the object lookups and
/// the number's decimal text are all deterministic, so the same line
/// always carries the same fields.
pub uninterp spec fn record_of(line: Seq<char>) -> RawView;

/// Reads one input line's decoder-relevant fields as plain values.
///
/// Relies on `serde_json::from_str` and the `Value` accessors behind the
/// wrappers above, which depend on the line alone.  A line that is not
/// well-formed JSON, or not an object, yields a record with no fields
/// present, which [`decode_fields`] rejects as unrecognized.
#[verifier::external_body]
fn read_record(line: &str) -> (r: RawRecord)
    ensures
        r@ == record_of(line@),
{
    match json_parse(line) {
        None => RawRecord {
            reason: None,
            id: None,
            has_typical: false,
            estimate: None,
            unit: None,
        },
        Some(v) => extract_record(&v),
    }
}

/// Decodes one input line: exactly what [`spec_decode_fields`] yields on
/// the fields the line carries ([`record_of`]).  Any decoded measurement
/// satisfies the invariants the accumulator and the chart rely on.
pub fn decode_line(line: &str) -> (r: Result<Event, ParseError>)
    ensures
        event_result_view(r) == spec_decode_fields(record_of(line@)),
        r matches Ok(e) ==> match e@ {
            EventView::Measurement(m) => m.estimate.wf(),
            EventView::GroupComplete => true,
        },
{
    let raw = read_record(line);
    decode_fields(&raw)
}

/// Applies one decoded event to the accumulator: a measurement folds in
/// (a consistency violation is fatal), and a group-finished marker
/// flushes the open group for rendering.
pub fn process_event(acc: Accumulator, ev: Event) -> (r: Result<
    (Accumulator, Option<BenchGroup>),
    FatalError,
>)
    ensures
        match ev@ {
            EventView::Measurement(m) => match spec_feed(acc@, m) {
                Ok(a) => r matches Ok(p) && p.0@ == a && p.1 is None,
                Err(e) => r == Err::<(Accumulator, Option<BenchGroup>), FatalError>(e),
            },
            EventView::GroupComplete => r matches Ok(p) && p.0@ == AccView::Idle && (match acc@ {
                AccView::Open(g) => p.1 matches Some(out) && out@ == g,
                AccView::Idle => p.1 is None,
            }),
        },
{
    match ev {
        Event::Measurement(m) => match acc.feed_measurement(m) {
            Ok(next) => Ok((next, None)),
            Err(e) => Err(e),
        },
        Event::GroupComplete => {
            let (next, flushed) = acc.feed_flush();
            Ok((next, flushed))
        },
    }
}

} // verus!
