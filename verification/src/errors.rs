//! The error taxonomy: parse errors for malformed records and fatal
//! consistency errors for a corrupted event stream.

use vstd::prelude::*;

verus! {

/// A field of a measurement record that may be missing or mistyped.
#[derive(Debug, Clone, Copy, PartialEq, Eq, Structural)]
pub enum Field {
    /// The compound identifier string under the key `id`.
    Id,
    /// The nested object under the key `typical`.
    Typical,
    /// The numeric scalar under `typical.estimate`.
    Estimate,
    /// The unit string under `typical.unit`.
    Unit,
}

/// An error while decoding one event record or one of its components.
#[derive(Debug, Clone, Copy, PartialEq, Eq, Structural)]
pub enum ParseError {
    /// A category token that matches no known benchmark category.
    UnknownCategory,
    /// A variant token that matches no known runtime variant.
    UnknownVariant,
    /// A compound identifier that does not split into 3 or 4 parts.
    MalformedIdentifier,
    /// A 4th identifier component that is not a valid integer input.
    InvalidInput,
    /// A measurement record with a missing or mistyped field.
    MissingField(Field),
    /// A record that is not a well-formed object with a known tag.
    UnrecognizedEvent,
}

/// A consistency error while folding measurements into a group; any such
/// error is fatal to the whole batch.
#[derive(Debug, Clone, Copy, PartialEq, Eq, Structural)]
pub enum FatalError {
    /// A measurement whose `(category, name, input)` key differs from the
    /// key of the currently open group.
    InconsistentGroup,
    /// A runtime variant that reported twice within one group.
    DuplicateVariant,
}

} // verus!
