use vstd::prelude::*;

verus! {

/// Why a batch failed to decode.
///
/// Every failure is fatal to the batch that produced it: the decoder never
/// substitutes defaults for required data, so a caller either gets a fully
/// typed result or one of these.
#[derive(Debug, PartialEq, Eq)]
pub enum DecodeError {
    /// A column's physical encoding is none of the encodings recognised for
    /// the semantic type the caller asked for.
    TypeMismatch { field: String, expected: String, actual: String },
    /// A column that the record shape requires is absent from the batch.
    MissingColumn { name: String },
    /// A required sub-field of a struct column is null for some row.
    MissingField { field: String, container: String },
    /// A decimal text failed to parse as a scientific number, or an
    /// exponent failed to parse as a 32-bit integer.
    Parse { text: String },
    /// An integer value does not fit the signed range the caller requires
    /// (the 64-bit widened form, or the 32-bit domain form).
    IntOutOfRange { value: i128 },
}

} // verus!
