//! Errors of the persistence layer.
use vstd::prelude::*;

use arrow_schema::ArrowError;

verus! {

/// The columnar format library's error, carried through unchanged.
#[verifier::external_type_specification]
#[verifier::external_body]
pub struct ExArrowError(ArrowError);

/// What can go wrong while converting, storing or reading columnar data.
#[derive(Debug)]
pub enum PersistenceError {
    /// The columnar format library refused an operation.
    ArrowError(ArrowError),
    /// A stored batch does not have the shape the column model expects.
    SchemaMismatch { expected: String, found: String },
    /// A column the column model needs is missing or has another type.
    ColumnNotFound { column_name: String },
    /// The columns of a batch do not all have the same length: the first
    /// has `first_len` values, another `other_len`.
    ColumnLengthMismatch { first_len: usize, other_len: usize },
    /// A stored integer code names no variant of its enumeration.
    TypeConversion { message: String },
    /// A file operation failed; the text is the underlying error's.
    Io(String),
    /// Encoding or decoding failed for another reason.
    Serialization(String),
    /// Work moved off the calling task did not complete.
    TaskJoin(String),
}

} // verus!
