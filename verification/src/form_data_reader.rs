//! Decoding of `multipart/form-data` payloads: a part splitter working on raw
//! bytes, a `Content-Disposition` attribute parser, a header parser that
//! assembles one typed field per part, and a queryable, order-preserving
//! collection of the decoded fields.
pub mod content_disposition_parser;
pub mod content_iterator;
pub mod form_data_item;
pub mod form_data_reader;
pub mod mappers;

use vstd::prelude::*;

verus! {

/// Failures of form-data decoding and of field access.
///
/// The first four variants abort a decode: once one part's structure is
/// broken, the span boundaries of the later parts cannot be trusted. The
/// last two are local to a single field lookup or coercion.
#[derive(Debug)]
pub enum ReadingFromDataError {
    /// A header line has no `:` separator.
    MalformedHeader,
    /// A header name, attribute key, attribute value or text-field body is
    /// not valid UTF-8.
    InvalidUtf8,
    /// `name` (or, for a file field, `filename`) is absent from the
    /// `Content-Disposition` header.
    MissingMandatoryAttribute,
    /// A part ends before its blank-line header terminator, or the payload
    /// ends without the closing boundary marker.
    UnterminatedPart,
    /// `get_required` found no field with the given name.
    ParameterMissing(String),
    /// A typed coercion of a field failed.
    ValidationError { field: String, error: String },
}

impl ReadingFromDataError {
    /// Whether this error aborts a whole decode, as opposed to failing one
    /// field access.
    pub open spec fn is_structural(&self) -> bool {
        match self {
            ReadingFromDataError::MalformedHeader => true,
            ReadingFromDataError::InvalidUtf8 => true,
            ReadingFromDataError::MissingMandatoryAttribute => true,
            ReadingFromDataError::UnterminatedPart => true,
            ReadingFromDataError::ParameterMissing(_) => false,
            ReadingFromDataError::ValidationError { .. } => false,
        }
    }
}

} // verus!
