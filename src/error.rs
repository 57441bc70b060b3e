//! The one error type of a decode.

use vstd::prelude::*;
use crate::document::DocumentError;

verus! {

/// Why a decode failed. A decode reports the first failure met, depth first.
#[derive(Debug)]
pub enum Error {
    /// A value does not have the structural kind expected; the text says which.
    InvalidType(String),
    /// The envelope holds neither `data` nor `errors`.
    IncompleteDocument,
    MissingId,
    MissingResourceType,
    MissingAttributes,
    MissingRelationships,
    /// A required field is absent; it carries the field's name.
    MissingField(String),
    /// A reference names a resource that the document does not hold.
    MissingResource { kind: String, id: String },
    /// A resource was asked for as a type other than the one it has.
    ResourceTypeMismatch { expected: String, found: String },
    /// The document is an error response; it carries every error object in it.
    DocumentError(Vec<DocumentError>),
    /// The text is not well-formed JSON; it carries the parser's message.
    SerdeError(String),
}

} // verus!
