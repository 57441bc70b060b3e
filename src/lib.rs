//! Materialises a typed, possibly cyclic graph of JSON:API resources from one
//! document, with every resource of the graph owned by one arena.

pub mod deserialize;
pub mod document;
pub mod error;
pub mod fields;
pub mod holder;
pub mod included;
pub mod json;

pub use deserialize::{deserialize_document, deserialize_value, Document};
pub use document::{
    DocumentError, DocumentLinks, ErrorLinks, ErrorSource, Link, RawMultipleRelationship,
    RawOptionalRelationship, RawSingleRelationship, Reference,
};
pub use error::Error;
pub use error::Error as DeserializeError;
pub use holder::{Handle, Holder, JsonApiDrop};
pub use included::{IncludedMap, JsonApiDeserialize, RawResource};
pub use json::JsonValue;
