//! The pieces of a JSON:API document: references, relationship objects and the
//! members of an error response.

use vstd::prelude::*;
use crate::error::Error;
use crate::json::{same_optional_tree, JsonValue};

verus! {

/// The identity of a resource: its kind (`type` on the wire) and its id.
#[derive(Debug, Clone, Default)]
pub struct Reference {
    pub id: String,
    pub kind: String,
}

impl View for Reference {
    /// `(kind, id)`.
    type V = (Seq<char>, Seq<char>);

    open spec fn view(&self) -> (Seq<char>, Seq<char>) {
        (self.kind@, self.id@)
    }
}

impl PartialEq for Reference {
    fn eq(&self, o: &Reference) -> (r: bool) {
        self.id == o.id && self.kind == o.kind
    }
}

impl vstd::std_specs::cmp::PartialEqSpecImpl for Reference {
    open spec fn obeys_eq_spec() -> bool {
        true
    }

    open spec fn eq_spec(&self, o: &Reference) -> bool {
        self@ == o@
    }
}

impl Eq for Reference {}

/// The text of the member `key` of `v`, where that member is a string.
pub open spec fn string_member(v: JsonValue, key: Seq<char>) -> Option<Seq<char>> {
    match v.member(key) {
        Some(JsonValue::Str(s)) => Some(s@),
        _ => None,
    }
}

/// The `(kind, id)` that a resource identifier object `{type, id}` names.
pub open spec fn reference_of(v: JsonValue) -> Option<(Seq<char>, Seq<char>)> {
    match (string_member(v, "type"@), string_member(v, "id"@)) {
        (Some(k), Some(i)) => Some((k, i)),
        _ => None,
    }
}

/// Reads the member `key` of `v` as a string.
fn string_field(v: &JsonValue, key: &str) -> (r: Option<String>)
    ensures
        r matches Some(s) ==> string_member(*v, key@) == Some(s@),
        r is None ==> string_member(*v, key@) is None,
{
    match v.get(key) {
        Some(m) => match m.as_str() {
            Some(s) => Some(s.clone()),
            None => None,
        },
        None => None,
    }
}

impl Reference {
    /// Reads a resource identifier object `{ "type": .., "id": .. }`.
    pub fn from_json(v: &JsonValue) -> (r: Result<Reference, Error>)
        ensures
            r is Ok <==> reference_of(*v) is Some,
            r matches Ok(x) ==> reference_of(*v) == Some(x@),
            r matches Err(e) ==> e is InvalidType,
    {
        let kind = string_field(v, "type");
        let id = string_field(v, "id");
        match (kind, id) {
            (Some(kind), Some(id)) => Ok(Reference { id, kind }),
            _ => Err(Error::InvalidType("Expected a resource identifier".to_owned())),
        }
    }
}

/// The relationship object of a to-one relationship: `{ "data": {type, id} }`.
#[derive(Debug)]
pub struct RawSingleRelationship {
    pub data: Reference,
}

/// The relationship object of a to-one relationship that may be empty:
/// `{ "data": {type, id} | null }`.
#[derive(Debug)]
pub struct RawOptionalRelationship {
    pub data: Option<Reference>,
}

/// The relationship object of a to-many relationship: `{ "data": [{type, id}, ..] }`.
#[derive(Debug)]
pub struct RawMultipleRelationship {
    pub data: Vec<Reference>,
}

/// The target that a to-one relationship object names.
pub open spec fn single_target(v: JsonValue) -> Option<(Seq<char>, Seq<char>)> {
    match v.member("data"@) {
        Some(d) => reference_of(d),
        None => None,
    }
}

/// What a relationship object that may be empty names: `Some(None)` for an
/// absent or null `data`, `None` where `data` is neither null nor a reference.
pub open spec fn optional_target(v: JsonValue) -> Option<Option<(Seq<char>, Seq<char>)>> {
    match v.member("data"@) {
        None => Some(None),
        Some(JsonValue::Null) => Some(None),
        Some(d) => match reference_of(d) {
            Some(t) => Some(Some(t)),
            None => None,
        },
    }
}

/// The elements of the `data` array of a to-many relationship object.
pub open spec fn multiple_data(v: JsonValue) -> Option<Seq<JsonValue>> {
    match v.member("data"@) {
        Some(JsonValue::Array(a)) => Some(a@),
        _ => None,
    }
}

/// Whether `refs` names, in order, the targets of the identifier objects `items`.
pub open spec fn names_in_order(refs: Seq<Reference>, items: Seq<JsonValue>) -> bool {
    &&& refs.len() == items.len()
    &&& forall|i: int| 0 <= i < items.len() ==> reference_of(#[trigger] items[i]) == Some(refs[i]@)
}

/// Whether every element of `items` is a resource identifier object.
pub open spec fn all_references(items: Seq<JsonValue>) -> bool {
    forall|i: int| 0 <= i < items.len() ==> (#[trigger] reference_of(items[i])) is Some
}

impl RawSingleRelationship {
    pub fn from_json(v: &JsonValue) -> (r: Result<RawSingleRelationship, Error>)
        ensures
            r is Ok <==> single_target(*v) is Some,
            r matches Ok(x) ==> single_target(*v) == Some(x.data@),
            r matches Err(e) ==> e is InvalidType,
    {
        match v.get("data") {
            Some(d) => {
                let data = Reference::from_json(d)?;
                Ok(RawSingleRelationship { data })
            },
            None => Err(Error::InvalidType("Expected a relationship with data".to_owned())),
        }
    }
}

impl RawOptionalRelationship {
    pub fn from_json(v: &JsonValue) -> (r: Result<RawOptionalRelationship, Error>)
        ensures
            r is Ok <==> optional_target(*v) is Some,
            r matches Ok(x) ==> optional_target(*v) == Some(
                match x.data {
                    Some(t) => Some(t@),
                    None => None,
                },
            ),
            r matches Err(e) ==> e is InvalidType,
    {
        match v.get("data") {
            None => Ok(RawOptionalRelationship { data: None }),
            Some(d) => {
                if d.is_null() {
                    Ok(RawOptionalRelationship { data: None })
                } else {
                    let t = Reference::from_json(d)?;
                    Ok(RawOptionalRelationship { data: Some(t) })
                }
            },
        }
    }
}

impl RawMultipleRelationship {
    /// Reads the targets of a to-many relationship, in the order of the array.
    pub fn from_json(v: &JsonValue) -> (r: Result<RawMultipleRelationship, Error>)
        ensures
            r is Ok <==> (multiple_data(*v) matches Some(items) && all_references(items)),
            r matches Ok(x) ==> names_in_order(x.data@, multiple_data(*v)->0),
            r matches Err(e) ==> e is InvalidType,
    {
        let items = match v.get("data") {
            Some(d) => match d.as_array() {
                Some(a) => a,
                None => {
                    return Err(Error::InvalidType("Expected an array".to_owned()));
                },
            },
            None => {
                return Err(Error::InvalidType("Expected an array".to_owned()));
            },
        };
        let mut data: Vec<Reference> = Vec::new();
        let mut i: usize = 0;
        while i < items.len()
            invariant
                i <= items@.len(),
                data@.len() == i,
                multiple_data(*v) == Some(items@),
                forall|j: int| 0 <= j < i ==> reference_of(#[trigger] items@[j]) == Some(data@[j]@),
            decreases items@.len() - i,
        {
            match Reference::from_json(&items[i]) {
                Ok(t) => data.push(t),
                Err(e) => {
                    assert(!all_references(items@));
                    return Err(e);
                },
            }
            i += 1;
        }
        Ok(RawMultipleRelationship { data })
    }
}

/// What the member `key` of `v` holds where it may be a string: `Some(None)`
/// when it is absent or null, `None` when it is something else.
pub open spec fn optional_string_member(v: JsonValue, key: Seq<char>) -> Option<Option<Seq<char>>> {
    match v.member(key) {
        None => Some(None),
        Some(JsonValue::Null) => Some(None),
        Some(JsonValue::Str(s)) => Some(Some(s@)),
        _ => None,
    }
}

/// The text of an optional string.
pub open spec fn text_of(o: Option<String>) -> Option<Seq<char>> {
    match o {
        Some(s) => Some(s@),
        None => None,
    }
}

/// Reads the member `key` of `v`, which must be absent, null or a string.
pub fn optional_string(v: &JsonValue, key: &str) -> (r: Result<Option<String>, Error>)
    ensures
        r is Ok <==> optional_string_member(*v, key@) is Some,
        r matches Ok(o) ==> optional_string_member(*v, key@) == Some(text_of(o)),
        r matches Err(e) ==> e is InvalidType,
{
    match v.get(key) {
        None => Ok(None),
        Some(m) => match m {
            JsonValue::Null => Ok(None),
            JsonValue::Str(s) => Ok(Some(s.clone())),
            _ => Err(Error::InvalidType("Expected a string".to_owned())),
        },
    }
}

/// A link: its target, written as a string or as an object with `href`.
#[derive(Debug)]
pub struct Link {
    pub href: String,
}

/// The target of a link written as `v`: the string itself, or the `href` of an object.
pub open spec fn link_target(v: JsonValue) -> Option<Seq<char>> {
    match v {
        JsonValue::Str(s) => Some(s@),
        _ => string_member(v, "href"@),
    }
}

/// The target of the link under `key` of `v`.
pub open spec fn member_link(v: JsonValue, key: Seq<char>) -> Option<Seq<char>> {
    match v.member(key) {
        Some(m) => link_target(m),
        None => None,
    }
}

/// The target of an optional link.
pub open spec fn href_of(l: Option<Link>) -> Option<Seq<char>> {
    match l {
        Some(l) => Some(l.href@),
        None => None,
    }
}

impl Link {
    /// Reads a link; `None` where `v` is neither form.
    pub fn from_json(v: &JsonValue) -> (r: Option<Link>)
        ensures
            href_of(r) == link_target(*v),
    {
        match v {
            JsonValue::Str(s) => Some(Link { href: s.clone() }),
            _ => match string_field(v, "href") {
                Some(href) => Some(Link { href }),
                None => None,
            },
        }
    }
}

/// Reads the link under `key` of `v`, where there is one.
fn link_member(v: &JsonValue, key: &str) -> (r: Option<Link>)
    ensures
        href_of(r) == member_link(*v, key@),
{
    match v.get(key) {
        Some(m) => Link::from_json(m),
        None => None,
    }
}

/// The links of an error object.
#[derive(Debug)]
pub struct ErrorLinks {
    pub about: Option<Link>,
    /// The member `type`.
    pub kind: Option<Link>,
}

impl ErrorLinks {
    pub fn from_json(v: &JsonValue) -> (r: ErrorLinks)
        ensures
            href_of(r.about) == member_link(*v, "about"@),
            href_of(r.kind) == member_link(*v, "type"@),
    {
        ErrorLinks { about: link_member(v, "about"), kind: link_member(v, "type") }
    }
}

/// Where in the request an error was found.
#[derive(Debug)]
pub struct ErrorSource {
    pub pointer: Option<String>,
    pub parameter: Option<String>,
    pub header: Option<String>,
}

/// Whether `v` is a well-formed error source object.
pub open spec fn error_source_ok(v: JsonValue) -> bool {
    &&& optional_string_member(v, "pointer"@) is Some
    &&& optional_string_member(v, "parameter"@) is Some
    &&& optional_string_member(v, "header"@) is Some
}

impl ErrorSource {
    pub fn from_json(v: &JsonValue) -> (r: Result<ErrorSource, Error>)
        ensures
            r is Ok <==> error_source_ok(*v),
            r matches Err(e) ==> e is InvalidType,
            r matches Ok(x) ==> {
                &&& optional_string_member(*v, "pointer"@) == Some(text_of(x.pointer))
                &&& optional_string_member(*v, "parameter"@) == Some(text_of(x.parameter))
                &&& optional_string_member(*v, "header"@) == Some(text_of(x.header))
            },
    {
        let pointer = optional_string(v, "pointer")?;
        let parameter = optional_string(v, "parameter")?;
        let header = optional_string(v, "header")?;
        Ok(ErrorSource { pointer, parameter, header })
    }
}

/// The links of a document.
#[derive(Debug)]
pub struct DocumentLinks {
    /// The member `self`.
    pub this: Option<Link>,
    pub related: Option<Link>,
    /// The member `describedby`.
    pub described_by: Option<Link>,
    pub first: Option<Link>,
    pub last: Option<Link>,
    pub prev: Option<Link>,
    pub next: Option<Link>,
}

impl DocumentLinks {
    /// Reads the links object of a document; a member that is no link is left out.
    pub fn from_json(v: &JsonValue) -> (r: DocumentLinks)
        ensures
            href_of(r.this) == member_link(*v, "self"@),
            href_of(r.related) == member_link(*v, "related"@),
            href_of(r.described_by) == member_link(*v, "describedby"@),
            href_of(r.first) == member_link(*v, "first"@),
            href_of(r.last) == member_link(*v, "last"@),
            href_of(r.prev) == member_link(*v, "prev"@),
            href_of(r.next) == member_link(*v, "next"@),
    {
        DocumentLinks {
            this: link_member(v, "self"),
            related: link_member(v, "related"),
            described_by: link_member(v, "describedby"),
            first: link_member(v, "first"),
            last: link_member(v, "last"),
            prev: link_member(v, "prev"),
            next: link_member(v, "next"),
        }
    }
}

/// One error object of an error response.
#[derive(Debug)]
pub struct DocumentError {
    pub id: Option<String>,
    pub links: Option<ErrorLinks>,
    pub status: Option<String>,
    pub code: Option<String>,
    pub title: Option<String>,
    pub detail: Option<String>,
    pub source: Option<ErrorSource>,
    pub meta: Option<JsonValue>,
}

/// Whether `v` is a well-formed error object.
pub open spec fn error_object_ok(v: JsonValue) -> bool {
    &&& v is Object
    &&& optional_string_member(v, "id"@) is Some
    &&& optional_string_member(v, "status"@) is Some
    &&& optional_string_member(v, "code"@) is Some
    &&& optional_string_member(v, "title"@) is Some
    &&& optional_string_member(v, "detail"@) is Some
    &&& match v.member("source"@) {
        None | Some(JsonValue::Null) => true,
        Some(s) => error_source_ok(s),
    }
}

/// Whether `e` holds, verbatim, the texts of the error object `v`.
pub open spec fn error_matches(e: DocumentError, v: JsonValue) -> bool {
    &&& optional_string_member(v, "id"@) == Some(text_of(e.id))
    &&& optional_string_member(v, "status"@) == Some(text_of(e.status))
    &&& optional_string_member(v, "code"@) == Some(text_of(e.code))
    &&& optional_string_member(v, "title"@) == Some(text_of(e.title))
    &&& optional_string_member(v, "detail"@) == Some(text_of(e.detail))
    &&& (e.source is Some <==> (v.member("source"@) is Some && !(v.member("source"@) == Some(JsonValue::Null))))
    &&& match e.source {
        Some(s) => {
            &&& optional_string_member(v.member("source"@)->0, "pointer"@) == Some(text_of(s.pointer))
            &&& optional_string_member(v.member("source"@)->0, "parameter"@) == Some(text_of(s.parameter))
            &&& optional_string_member(v.member("source"@)->0, "header"@) == Some(text_of(s.header))
        },
        None => true,
    }
    &&& (e.links is Some <==> v.member("links"@) is Some)
    &&& match e.links {
        Some(l) => {
            &&& href_of(l.about) == member_link(v.member("links"@)->0, "about"@)
            &&& href_of(l.kind) == member_link(v.member("links"@)->0, "type"@)
        },
        None => true,
    }
    &&& same_optional_tree(e.meta, v.member("meta"@))
}

impl DocumentError {
    pub fn from_json(v: &JsonValue) -> (r: Result<DocumentError, Error>)
        ensures
            r is Ok <==> error_object_ok(*v),
            r matches Ok(x) ==> error_matches(x, *v),
            r matches Err(e) ==> e is InvalidType,
    {
        if !matches!(v, JsonValue::Object(_)) {
            return Err(Error::InvalidType("Expected an error object".to_owned()));
        }
        let id = optional_string(v, "id")?;
        let status = optional_string(v, "status")?;
        let code = optional_string(v, "code")?;
        let title = optional_string(v, "title")?;
        let detail = optional_string(v, "detail")?;
        let source = match v.get("source") {
            None => None,
            Some(s) => if s.is_null() {
                None
            } else {
                match ErrorSource::from_json(s) {
                    Ok(x) => Some(x),
                    Err(e) => {
                        return Err(e);
                    },
                }
            },
        };
        let links = match v.get("links") {
            Some(l) => Some(ErrorLinks::from_json(l)),
            None => None,
        };
        let meta = match v.get("meta") {
            Some(m) => Some(m.deep_clone()),
            None => None,
        };
        Ok(DocumentError { id, links, status, code, title, detail, source, meta })
    }
}

} // verus!
