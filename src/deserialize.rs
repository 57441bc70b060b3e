//! The document assembler: from JSON text to a typed primary resource whose
//! graph lives in one holder.

use vstd::prelude::*;
use crate::document::{href_of, member_link, error_matches, error_object_ok, string_member, DocumentError, DocumentLinks};
use crate::error::Error;
use crate::holder::{Handle, Holder};
use crate::included::{raw_lookup, IncludedMap, JsonApiDeserialize, RawResource};
use crate::json::{json_text_value, parse_json, same_optional_tree, JsonValue};

verus! {

/// A decoded document: the holder that owns the resource graph, the handle of
/// the primary resource in it, and the envelope's metadata and links. The graph
/// lives exactly as long as the document.
#[derive(Debug)]
pub struct Document<R> {
    pub holder: Holder<R>,
    pub data: Handle,
    pub meta: Option<JsonValue>,
    pub links: Option<DocumentLinks>,
}

impl<R> Document<R> {
    /// The resource in the slot `h` of the document's holder.
    pub fn get(&self, h: Handle) -> (r: &R)
        requires
            h.index < self.holder@.len(),
        ensures
            *r == self.holder@[h.index as int],
    {
        self.holder.get(h)
    }
}

/// Whether `v` holds the member `key` with a value other than null.
pub open spec fn has_value(v: JsonValue, key: Seq<char>) -> bool {
    v.member(key) is Some && v.member(key) != Some(JsonValue::Null)
}

/// The member `key` of `v`, where it is present and not null.
pub open spec fn value_member(v: JsonValue, key: Seq<char>) -> Option<JsonValue> {
    if has_value(v, key) {
        v.member(key)
    } else {
        None
    }
}

/// Whether `links` holds the links of the links object `v`, member for member.
pub open spec fn links_match(links: Option<DocumentLinks>, v: Option<JsonValue>) -> bool {
    match (links, v) {
        (None, None) => true,
        (Some(l), Some(v)) => {
            &&& href_of(l.this) == member_link(v, "self"@)
            &&& href_of(l.related) == member_link(v, "related"@)
            &&& href_of(l.described_by) == member_link(v, "describedby"@)
            &&& href_of(l.first) == member_link(v, "first"@)
            &&& href_of(l.last) == member_link(v, "last"@)
            &&& href_of(l.prev) == member_link(v, "prev"@)
            &&& href_of(l.next) == member_link(v, "next"@)
        },
        _ => false,
    }
}

/// Whether `v` is a resource object with a string `type` and a string `id`.
pub open spec fn resource_object_ok(v: JsonValue) -> bool {
    &&& v is Object
    &&& string_member(v, "id"@) is Some
    &&& string_member(v, "type"@) is Some
}

/// Whether every element of `items` is a resource object.
pub open spec fn all_resource_objects(items: Seq<JsonValue>) -> bool {
    forall|i: int| 0 <= i < items.len() ==> resource_object_ok(#[trigger] items[i])
}

/// Whether `errors` holds the error objects `items`, verbatim and in order.
pub open spec fn errors_match(errors: Seq<DocumentError>, items: Seq<JsonValue>) -> bool {
    &&& errors.len() == items.len()
    &&& forall|i: int| 0 <= i < items.len() ==> error_matches(#[trigger] errors[i], items[i])
}

/// Whether every element of `items` is a well-formed error object.
pub open spec fn all_error_objects(items: Seq<JsonValue>) -> bool {
    forall|i: int| 0 <= i < items.len() ==> error_object_ok(#[trigger] items[i])
}

/// The member `key` of `v`; `None` where it is absent or null.
fn present<'a>(v: &'a JsonValue, key: &str) -> (r: Option<&'a JsonValue>)
    ensures
        r is Some <==> has_value(*v, key@),
        r matches Some(m) ==> v.member(key@) == Some(*m),
{
    match v.get(key) {
        Some(m) => if m.is_null() {
            None
        } else {
            Some(m)
        },
        None => None,
    }
}

impl RawResource {
    /// Reads one resource object of the document.
    pub fn from_json(v: &JsonValue) -> (r: Result<RawResource, Error>)
        ensures
            r is Ok <==> resource_object_ok(*v),
            r matches Ok(x) ==> string_member(*v, "id"@) == Some(x.id@) && string_member(*v, "type"@)
                == Some(x.kind@),
            r matches Ok(x) ==> same_optional_tree(x.attributes, value_member(*v, "attributes"@)),
            r matches Ok(x) ==> same_optional_tree(x.relationships, value_member(*v, "relationships"@)),
            r matches Err(e) ==> {
                &&& !(v is Object) ==> e is InvalidType
                &&& v is Object && string_member(*v, "id"@) is None ==> e is MissingId
                &&& v is Object && string_member(*v, "id"@) is Some ==> e is MissingResourceType
            },
    {
        if !matches!(v, JsonValue::Object(_)) {
            return Err(Error::InvalidType("Expected a resource object".to_owned()));
        }
        let id = match v.get("id") {
            Some(JsonValue::Str(s)) => s.clone(),
            _ => {
                return Err(Error::MissingId);
            },
        };
        let kind = match v.get("type") {
            Some(JsonValue::Str(s)) => s.clone(),
            _ => {
                return Err(Error::MissingResourceType);
            },
        };
        let attributes = match present(v, "attributes") {
            Some(a) => Some(a.deep_clone()),
            None => None,
        };
        let relationships = match present(v, "relationships") {
            Some(a) => Some(a.deep_clone()),
            None => None,
        };
        Ok(RawResource { id, kind, attributes, relationships })
    }
}

/// Whether `r` is an `InvalidType` failure.
pub open spec fn is_invalid_type<R>(r: Result<Document<R>, Error>) -> bool {
    match r {
        Err(Error::InvalidType(_)) => true,
        _ => false,
    }
}

/// What decoding the error response whose `errors` member is `errors` gives:
/// every error object, verbatim and in order.
pub open spec fn error_response_outcome<R>(r: Result<Document<R>, Error>, errors: JsonValue) -> bool {
    match errors {
        JsonValue::Array(items) => if all_error_objects(items@) {
            match r {
                Err(Error::DocumentError(list)) => errors_match(list@, items@),
                _ => false,
            }
        } else {
            is_invalid_type(r)
        },
        _ => is_invalid_type(r),
    }
}

/// How the envelope `v` of a document decides the outcome `r` of a decode.
pub open spec fn document_outcome<R>(r: Result<Document<R>, Error>, v: JsonValue) -> bool {
    &&& !(v is Object) ==> is_invalid_type(r)
    &&& v is Object && has_value(v, "errors"@) ==> error_response_outcome(r, v.member("errors"@)->0)
    &&& v is Object && !has_value(v, "errors"@) && !has_value(v, "data"@) ==> (match r {
        Err(Error::IncompleteDocument) => true,
        _ => false,
    })
    &&& v is Object && !has_value(v, "errors"@) && has_value(v, "data"@) && has_value(v, "included"@) ==> (
    match v.member("included"@)->0 {
        JsonValue::Array(items) => !all_resource_objects(items@) ==> r is Err,
        _ => is_invalid_type(r),
    })
    &&& r is Ok ==> v is Object && !has_value(v, "errors"@) && has_value(v, "data"@)
}

/// Reads every error object of an error response, in order.
fn read_errors(items: &Vec<JsonValue>) -> (r: Result<Vec<DocumentError>, Error>)
    ensures
        r is Ok <==> all_error_objects(items@),
        r matches Ok(errors) ==> errors_match(errors@, items@),
        r matches Err(e) ==> e is InvalidType,
{
    let mut errors: Vec<DocumentError> = Vec::new();
    let mut i: usize = 0;
    while i < items.len()
        invariant
            i <= items@.len(),
            errors_match(errors@, items@.take(i as int)),
            forall|j: int| 0 <= j < i ==> error_object_ok(#[trigger] items@[j]),
        decreases items@.len() - i,
    {
        match DocumentError::from_json(&items[i]) {
            Ok(e) => errors.push(e),
            Err(x) => {
                return Err(x);
            },
        }
        i += 1;
        assert(errors_match(errors@, items@.take(i as int))) by {
            assert forall|j: int| 0 <= j < i implies error_matches(#[trigger] errors@[j], items@.take(i as int)[j]) by {
                if j < i - 1 {
                    assert(items@.take(i as int)[j] == items@.take(i - 1)[j]);
                }
            }
        }
    }
    assert(items@.take(i as int) =~= items@);
    Ok(errors)
}

/// The identity `(kind, id)` of a resource object.
pub open spec fn identity_of(v: JsonValue) -> Option<(Seq<char>, Seq<char>)> {
    if resource_object_ok(v) {
        Some((string_member(v, "type"@)->0, string_member(v, "id"@)->0))
    } else {
        None
    }
}

/// The elements of an `included` member: none where it is absent.
pub open spec fn included_items(included: Option<&JsonValue>) -> Seq<JsonValue> {
    match included {
        Some(JsonValue::Array(a)) => a@,
        _ => Seq::empty(),
    }
}

/// Whether `(kind, id)` is the identity of the primary resource or of one of
/// the first `n` included resources.
pub open spec fn listed(primary: JsonValue, items: Seq<JsonValue>, n: int, kind: Seq<char>, id: Seq<char>) -> bool {
    ||| identity_of(primary) == Some((kind, id))
    ||| exists|j: int| 0 <= j < n && #[trigger] identity_of(items[j]) == Some((kind, id))
}

/// Appending a resource makes its identity the one found, and leaves the others.
proof fn lemma_raw_lookup_push(raw: Seq<RawResource>, x: RawResource, kind: Seq<char>, id: Seq<char>)
    ensures
        raw_lookup(raw.push(x), kind, id) is Some <==> ((x.kind@ == kind && x.id@ == id) || raw_lookup(raw, kind, id) is Some),
{
    assert(raw.push(x).drop_last() =~= raw);
}

/// Builds the resolver's index: the primary resource, where it is a resource
/// object, comes first, then the `included` list in order, so that an included
/// resource of the same identity wins. An identity is found in the index
/// exactly when the primary resource or an included resource has it.
pub fn resource_index(primary: &JsonValue, included: Option<&JsonValue>) -> (r: Result<Vec<RawResource>, Error>)
    ensures
        included matches Some(l) && !(l is Array) ==> r matches Err(Error::InvalidType(_)),
        included matches Some(JsonValue::Array(items)) ==> (r is Ok <==> all_resource_objects(items@)),
        included is None ==> r is Ok,
        r matches Ok(raw) ==> forall|kind: Seq<char>, id: Seq<char>|
            #[trigger] raw_lookup(raw@, kind, id) is Some <==> listed(
                *primary,
                included_items(included),
                included_items(included).len() as int,
                kind,
                id,
            ),
{
    let mut raw: Vec<RawResource> = Vec::new();
    if let Ok(p) = RawResource::from_json(primary) {
        raw.push(p);
        proof {
            assert forall|kind: Seq<char>, id: Seq<char>|
                #[trigger] raw_lookup(raw@, kind, id) is Some <==> identity_of(*primary) == Some((kind, id)) by {
                lemma_raw_lookup_push(Seq::empty(), p, kind, id);
                assert(Seq::<RawResource>::empty().push(p) =~= raw@);
            }
        }
    }
    match included {
        None => Ok(raw),
        Some(list) => match list.as_array() {
            None => Err(Error::InvalidType("Expected an array of resources".to_owned())),
            Some(items) => {
                let mut n: usize = 0;
                while n < items.len()
                    invariant
                        n <= items@.len(),
                        forall|j: int| 0 <= j < n ==> resource_object_ok(#[trigger] items@[j]),
                        *list == JsonValue::Array(*items),
                        included == Some(list),
                        forall|kind: Seq<char>, id: Seq<char>|
                            #[trigger] raw_lookup(raw@, kind, id) is Some <==> listed(*primary, items@, n as int, kind, id),
                    decreases items@.len() - n,
                {
                    let x = match RawResource::from_json(&items[n]) {
                        Ok(x) => x,
                        Err(e) => {
                            assert(!resource_object_ok(items@[n as int]));
                            return Err(e);
                        },
                    };
                    let ghost before = raw@;
                    raw.push(x);
                    proof {
                        assert forall|kind: Seq<char>, id: Seq<char>|
                            #[trigger] raw_lookup(raw@, kind, id) is Some <==> listed(*primary, items@, n + 1, kind, id) by {
                            lemma_raw_lookup_push(before, x, kind, id);
                            assert(identity_of(items@[n as int]) == Some((x.kind@, x.id@)));
                            if listed(*primary, items@, n + 1, kind, id) && !(x.kind@ == kind && x.id@ == id)
                                && identity_of(*primary) != Some((kind, id)) {
                                let j = choose|j: int| 0 <= j < n + 1 && #[trigger] identity_of(items@[j]) == Some((kind, id));
                                assert(j != n);
                            }
                        }
                    }
                    n += 1;
                }
                Ok(raw)
            },
        },
    }
}

/// A reference to an identity that neither the primary resource nor any
/// included resource has is absent from a resolver built on the document's
/// index, so that resolving it fails with `MissingResource` (see
/// `IncludedMap::get`).
pub proof fn lemma_unlisted_identity_is_missing<R>(
    map: IncludedMap<R>,
    primary: JsonValue,
    items: Seq<JsonValue>,
    kind: Seq<char>,
    id: Seq<char>,
)
    requires
        forall|k: Seq<char>, i: Seq<char>|
            #[trigger] raw_lookup(map.raw_spec(), k, i) is Some <==> listed(primary, items, items.len() as int, k, i),
        !listed(primary, items, items.len() as int, kind, id),
    ensures
        raw_lookup(map.raw_spec(), kind, id) is None,
{
}

/// Decodes the JSON:API document `json` with a primary resource of type `T`:
/// the text is parsed, then decoded by `deserialize_value`.
pub fn deserialize_document<R, T: JsonApiDeserialize<R>>(json: &str) -> (r: Result<Document<R>, Error>)
    ensures
        json_text_value(json@) is None ==> r matches Err(Error::SerdeError(_)),
        json_text_value(json@) matches Some(v) ==> document_outcome(r, v),
        r matches Ok(d) ==> d.data.index == d.holder@.len() - 1,
{
    match parse_json(json) {
        Ok(v) => deserialize_value::<R, T>(&v),
        Err(msg) => Err(Error::SerdeError(msg)),
    }
}

/// Decodes the parsed document `value` with a primary resource of type `T`.
///
/// The envelope is classified first: an `errors` member makes the document an
/// error response whatever else it holds; without it, a missing or null `data`
/// makes it incomplete. Then the `included` list is indexed, the primary
/// resource is read by `T::from_value` (never through the memo) and stored in
/// the same holder as every resource it references.
pub fn deserialize_value<R, T: JsonApiDeserialize<R>>(value: &JsonValue) -> (r: Result<Document<R>, Error>)
    ensures
        document_outcome(r, *value),
        r matches Ok(d) ==> d.data.index == d.holder@.len() - 1,
        r matches Ok(d) ==> same_optional_tree(d.meta, value_member(*value, "meta"@)),
        r matches Ok(d) ==> links_match(d.links, value_member(*value, "links"@)),
{
    if !matches!(value, JsonValue::Object(_)) {
        return Err(Error::InvalidType("Expected a document object".to_owned()));
    }
    if let Some(errors) = present(value, "errors") {
        return match errors.as_array() {
            Some(items) => match read_errors(items) {
                Ok(list) => Err(Error::DocumentError(list)),
                Err(e) => Err(e),
            },
            None => Err(Error::InvalidType("Expected an array of errors".to_owned())),
        };
    }
    let data = match present(value, "data") {
        Some(d) => d,
        None => {
            return Err(Error::IncompleteDocument);
        },
    };
    let raw = resource_index(data, present(value, "included"))?;
    let mut included_map = IncludedMap::from_includes(raw, Holder::new());
    let primary = T::from_value(data, &mut included_map)?;
    let h = included_map.allocate(primary.into_slot());
    let holder = included_map.into_holder();
    let meta = match present(value, "meta") {
        Some(m) => Some(m.deep_clone()),
        None => None,
    };
    let links = match present(value, "links") {
        Some(l) => Some(DocumentLinks::from_json(l)),
        None => None,
    };
    Ok(Document { holder, data: h, meta, links })
}

} // verus!
