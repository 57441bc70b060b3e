//! The field-mapping rules that resource descriptors follow: the wire name of a
//! field, its presence policy, the kind tag and the id of a resource object.

use vstd::prelude::*;
use heck::{ToLowerCamelCase, ToPascalCase, ToSnakeCase};
use crate::document::{string_member, Reference};
use crate::error::Error;
use crate::holder::Handle;
use crate::included::{memo_lookup, resolved_as, IncludedMap, JsonApiDeserialize, MemoEntry};
use crate::json::JsonValue;

verus! {

/// The case in which a resource type writes the names of its fields.
#[derive(Debug, Clone, Copy, PartialEq, Eq, Structural)]
pub enum RenameAll {
    CamelCase,
    PascalCase,
    SnakeCase,
}

impl Default for RenameAll {
    fn default() -> (r: RenameAll)
        ensures
            r == RenameAll::CamelCase,
    {
        RenameAll::CamelCase
    }
}

/// `s` in snake_case, as heck writes it.
pub uninterp spec fn snake_case_of(s: Seq<char>) -> Seq<char>;

/// `s` in lowerCamelCase, as heck writes it.
pub uninterp spec fn lower_camel_case_of(s: Seq<char>) -> Seq<char>;

/// `s` in PascalCase, as heck writes it.
pub uninterp spec fn pascal_case_of(s: Seq<char>) -> Seq<char>;

/// Relies on heck's `ToSnakeCase::to_snake_case` for `str`: its result depends
/// on the text alone.
#[verifier::external_body]
fn to_snake_case(s: &str) -> (r: String)
    ensures
        r@ == snake_case_of(s@),
{
    s.to_snake_case()
}

/// Relies on heck's `ToLowerCamelCase::to_lower_camel_case` for `str`: its
/// result depends on the text alone.
#[verifier::external_body]
fn to_lower_camel_case(s: &str) -> (r: String)
    ensures
        r@ == lower_camel_case_of(s@),
{
    s.to_lower_camel_case()
}

/// Relies on heck's `ToPascalCase::to_pascal_case` for `str`: its result
/// depends on the text alone.
#[verifier::external_body]
fn to_pascal_case(s: &str) -> (r: String)
    ensures
        r@ == pascal_case_of(s@),
{
    s.to_pascal_case()
}

/// The wire name of a field: an explicit rename as it is written, else the
/// field's name in the type's case.
pub open spec fn wire_name(field: Seq<char>, rename: Option<Seq<char>>, rename_all: RenameAll) -> Seq<char> {
    match rename {
        Some(r) => r,
        None => match rename_all {
            RenameAll::CamelCase => lower_camel_case_of(field),
            RenameAll::PascalCase => pascal_case_of(field),
            RenameAll::SnakeCase => snake_case_of(field),
        },
    }
}

/// An explicit rename is the wire name of a field, whatever the case policy of
/// its type: two policies give the same name, the rename itself.
pub proof fn lemma_rename_overrides_case(field: Seq<char>, rename: Seq<char>, policy: RenameAll, other: RenameAll)
    ensures
        wire_name(field, Some(rename), policy) == rename,
        wire_name(field, Some(rename), policy) == wire_name(field, Some(rename), other),
{
}

/// The key under which the field `field` is read.
pub fn json_field_name(field: &str, rename: Option<&str>, rename_all: RenameAll) -> (r: String)
    ensures
        r@ == wire_name(
            field@,
            match rename {
                Some(x) => Some(x@),
                None => None,
            },
            rename_all,
        ),
{
    match rename {
        Some(x) => x.to_owned(),
        None => match rename_all {
            RenameAll::CamelCase => to_lower_camel_case(field),
            RenameAll::PascalCase => to_pascal_case(field),
            RenameAll::SnakeCase => to_snake_case(field),
        },
    }
}

/// The kind tag of a resource type: the one given, else the type's name in
/// snake_case.
pub fn resource_kind_name(struct_name: &str, explicit: Option<&str>) -> (r: String)
    ensures
        r@ == match explicit {
            Some(x) => x@,
            None => snake_case_of(struct_name@),
        },
{
    match explicit {
        Some(x) => x.to_owned(),
        None => to_snake_case(struct_name),
    }
}

/// Checks that `data` is a resource object whose `type` is `expected`.
pub fn check_resource_type(data: &JsonValue, expected: &str) -> (r: Result<(), Error>)
    ensures
        r is Ok <==> data is Object && string_member(*data, "type"@) == Some(expected@),
        r matches Err(e) ==> {
            &&& !(data is Object) ==> (e matches Error::InvalidType(m) && m@ == "Expected an object"@)
            &&& data is Object && data.member("type"@) is None ==> e is MissingResourceType
            &&& data is Object && data.member("type"@) is Some && !(data.member("type"@)->0 is Str) ==> e is InvalidType
            &&& string_member(*data, "type"@) is Some && string_member(*data, "type"@) != Some(expected@) ==> (
            e matches Error::ResourceTypeMismatch { expected: x, found: y } && x@ == expected@ && Some(y@)
                == string_member(*data, "type"@))
        },
{
    if !matches!(data, JsonValue::Object(_)) {
        return Err(Error::InvalidType("Expected an object".to_owned()));
    }
    let found = match data.get("type") {
        None => {
            return Err(Error::MissingResourceType);
        },
        Some(JsonValue::Str(s)) => s,
        Some(_) => {
            return Err(Error::InvalidType("Expected a string".to_owned()));
        },
    };
    let expected = expected.to_owned();
    if *found == expected {
        Ok(())
    } else {
        Err(Error::ResourceTypeMismatch { expected, found: found.clone() })
    }
}

/// The id of a resource object, read from its own `id` member and never from
/// its attributes.
pub fn read_id(data: &JsonValue) -> (r: Result<String, Error>)
    ensures
        r matches Ok(s) ==> string_member(*data, "id"@) == Some(s@),
        r is Err <==> string_member(*data, "id"@) is None,
        data.member("id"@) is None ==> r matches Err(Error::MissingId),
{
    match data.get("id") {
        None => Err(Error::MissingId),
        Some(JsonValue::Str(s)) => Ok(s.clone()),
        Some(_) => Err(Error::InvalidType("Expected a string".to_owned())),
    }
}

/// The member `key` of the section `section` (`attributes` or
/// `relationships`) of `data`.
pub open spec fn section_member(data: JsonValue, section: Seq<char>, key: Seq<char>) -> Option<JsonValue> {
    match data.member(section) {
        Some(s) => s.member(key),
        None => None,
    }
}

/// A field that must be present: `MissingAttributes` (or
/// `MissingRelationships`) without the section, `MissingField` without the key.
fn required_member<'a>(data: &'a JsonValue, section: &str, key: &str, field: &str, missing_section: Error) -> (r: Result<&'a JsonValue, Error>)
    ensures
        r matches Ok(v) ==> section_member(*data, section@, key@) == Some(*v),
        r is Err ==> section_member(*data, section@, key@) is None,
        data.member(section@) is None ==> r == Err::<&JsonValue, Error>(missing_section),
        data.member(section@) is Some && section_member(*data, section@, key@) is None ==> (r matches Err(Error::MissingField(f)) && f@ == field@),
{
    match data.get(section) {
        None => Err(missing_section),
        Some(s) => match s.get(key) {
            None => Err(Error::MissingField(field.to_owned())),
            Some(v) => Ok(v),
        },
    }
}

/// A field that may be absent, with its section: `None` in either case.
fn optional_member<'a>(data: &'a JsonValue, section: &str, key: &str) -> (r: Option<&'a JsonValue>)
    ensures
        r matches Some(v) ==> section_member(*data, section@, key@) == Some(*v),
        r is None ==> section_member(*data, section@, key@) is None,
{
    match data.get(section) {
        None => None,
        Some(s) => s.get(key),
    }
}

/// The attribute `key` of a required field `field`.
pub fn required_attribute<'a>(data: &'a JsonValue, key: &str, field: &str) -> (r: Result<&'a JsonValue, Error>)
    ensures
        r matches Ok(v) ==> section_member(*data, "attributes"@, key@) == Some(*v),
        r is Err <==> section_member(*data, "attributes"@, key@) is None,
        data.member("attributes"@) is None ==> r matches Err(Error::MissingAttributes),
        data.member("attributes"@) is Some && section_member(*data, "attributes"@, key@) is None ==> (r matches Err(Error::MissingField(f)) && f@ == field@),
{
    required_member(data, "attributes", key, field, Error::MissingAttributes)
}

/// The attribute `key` of a field that may be absent: `None` when the
/// attributes section or the key is missing.
pub fn optional_attribute<'a>(data: &'a JsonValue, key: &str) -> (r: Option<&'a JsonValue>)
    ensures
        r matches Some(v) ==> section_member(*data, "attributes"@, key@) == Some(*v),
        r is None ==> section_member(*data, "attributes"@, key@) is None,
{
    optional_member(data, "attributes", key)
}

/// The relationship object `key` of a required field `field`.
pub fn required_relationship<'a>(data: &'a JsonValue, key: &str, field: &str) -> (r: Result<&'a JsonValue, Error>)
    ensures
        r matches Ok(v) ==> section_member(*data, "relationships"@, key@) == Some(*v),
        r is Err <==> section_member(*data, "relationships"@, key@) is None,
        data.member("relationships"@) is None ==> r matches Err(Error::MissingRelationships),
        data.member("relationships"@) is Some && section_member(*data, "relationships"@, key@) is None ==> (r matches Err(Error::MissingField(f)) && f@ == field@),
{
    required_member(data, "relationships", key, field, Error::MissingRelationships)
}

/// The relationship object `key` of a field that may be absent.
pub fn optional_relationship<'a>(data: &'a JsonValue, key: &str) -> (r: Option<&'a JsonValue>)
    ensures
        r matches Some(v) ==> section_member(*data, "relationships"@, key@) == Some(*v),
        r is None ==> section_member(*data, "relationships"@, key@) is None,
{
    optional_member(data, "relationships", key)
}

/// A string value.
pub fn string_value(v: &JsonValue) -> (r: Result<String, Error>)
    ensures
        r matches Ok(s) ==> *v == JsonValue::Str(s),
        r is Err <==> !(v is Str),
{
    match v {
        JsonValue::Str(s) => Ok(s.clone()),
        _ => Err(Error::InvalidType("Expected a string".to_owned())),
    }
}

/// A string value that may be null.
pub fn nullable_string_value(v: &JsonValue) -> (r: Result<Option<String>, Error>)
    ensures
        r matches Ok(Some(s)) ==> *v == JsonValue::Str(s),
        r matches Ok(None) ==> v is Null,
        r is Err <==> !(v is Str || v is Null),
{
    match v {
        JsonValue::Null => Ok(None),
        JsonValue::Str(s) => Ok(Some(s.clone())),
        _ => Err(Error::InvalidType("Expected a string or null".to_owned())),
    }
}

/// A string attribute declared `optional` whose value may be null. An absent
/// section or key gives `None`, an explicit null `Some(None)`, a string
/// `Some(Some(..))`: the three cases stay apart.
pub fn optional_nullable_string_attribute(data: &JsonValue, key: &str) -> (r: Result<Option<Option<String>>, Error>)
    ensures
        section_member(*data, "attributes"@, key@) is None ==> r == Ok::<Option<Option<String>>, Error>(None),
        section_member(*data, "attributes"@, key@) == Some(JsonValue::Null) ==> r == Ok::<Option<Option<String>>, Error>(Some(None)),
        section_member(*data, "attributes"@, key@) matches Some(JsonValue::Str(s)) ==> r == Ok::<Option<Option<String>>, Error>(Some(Some(s))),
        r is Err <==> (section_member(*data, "attributes"@, key@) matches Some(v) && !(v is Str || v is Null)),
{
    match optional_attribute(data, key) {
        None => Ok(None),
        Some(v) => match nullable_string_value(v) {
            Ok(s) => Ok(Some(s)),
            Err(e) => Err(e),
        },
    }
}

/// A string attribute declared `default`: an absent section or key gives the
/// empty string rather than an error.
pub fn default_string_attribute(data: &JsonValue, key: &str) -> (r: Result<String, Error>)
    ensures
        section_member(*data, "attributes"@, key@) is None ==> (r matches Ok(s) && s@ == Seq::<char>::empty()),
        section_member(*data, "attributes"@, key@) matches Some(JsonValue::Str(s)) ==> r == Ok::<String, Error>(s),
        r is Err <==> (section_member(*data, "attributes"@, key@) matches Some(v) && !(v is Str)),
{
    match optional_attribute(data, key) {
        None => Ok(String::new()),
        Some(v) => string_value(v),
    }
}

/// Whether every reference of `refs` has been resolved as the type named `tag`.
pub open spec fn all_resolved_as(memo: Seq<MemoEntry>, refs: Seq<Reference>, tag: Seq<char>) -> bool {
    forall|i: int| 0 <= i < refs.len() ==> (memo_lookup(memo, #[trigger] refs[i].kind@, refs[i].id@) matches Some(e)
        && e.resource_type@ == tag)
}

/// Resolves, in order, the targets of a to-many relationship as `T`.
pub fn resolve_all<R, T: JsonApiDeserialize<R>>(included_map: &mut IncludedMap<R>, refs: &Vec<Reference>) -> (r: Result<Vec<Handle>, Error>)
    requires
        old(included_map).wf(),
    ensures
        final(included_map).wf(),
        final(included_map).extends(*old(included_map)),
        r matches Ok(hs) ==> hs@.len() == refs@.len() && forall|i: int| 0 <= i < refs@.len() ==> resolved_as(
            final(included_map).memo_spec(),
            #[trigger] refs@[i].kind@,
            refs@[i].id@,
            hs@[i],
        ),
        refs@.len() == 0 ==> (r matches Ok(hs) && hs@.len() == 0 && *final(included_map) == *old(included_map)),
        all_resolved_as(old(included_map).memo_spec(), refs@, T::RESOURCE_TYPE@) ==> (r is Ok && *final(included_map) == *old(included_map)),
{
    let mut out: Vec<Handle> = Vec::new();
    let mut i: usize = 0;
    while i < refs.len()
        invariant
            i <= refs@.len(),
            out@.len() == i,
            included_map.wf(),
            included_map.extends(*old(included_map)),
            forall|j: int| 0 <= j < i ==> resolved_as(included_map.memo_spec(), #[trigger] refs@[j].kind@, refs@[j].id@, out@[j]),
            all_resolved_as(old(included_map).memo_spec(), refs@, T::RESOURCE_TYPE@) ==> *included_map == *old(included_map),
        decreases refs@.len() - i,
    {
        let ghost before = *included_map;
        let h = included_map.get::<T>(refs[i].kind.as_str(), refs[i].id.as_str())?;
        proof {
            crate::included::lemma_extends_transitive(*old(included_map), before, *included_map);
            assert forall|j: int| 0 <= j < i implies resolved_as(included_map.memo_spec(), #[trigger] refs@[j].kind@, refs@[j].id@, out@[j]) by {
                crate::included::lemma_memo_lookup_prefix(before.memo_spec(), included_map.memo_spec(), refs@[j].kind@, refs@[j].id@);
            }
        }
        out.push(h);
        i += 1;
    }
    Ok(out)
}

/// Resolves the target of a to-one relationship that may be empty: an empty
/// relationship resolves to `None` without a lookup.
pub fn resolve_optional<R, T: JsonApiDeserialize<R>>(included_map: &mut IncludedMap<R>, target: &Option<Reference>) -> (r: Result<Option<Handle>, Error>)
    requires
        old(included_map).wf(),
    ensures
        final(included_map).wf(),
        final(included_map).extends(*old(included_map)),
        target is None ==> (r matches Ok(None) && *final(included_map) == *old(included_map)),
        target matches Some(t) ==> (r matches Ok(Some(h)) ==> resolved_as(final(included_map).memo_spec(), t.kind@, t.id@, h)),
        target matches Some(t) ==> (memo_lookup(old(included_map).memo_spec(), t.kind@, t.id@) is Some
            && memo_lookup(old(included_map).memo_spec(), t.kind@, t.id@)->0.resource_type@ == T::RESOURCE_TYPE@
            ==> r == Ok::<Option<Handle>, Error>(Some(memo_lookup(old(included_map).memo_spec(), t.kind@, t.id@)->0.handle))),
        target matches Some(t) ==> !(r matches Ok(None)),
{
    match target {
        None => Ok(None),
        Some(t) => match included_map.get::<T>(t.kind.as_str(), t.id.as_str()) {
            Ok(h) => Ok(Some(h)),
            Err(e) => Err(e),
        },
    }
}

} // verus!
