//! The JSON value tree that the resolver and the resource descriptors read.

use vstd::prelude::*;

verus! {

/// A parsed JSON value. Numbers are kept as their text, objects as their
/// members in the order the parser hands them over (serde_json's default map
/// gives them sorted by key).
#[derive(Debug)]
pub enum JsonValue {
    Null,
    Bool(bool),
    Number(String),
    Str(String),
    Array(Vec<JsonValue>),
    Object(Vec<(String, JsonValue)>),
}

/// The value of the first member of `fields` named `key`.
pub open spec fn member_of(fields: Seq<(String, JsonValue)>, key: Seq<char>) -> Option<JsonValue>
    decreases fields.len(),
{
    if fields.len() == 0 {
        None
    } else if fields[0].0@ == key {
        Some(fields[0].1)
    } else {
        member_of(fields.drop_first(), key)
    }
}

/// Whether `a` and `b` are the same tree: the same variants with the same
/// texts, element for element and member for member.
pub open spec fn same_tree(a: JsonValue, b: JsonValue) -> bool
    decreases a,
{
    match a {
        JsonValue::Null => b is Null,
        JsonValue::Bool(x) => b is Bool && b->Bool_0 == x,
        JsonValue::Number(x) => b is Number && b->Number_0@ == x@,
        JsonValue::Str(x) => b is Str && b->Str_0@ == x@,
        JsonValue::Array(x) => b is Array && x.len() == b->Array_0.len() && forall|i: int|
            0 <= i < x.len() ==> #[trigger] same_tree(x[i], b->Array_0[i]),
        JsonValue::Object(x) => b is Object && x.len() == b->Object_0.len() && forall|i: int|
            0 <= i < x.len() ==> x[i].0@ == b->Object_0[i].0@ && #[trigger] same_tree(x[i].1, b->Object_0[i].1),
    }
}

/// Whether two optional trees are both absent or the same tree.
pub open spec fn same_optional_tree(a: Option<JsonValue>, b: Option<JsonValue>) -> bool {
    match (a, b) {
        (Some(x), Some(y)) => same_tree(x, y),
        (None, None) => true,
        _ => false,
    }
}

impl JsonValue {
    /// The member `key` of an object; `None` for a value that is no object.
    pub open spec fn member(&self, key: Seq<char>) -> Option<JsonValue> {
        match self {
            JsonValue::Object(fields) => member_of(fields@, key),
            _ => None,
        }
    }

    pub open spec fn is_null_spec(&self) -> bool {
        self is Null
    }

    /// Looks up the member `key` of an object.
    pub fn get(&self, key: &str) -> (r: Option<&JsonValue>)
        ensures
            r matches Some(v) ==> self.member(key@) == Some(*v),
            r is None ==> self.member(key@) is None,
    {
        match self {
            JsonValue::Object(fields) => {
                let k = key.to_owned();
                let mut i: usize = 0;
                assert(fields@.skip(0) =~= fields@);
                while i < fields.len()
                    invariant
                        i <= fields@.len(),
                        k@ == key@,
                        self.member(key@) == member_of(fields@, key@),
                        member_of(fields@, key@) == member_of(fields@.skip(i as int), key@),
                    decreases fields@.len() - i,
                {
                    proof {
                        assert(fields@.skip(i as int).drop_first() =~= fields@.skip(i + 1));
                    }
                    if fields[i].0 == k {
                        assert(fields@.skip(i as int)[0] == fields@[i as int]);
                        return Some(&fields[i].1);
                    }
                    i += 1;
                }
                None
            },
            _ => None,
        }
    }

    /// A copy of the whole tree, variant for variant.
    pub fn deep_clone(&self) -> (r: JsonValue)
        ensures
            same_tree(r, *self),
        decreases self,
    {
        match self {
            JsonValue::Null => JsonValue::Null,
            JsonValue::Bool(b) => JsonValue::Bool(*b),
            JsonValue::Number(n) => JsonValue::Number(n.clone()),
            JsonValue::Str(s) => JsonValue::Str(s.clone()),
            JsonValue::Array(a) => {
                let mut out: Vec<JsonValue> = Vec::new();
                let mut i: usize = 0;
                while i < a.len()
                    invariant
                        i <= a@.len(),
                        *self == JsonValue::Array(*a),
                        out@.len() == i,
                        forall|j: int| 0 <= j < i ==> same_tree(#[trigger] out[j], a[j]),
                    decreases a@.len() - i,
                {
                    proof {
                        assert(decreases_to!(*self => self->Array_0));
                        assert(decreases_to!(*a => a[i as int]));
                    }
                    let item = a[i].deep_clone();
                    let ghost prev = out@;
                    out.push(item);
                    proof {
                        assert forall|j: int| 0 <= j < i + 1 implies same_tree(#[trigger] out[j], a[j]) by {
                            if j < i {
                                assert(out[j] == prev[j]);
                            }
                        }
                    }
                    i += 1;
                }
                JsonValue::Array(out)
            },
            JsonValue::Object(fields) => {
                let mut out: Vec<(String, JsonValue)> = Vec::new();
                let mut i: usize = 0;
                while i < fields.len()
                    invariant
                        i <= fields@.len(),
                        *self == JsonValue::Object(*fields),
                        out@.len() == i,
                        forall|j: int| 0 <= j < i ==> (#[trigger] out[j]).0@ == fields[j].0@ && same_tree(out[j].1, fields[j].1),
                    decreases fields@.len() - i,
                {
                    proof {
                        assert(decreases_to!(*self => self->Object_0));
                        assert(decreases_to!(*fields => fields[i as int]));
                        assert(decreases_to!(fields[i as int] => fields[i as int].1));
                    }
                    let name: &String = &fields[i].0;
                    let key = name.clone();
                    assert(key@ == fields@[i as int].0@);
                    let value = fields[i].1.deep_clone();
                    let ghost prev = out@;
                    out.push((key, value));
                    proof {
                        assert forall|j: int| 0 <= j < i + 1 implies (#[trigger] out[j]).0@ == fields[j].0@ && same_tree(out[j].1, fields[j].1) by {
                            if j < i {
                                assert(out[j] == prev[j]);
                            } else {
                                assert(out[j] == (key, value));
                            }
                        }
                    }
                    i += 1;
                }
                JsonValue::Object(out)
            },
        }
    }

    pub fn is_null(&self) -> (r: bool)
        ensures
            r == self.is_null_spec(),
    {
        matches!(self, JsonValue::Null)
    }

    /// The text of a string value.
    pub fn as_str(&self) -> (r: Option<&String>)
        ensures
            r matches Some(s) ==> *self == JsonValue::Str(*s),
            r is None ==> !(self is Str),
    {
        match self {
            JsonValue::Str(s) => Some(s),
            _ => None,
        }
    }

    /// The elements of an array value.
    pub fn as_array(&self) -> (r: Option<&Vec<JsonValue>>)
        ensures
            r matches Some(a) ==> *self == JsonValue::Array(*a),
            r is None ==> !(self is Array),
    {
        match self {
            JsonValue::Array(a) => Some(a),
            _ => None,
        }
    }
}

/// Declares serde_json's value tree, which `parse_json` converts into a `JsonValue`.
#[verifier::external_type_specification]
#[verifier::external_body]
pub struct ExSerdeValue(serde_json::Value);

/// The value tree that the JSON text `text` denotes, or `None` where `text` is
/// not well-formed JSON.
pub uninterp spec fn json_text_value(text: Seq<char>) -> Option<JsonValue>;

/// Relies on serde_json::from_str (into serde_json::Value): it parses the text
/// alone, so that the outcome depends on `text` and nothing else. A failure
/// comes back as serde_json's message.
#[verifier::external_body]
pub(crate) fn parse_json(text: &str) -> (r: Result<JsonValue, String>)
    ensures
        r matches Ok(v) ==> json_text_value(text@) == Some(v),
        r is Err ==> json_text_value(text@) is None,
{
    serde_json::from_str::<serde_json::Value>(text).map(json_from_serde).map_err(|e| e.to_string())
}

/// Moves a serde_json value tree into a `JsonValue`, variant for variant; it is
/// the conversion that `parse_json` applies to what serde_json returns.
#[verifier::external_body]
fn json_from_serde(v: serde_json::Value) -> JsonValue {
    match v {
        serde_json::Value::Null => JsonValue::Null,
        serde_json::Value::Bool(b) => JsonValue::Bool(b),
        serde_json::Value::Number(n) => JsonValue::Number(n.to_string()),
        serde_json::Value::String(s) => JsonValue::Str(s),
        serde_json::Value::Array(a) => JsonValue::Array(a.into_iter().map(json_from_serde).collect()),
        serde_json::Value::Object(m) => JsonValue::Object(
            m.into_iter().map(|(k, v)| (k, json_from_serde(v))).collect(),
        ),
    }
}

} // verus!
