use jsonapi_deserialize::fields::{
    check_resource_type, json_field_name, read_id, required_attribute, resource_kind_name,
    string_value, RenameAll,
};
use jsonapi_deserialize::{deserialize_document, Document, Error, IncludedMap, JsonApiDeserialize, JsonValue};

#[derive(Debug, Default)]
struct SnakeCase {
    id: String,
    foo_bar: String,
}

#[derive(Debug, Default)]
struct PascalCase {
    id: String,
    foo_bar: String,
}

#[derive(Debug, Default)]
struct CamelCase {
    id: String,
    foo_bar: String,
}

#[derive(Debug, Default)]
struct FieldRename {
    pub id: String,
    foo_bar: String,
}

#[derive(Debug)]
enum Slot {
    Snake(SnakeCase),
    Pascal(PascalCase),
    Camel(CamelCase),
    Rename(FieldRename),
}

/// Reads `id` and `foo_bar` the way a descriptor of these types does.
fn read_foo_bar(
    value: &JsonValue,
    struct_name: &str,
    rename: Option<&str>,
    rename_all: RenameAll,
) -> Result<(String, String), Error> {
    let kind = resource_kind_name(struct_name, None);
    check_resource_type(value, &kind)?;
    let id = read_id(value)?;
    let key = json_field_name("foo_bar", rename, rename_all);
    let foo_bar = string_value(required_attribute(value, &key, "foo_bar")?)?;
    Ok((id, foo_bar))
}

impl JsonApiDeserialize<Slot> for SnakeCase {
    const RESOURCE_TYPE: &'static str = "SnakeCase";
    fn from_value(value: &JsonValue, _map: &mut IncludedMap<Slot>) -> Result<Self, Error> {
        let (id, foo_bar) = read_foo_bar(value, "SnakeCase", None, RenameAll::SnakeCase)?;
        Ok(SnakeCase { id, foo_bar })
    }
    fn stub() -> Self {
        Self::default()
    }
    fn into_slot(self) -> Slot {
        Slot::Snake(self)
    }
}

impl JsonApiDeserialize<Slot> for PascalCase {
    const RESOURCE_TYPE: &'static str = "PascalCase";
    fn from_value(value: &JsonValue, _map: &mut IncludedMap<Slot>) -> Result<Self, Error> {
        let (id, foo_bar) = read_foo_bar(value, "PascalCase", None, RenameAll::PascalCase)?;
        Ok(PascalCase { id, foo_bar })
    }
    fn stub() -> Self {
        Self::default()
    }
    fn into_slot(self) -> Slot {
        Slot::Pascal(self)
    }
}

impl JsonApiDeserialize<Slot> for CamelCase {
    const RESOURCE_TYPE: &'static str = "CamelCase";
    fn from_value(value: &JsonValue, _map: &mut IncludedMap<Slot>) -> Result<Self, Error> {
        let (id, foo_bar) = read_foo_bar(value, "CamelCase", None, RenameAll::CamelCase)?;
        Ok(CamelCase { id, foo_bar })
    }
    fn stub() -> Self {
        Self::default()
    }
    fn into_slot(self) -> Slot {
        Slot::Camel(self)
    }
}

impl JsonApiDeserialize<Slot> for FieldRename {
    const RESOURCE_TYPE: &'static str = "FieldRename";
    fn from_value(value: &JsonValue, _map: &mut IncludedMap<Slot>) -> Result<Self, Error> {
        let (id, foo_bar) = read_foo_bar(value, "FieldRename", Some("foobar"), RenameAll::default())?;
        Ok(FieldRename { id, foo_bar })
    }
    fn stub() -> Self {
        Self::default()
    }
    fn into_slot(self) -> Slot {
        Slot::Rename(self)
    }
}

fn foo_bar_of(document: &Document<Slot>) -> String {
    match document.get(document.data) {
        Slot::Snake(x) => x.foo_bar.clone(),
        Slot::Pascal(x) => x.foo_bar.clone(),
        Slot::Camel(x) => x.foo_bar.clone(),
        Slot::Rename(x) => x.foo_bar.clone(),
    }
}

#[test]
fn test_snake_case() {
    let document = deserialize_document::<Slot, SnakeCase>(
        r#"{
            "data": {
                "id": "1",
                "type": "snake_case",
                "attributes": {
                    "foo_bar": "Foo"
                }
            }
        }"#,
    )
    .unwrap();

    assert_eq!(foo_bar_of(&document), "Foo".to_string());
}

#[test]
fn test_pascal_case() {
    let document = deserialize_document::<Slot, PascalCase>(
        r#"{
            "data": {
                "id": "1",
                "type": "pascal_case",
                "attributes": {
                    "FooBar": "Foo"
                }
            }
        }"#,
    )
    .unwrap();

    assert_eq!(foo_bar_of(&document), "Foo".to_string());
}

#[test]
fn test_camel_case() {
    let document = deserialize_document::<Slot, CamelCase>(
        r#"{
            "data": {
                "id": "1",
                "type": "camel_case",
                "attributes": {
                    "fooBar": "Foo"
                }
            }
        }"#,
    )
    .unwrap();

    assert_eq!(foo_bar_of(&document), "Foo".to_string());
}

#[test]
fn test_field_rename() {
    let document = deserialize_document::<Slot, FieldRename>(
        r#"{
            "data": {
                "id": "1",
                "type": "field_rename",
                "attributes": {
                    "foobar": "Foo"
                }
            }
        }"#,
    )
    .unwrap();

    assert_eq!(foo_bar_of(&document), "Foo".to_string());
}

#[test]
fn field_rename_ignores_the_case_policy() {
    let result = deserialize_document::<Slot, FieldRename>(
        r#"{ "data": { "id": "1", "type": "field_rename", "attributes": { "fooBar": "Foo" } } }"#,
    );
    match result {
        Err(Error::MissingField(name)) => assert_eq!(name, "foo_bar"),
        other => panic!("expected a missing field, got {:?}", other),
    }
}

#[test]
fn wire_names_follow_the_case_policy() {
    assert_eq!(json_field_name("foo_bar", None, RenameAll::SnakeCase), "foo_bar");
    assert_eq!(json_field_name("foo_bar", None, RenameAll::PascalCase), "FooBar");
    assert_eq!(json_field_name("foo_bar", None, RenameAll::CamelCase), "fooBar");
    assert_eq!(json_field_name("foo_bar", Some("foobar"), RenameAll::PascalCase), "foobar");
    assert_eq!(resource_kind_name("FieldRename", None), "field_rename");
    assert_eq!(resource_kind_name("FieldRename", Some("renamed")), "renamed");
}

#[test]
fn wrong_kind_tag_is_a_type_mismatch() {
    let result = deserialize_document::<Slot, SnakeCase>(
        r#"{ "data": { "id": "1", "type": "camel_case", "attributes": { "foo_bar": "Foo" } } }"#,
    );
    match result {
        Err(Error::ResourceTypeMismatch { expected, found }) => {
            assert_eq!(expected, "snake_case");
            assert_eq!(found, "camel_case");
        }
        other => panic!("expected a type mismatch, got {:?}", other),
    }
}

#[test]
fn missing_attributes_section() {
    let result = deserialize_document::<Slot, SnakeCase>(r#"{ "data": { "id": "1", "type": "snake_case" } }"#);
    assert!(matches!(result, Err(Error::MissingAttributes)));
}

#[test]
fn a_value_that_is_no_object_is_invalid() {
    match check_resource_type(&JsonValue::Null, "snake_case") {
        Err(Error::InvalidType(m)) => assert_eq!(m, "Expected an object"),
        other => panic!("expected an invalid type, got {:?}", other),
    }
}
