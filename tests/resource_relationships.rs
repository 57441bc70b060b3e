use jsonapi_deserialize::fields::{
    check_resource_type, optional_relationship, read_id, required_attribute, required_relationship,
    resolve_all, resolve_optional, string_value,
};
use jsonapi_deserialize::{
    deserialize_document, Error, Handle, IncludedMap, JsonApiDeserialize, JsonValue,
    RawMultipleRelationship, RawOptionalRelationship, RawSingleRelationship,
};

#[derive(Debug, Default)]
struct Article {
    id: String,
    title: String,
    author: Handle,
    editor: Option<Handle>,
    publisher: Option<Handle>,
    comments: Vec<Handle>,
}

#[derive(Debug, Default)]
struct Person {
    name: String,
}

#[derive(Debug, Default)]
struct Comment {
    author: Option<Handle>,
    content: String,
}

#[derive(Debug)]
enum Slot {
    Article(Article),
    Person(Person),
    Comment(Comment),
}

fn optional_target<T: JsonApiDeserialize<Slot>>(
    value: &JsonValue,
    key: &str,
    map: &mut IncludedMap<Slot>,
) -> Result<Option<Handle>, Error> {
    let target = RawOptionalRelationship::from_json(required_relationship(value, key, key)?)?.data;
    resolve_optional::<Slot, T>(map, &target)
}

impl JsonApiDeserialize<Slot> for Article {
    const RESOURCE_TYPE: &'static str = "Article";
    fn from_value(value: &JsonValue, map: &mut IncludedMap<Slot>) -> Result<Self, Error> {
        check_resource_type(value, "article")?;
        let id = read_id(value)?;
        let title = string_value(required_attribute(value, "title", "title")?)?;
        let author = RawSingleRelationship::from_json(required_relationship(value, "author", "author")?)?.data;
        let author = map.get::<Person>(&author.kind, &author.id)?;
        let editor = optional_target::<Person>(value, "editor", map)?;
        let publisher = optional_target::<Person>(value, "publisher", map)?;
        let comments =
            RawMultipleRelationship::from_json(required_relationship(value, "comments", "comments")?)?.data;
        let comments = resolve_all::<Slot, Comment>(map, &comments)?;
        Ok(Article { id, title, author, editor, publisher, comments })
    }
    fn stub() -> Self {
        Self::default()
    }
    fn into_slot(self) -> Slot {
        Slot::Article(self)
    }
}

impl JsonApiDeserialize<Slot> for Person {
    const RESOURCE_TYPE: &'static str = "Person";
    fn from_value(value: &JsonValue, _map: &mut IncludedMap<Slot>) -> Result<Self, Error> {
        check_resource_type(value, "person")?;
        let name = string_value(required_attribute(value, "name", "name")?)?;
        Ok(Person { name })
    }
    fn stub() -> Self {
        Self::default()
    }
    fn into_slot(self) -> Slot {
        Slot::Person(self)
    }
}

impl JsonApiDeserialize<Slot> for Comment {
    const RESOURCE_TYPE: &'static str = "Comment";
    fn from_value(value: &JsonValue, map: &mut IncludedMap<Slot>) -> Result<Self, Error> {
        check_resource_type(value, "comment")?;
        let author = match optional_relationship(value, "author") {
            Some(rel) => match RawOptionalRelationship::from_json(rel)?.data {
                Some(target) => Some(map.get::<Person>(&target.kind, &target.id)?),
                None => None,
            },
            None => None,
        };
        let content = string_value(required_attribute(value, "content", "content")?)?;
        Ok(Comment { author, content })
    }
    fn stub() -> Self {
        Self::default()
    }
    fn into_slot(self) -> Slot {
        Slot::Comment(self)
    }
}

fn person(slot: &Slot) -> &Person {
    match slot {
        Slot::Person(p) => p,
        other => panic!("expected a person, got {:?}", other),
    }
}

fn comment(slot: &Slot) -> &Comment {
    match slot {
        Slot::Comment(c) => c,
        other => panic!("expected a comment, got {:?}", other),
    }
}

fn article(slot: &Slot) -> &Article {
    match slot {
        Slot::Article(a) => a,
        other => panic!("expected an article, got {:?}", other),
    }
}

const DOCUMENT: &str = r#"{
    "data": {
        "id": "123",
        "type": "article",
        "attributes": {
            "title": "Foo"
        },
        "relationships": {
            "author": {
                "data": { "type": "person", "id": "p-1" }
            },
            "editor": {
                "data": { "type": "person", "id": "p-1" }
            },
            "publisher": {
                "data": null
            },
            "comments": {
                "data": [
                    { "type": "comment", "id": "c-1" }
                ]
            }
        }
    },
    "included": [
        {
            "type": "person",
            "id": "p-1",
            "attributes": {
                "name": "John Smith"
            }
        },
        {
            "type": "comment",
            "id": "c-1",
            "attributes": {
                "content": "Lorem Ipsum"
            },
            "relationships": {
                "author": {
                    "data": { "type": "person", "id": "p-1" }
                }
            }
        }
    ]
}"#;

#[test]
fn resource_relationships_test_deserialize() {
    let document = deserialize_document::<Slot, Article>(DOCUMENT).unwrap();
    let data = article(document.get(document.data));

    assert_eq!(data.title, "Foo".to_string());
    assert_eq!(person(document.get(data.author)).name, "John Smith");
    assert_eq!(person(document.get(data.editor.unwrap())).name, "John Smith");
    assert!(data.publisher.is_none());

    let c = comment(document.get(*data.comments.first().unwrap()));
    assert_eq!(c.content, "Lorem Ipsum".to_string());
    println!("{:#?}", c);
    assert_eq!(person(document.get(c.author.unwrap())).name, "John Smith");
}

#[test]
fn one_identity_resolves_to_one_slot() {
    let document = deserialize_document::<Slot, Article>(DOCUMENT).unwrap();
    let data = article(document.get(document.data));
    let c = comment(document.get(data.comments[0]));
    assert_eq!(data.author, data.editor.unwrap());
    assert_eq!(data.author, c.author.unwrap());
    // person p-1, comment c-1, and the primary article
    assert_eq!(document.holder.len(), 3);
    assert_eq!(document.data.index, 2);
}

#[test]
fn a_reference_to_an_absent_resource_is_missing() {
    let result = deserialize_document::<Slot, Article>(
        r#"{ "data": { "id": "1", "type": "article", "attributes": { "title": "Foo" },
             "relationships": {
                "author": { "data": { "type": "person", "id": "p-9" } },
                "editor": { "data": null }, "publisher": { "data": null },
                "comments": { "data": [] } } } }"#,
    );
    match result {
        Err(Error::MissingResource { kind, id }) => {
            assert_eq!(kind, "person");
            assert_eq!(id, "p-9");
        }
        other => panic!("expected a missing resource, got {:?}", other),
    }
}

#[test]
fn one_identity_as_two_types_is_a_mismatch() {
    let result = deserialize_document::<Slot, Article>(
        r#"{ "data": { "id": "1", "type": "article", "attributes": { "title": "Foo" },
             "relationships": {
                "author": { "data": { "type": "person", "id": "p-1" } },
                "editor": { "data": null }, "publisher": { "data": null },
                "comments": { "data": [ { "type": "person", "id": "p-1" } ] } } },
             "included": [ { "type": "person", "id": "p-1", "attributes": { "name": "Ann" } } ] }"#,
    );
    match result {
        Err(Error::ResourceTypeMismatch { expected, found }) => {
            assert_eq!(expected, "Comment");
            assert_eq!(found, "Person");
        }
        other => panic!("expected a type mismatch, got {:?}", other),
    }
}

#[test]
fn a_later_duplicate_in_included_wins() {
    let document = deserialize_document::<Slot, Article>(
        r#"{ "data": { "id": "1", "type": "article", "attributes": { "title": "Foo" },
             "relationships": {
                "author": { "data": { "type": "person", "id": "p-1" } },
                "editor": { "data": null }, "publisher": { "data": null },
                "comments": { "data": [] } } },
             "included": [
                { "type": "person", "id": "p-1", "attributes": { "name": "First" } },
                { "type": "person", "id": "p-1", "attributes": { "name": "Second" } } ] }"#,
    )
    .unwrap();
    let data = article(document.get(document.data));
    assert_eq!(person(document.get(data.author)).name, "Second");
}

#[test]
fn nested_collection_keeps_source_order() {
    let document = deserialize_document::<Slot, Article>(
        r#"{ "data": { "id": "1", "type": "article", "attributes": { "title": "Foo" },
             "relationships": {
                "author": { "data": { "type": "person", "id": "p-1" } },
                "editor": { "data": null }, "publisher": { "data": null },
                "comments": { "data": [
                    { "type": "comment", "id": "c-2" },
                    { "type": "comment", "id": "c-3" },
                    { "type": "comment", "id": "c-1" } ] } } },
             "included": [
                { "type": "person", "id": "p-1", "attributes": { "name": "Ann" } },
                { "type": "comment", "id": "c-1", "attributes": { "content": "one" } },
                { "type": "comment", "id": "c-2", "attributes": { "content": "two" } },
                { "type": "comment", "id": "c-3", "attributes": { "content": "three" } } ] }"#,
    )
    .unwrap();
    let data = article(document.get(document.data));
    let contents: Vec<String> =
        data.comments.iter().map(|h| comment(document.get(*h)).content.clone()).collect();
    assert_eq!(contents, vec!["two".to_string(), "three".to_string(), "one".to_string()]);
    assert!(comment(document.get(data.comments[0])).author.is_none());
}

#[test]
fn resolving_no_references_touches_nothing() {
    let mut map = IncludedMap::<Slot>::empty(jsonapi_deserialize::Holder::new());
    let handles = resolve_all::<Slot, Comment>(&mut map, &vec![]).unwrap();
    assert!(handles.is_empty());
    assert!(map.into_holder().is_empty());
}
