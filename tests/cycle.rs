use jsonapi_deserialize::fields::{
    check_resource_type, read_id, required_relationship, string_value, required_attribute,
};
use jsonapi_deserialize::{
    deserialize_document, Error, Handle, Holder, IncludedMap, JsonApiDeserialize, JsonValue,
    RawResource, RawSingleRelationship,
};

#[derive(Debug, Default)]
struct Node {
    id: String,
    name: String,
    next: Handle,
}

impl JsonApiDeserialize<Node> for Node {
    const RESOURCE_TYPE: &'static str = "Node";
    fn from_value(value: &JsonValue, map: &mut IncludedMap<Node>) -> Result<Self, Error> {
        check_resource_type(value, "node")?;
        let id = read_id(value)?;
        let name = string_value(required_attribute(value, "name", "name")?)?;
        let next = RawSingleRelationship::from_json(required_relationship(value, "next", "next")?)?.data;
        let next = map.get::<Node>(&next.kind, &next.id)?;
        Ok(Node { id, name, next })
    }
    fn stub() -> Self {
        Self::default()
    }
    fn into_slot(self) -> Node {
        self
    }
}

#[test]
fn two_resources_that_reference_each_other_close_the_cycle() {
    let document = deserialize_document::<Node, Node>(
        r#"{
            "data": { "type": "node", "id": "root", "attributes": { "name": "root" },
                      "relationships": { "next": { "data": { "type": "node", "id": "a" } } } },
            "included": [
                { "type": "node", "id": "a", "attributes": { "name": "A" },
                  "relationships": { "next": { "data": { "type": "node", "id": "b" } } } },
                { "type": "node", "id": "b", "attributes": { "name": "B" },
                  "relationships": { "next": { "data": { "type": "node", "id": "a" } } } }
            ]
        }"#,
    )
    .unwrap();
    let root = document.get(document.data);
    let a = root.next;
    let b = document.get(a).next;
    assert_eq!(document.get(a).name, "A");
    assert_eq!(document.get(b).name, "B");
    assert_eq!(document.get(b).next, a);
    assert_eq!(document.get(document.get(a).next).next, a);
    assert_eq!(document.holder.len(), 3);
}

#[test]
fn a_resource_that_references_itself() {
    let document = deserialize_document::<Node, Node>(
        r#"{
            "data": { "type": "node", "id": "root", "attributes": { "name": "root" },
                      "relationships": { "next": { "data": { "type": "node", "id": "a" } } } },
            "included": [
                { "type": "node", "id": "a", "attributes": { "name": "A" },
                  "relationships": { "next": { "data": { "type": "node", "id": "a" } } } }
            ]
        }"#,
    )
    .unwrap();
    let a = document.get(document.data).next;
    assert_eq!(document.get(a).next, a);
    assert_eq!(document.get(a).id, "a");
}

#[test]
fn a_reference_back_to_the_primary_resource_resolves() {
    let document = deserialize_document::<Node, Node>(
        r#"{
            "data": { "type": "node", "id": "root", "attributes": { "name": "root" },
                      "relationships": { "next": { "data": { "type": "node", "id": "root" } } } }
        }"#,
    )
    .unwrap();
    let root = document.get(document.data);
    let copy = root.next;
    assert_eq!(document.get(copy).name, "root");
    assert_eq!(document.get(copy).next, copy);
}

fn node(id: &str, next: &str) -> RawResource {
    let name = JsonValue::Object(vec![("name".to_string(), JsonValue::Str(id.to_uppercase()))]);
    let target = JsonValue::Object(vec![
        ("type".to_string(), JsonValue::Str("node".to_string())),
        ("id".to_string(), JsonValue::Str(next.to_string())),
    ]);
    let rels = JsonValue::Object(vec![(
        "next".to_string(),
        JsonValue::Object(vec![("data".to_string(), target)]),
    )]);
    RawResource {
        id: id.to_string(),
        kind: "node".to_string(),
        attributes: Some(name),
        relationships: Some(rels),
    }
}

#[test]
fn resolving_twice_gives_the_same_slot() {
    let mut map = IncludedMap::from_includes(vec![node("a", "b"), node("b", "a")], Holder::new());
    let first = map.get::<Node>("node", "a").unwrap();
    let second = map.get::<Node>("node", "a").unwrap();
    let b = map.get::<Node>("node", "b").unwrap();
    assert_eq!(first, second);
    let holder = map.into_holder();
    assert_eq!(holder.len(), 2);
    assert_eq!(holder.get(b).next, first);
    assert_eq!(holder.get(first).next, b);
    assert_eq!(holder.get(first).name, "A");
}

#[test]
fn an_empty_index_has_nothing_to_resolve() {
    let mut map = IncludedMap::<Node>::empty(Holder::new());
    match map.get::<Node>("node", "a") {
        Err(Error::MissingResource { kind, id }) => {
            assert_eq!(kind, "node");
            assert_eq!(id, "a");
        }
        other => panic!("expected a missing resource, got {:?}", other),
    }
    assert!(map.into_holder().is_empty());
}

#[test]
fn a_raw_resource_reads_back_as_its_object() {
    let value = node("a", "b").to_json();
    assert_eq!(read_id(&value).unwrap(), "a");
    assert!(check_resource_type(&value, "node").is_ok());
    let parsed = RawResource::from_json(&value).unwrap();
    assert_eq!(parsed.kind, "node");
    assert!(parsed.attributes.is_some());
}

#[test]
fn holder_slots_keep_their_handles() {
    let mut holder: Holder<String> = Holder::default();
    let first = holder.allocate("one".to_string());
    let second = holder.allocate("two".to_string());
    assert_eq!(first.index, 0);
    assert_eq!(second.index, 1);
    assert_eq!(holder.get(first), "one");
    assert_eq!(holder.get(second), "two");
    assert_eq!(holder.len(), 2);
}
