use hash_graph_core::confidence::{Confidence, PropertyConfidence};
use hash_graph_core::entity::{patch_entity, EntityEdition, PatchEntityError, PatchEntityParams};
use hash_graph_core::patch::{patch_properties, PatchErrorKind, PropertyPatchOperation};
use hash_graph_core::path::{PropertyPath, PropertyPathElement};
use hash_graph_core::property::{
    JsonValue, Property, PropertyEntry, PropertyObject,
};
use hash_graph_core::temporal::EntityHistory;

const NAME: &str = "https://blockprotocol.org/@alice/types/property-type/name/";
const AGE: &str = "https://blockprotocol.org/@alice/types/property-type/age/";
const INTERESTS: &str = "https://blockprotocol.org/@alice/types/property-type/interests/";
const FILM: &str = "https://blockprotocol.org/@alice/types/property-type/favorite-film/";

const PERSON: u128 = 1;
const ORGANIZATION: u128 = 2;

fn path(keys: &[&str]) -> PropertyPath {
    PropertyPath {
        elements: keys
            .iter()
            .map(|k| PropertyPathElement::Property(k.to_string()))
            .collect(),
    }
}

fn text(s: &str) -> Property {
    Property::Value(JsonValue::String(s.to_string()))
}

fn object(entries: Vec<(&str, Property)>) -> Property {
    Property::Object(PropertyObject {
        entries: entries
            .into_iter()
            .map(|(k, v)| PropertyEntry { key: k.to_string(), value: v })
            .collect(),
    })
}

fn alice() -> Property {
    object(vec![(NAME, text("Alice"))])
}

fn entries(p: &Property) -> &Vec<PropertyEntry> {
    match p {
        Property::Object(o) => &o.entries,
        _ => panic!("not an object"),
    }
}

fn at<'a>(p: &'a Property, keys: &[&str]) -> &'a Property {
    p.get(&path(keys)).expect("no node at path")
}

struct Store {
    edition: EntityEdition,
    history: EntityHistory,
    next_edition: u128,
    now: i64,
}

fn create_entity(properties: Property, entity_type_ids: Vec<u128>) -> Store {
    Store {
        edition: EntityEdition {
            entity_edition_id: 100,
            properties,
            confidence: PropertyConfidence::new(),
            entity_type_ids,
            archived: false,
        },
        history: EntityHistory::create(7, 8, None, 100, 1_000, None),
        next_edition: 101,
        now: 1_000,
    }
}

fn patch(
    store: &mut Store,
    entity_type_ids: Vec<u128>,
    properties: Vec<PropertyPatchOperation>,
) -> Result<(), PatchEntityError> {
    store.now += 10;
    let params = PatchEntityParams {
        decision_time: None,
        entity_type_ids,
        properties,
        archived: None,
    };
    let next = patch_entity(&store.edition, &mut store.history, &params, store.next_edition, store.now)?;
    store.next_edition += 1;
    store.edition = next;
    Ok(())
}

#[test]
fn properties_add() {
    let mut store = create_entity(alice(), vec![PERSON]);
    patch(
        &mut store,
        vec![],
        vec![PropertyPatchOperation::Add {
            path: path(&[AGE]),
            value: Property::Value(JsonValue::Number(30)),
            confidence: None,
        }],
    )
    .expect("could not patch entity");
    let properties = &store.edition.properties;
    assert_eq!(entries(properties).len(), 2);
    assert!(at(properties, &[NAME]).same_as(&text("Alice")));
    assert!(at(properties, &[AGE]).same_as(&Property::Value(JsonValue::Number(30))));
}

#[test]
fn properties_remove() {
    let mut store = create_entity(alice(), vec![PERSON]);
    patch(
        &mut store,
        vec![],
        vec![PropertyPatchOperation::Remove { path: path(&[NAME]) }],
    )
    .expect("could not patch entity");
    assert_eq!(entries(&store.edition.properties).len(), 0);
}

#[test]
fn properties_replace() {
    let mut store = create_entity(alice(), vec![PERSON]);
    patch(
        &mut store,
        vec![],
        vec![PropertyPatchOperation::Replace {
            path: path(&[NAME]),
            value: text("Bob"),
            confidence: None,
        }],
    )
    .expect("could not patch entity");
    let properties = &store.edition.properties;
    assert_eq!(entries(properties).len(), 1);
    assert!(at(properties, &[NAME]).same_as(&text("Bob")));
}

#[test]
fn properties_move() {
    let mut store = create_entity(alice(), vec![PERSON]);
    let failed = patch(
        &mut store,
        vec![],
        vec![PropertyPatchOperation::Move {
            from: path(&[NAME]),
            path: path(&[INTERESTS, FILM]),
            confidence: None,
        }],
    );
    match failed {
        Err(PatchEntityError::Patch(e)) => {
            assert_eq!(e.kind, PatchErrorKind::PathNotFound);
            assert_eq!(e.index, 0);
        }
        _ => panic!("Could patch entity with invalid move operation"),
    }

    patch(
        &mut store,
        vec![],
        vec![
            PropertyPatchOperation::Add {
                path: path(&[INTERESTS]),
                value: object(vec![]),
                confidence: None,
            },
            PropertyPatchOperation::Move {
                from: path(&[NAME]),
                path: path(&[INTERESTS, FILM]),
                confidence: None,
            },
        ],
    )
    .expect("could not patch entity");
    let properties = &store.edition.properties;
    assert_eq!(entries(properties).len(), 1);
    assert!(at(properties, &[INTERESTS]).same_as(&object(vec![(FILM, text("Alice"))])));
}

#[test]
fn properties_copy() {
    let mut store = create_entity(alice(), vec![PERSON]);
    patch(
        &mut store,
        vec![],
        vec![
            PropertyPatchOperation::Add {
                path: path(&[INTERESTS]),
                value: object(vec![]),
                confidence: None,
            },
            PropertyPatchOperation::Test {
                path: path(&[INTERESTS]),
                value: object(vec![]),
            },
            PropertyPatchOperation::Copy {
                from: path(&[NAME]),
                path: path(&[INTERESTS, FILM]),
                confidence: None,
            },
        ],
    )
    .expect("could not patch entity");
    let properties = &store.edition.properties;
    assert_eq!(entries(properties).len(), 2);
    assert!(at(properties, &[NAME]).same_as(&text("Alice")));
    assert!(at(properties, &[INTERESTS]).same_as(&object(vec![(FILM, text("Alice"))])));
}

#[test]
fn type_ids() {
    let mut store = create_entity(object(vec![]), vec![PERSON]);
    patch(&mut store, vec![], vec![]).expect("could not patch entity");
    assert_eq!(
        store.edition.entity_type_ids,
        vec![PERSON],
        "Entity type ids changed even though none were provided in the patch operation"
    );

    patch(&mut store, vec![PERSON, ORGANIZATION], vec![]).expect("could not patch entity");
    let mut ids = store.edition.entity_type_ids.clone();
    ids.sort();
    assert_eq!(ids, vec![PERSON, ORGANIZATION]);

    patch(&mut store, vec![PERSON], vec![]).expect("could not patch entity");
    assert_eq!(store.edition.entity_type_ids, vec![PERSON]);
}

#[test]
fn failed_patch_leaves_entity_and_history_unchanged() {
    let mut store = create_entity(alice(), vec![PERSON]);
    let result = patch(
        &mut store,
        vec![],
        vec![
            PropertyPatchOperation::Add { path: path(&[AGE]), value: text("x"), confidence: None },
            PropertyPatchOperation::Remove { path: path(&[FILM]) },
        ],
    );
    match result {
        Err(PatchEntityError::Patch(e)) => {
            assert_eq!(e.index, 1);
            assert_eq!(e.kind, PatchErrorKind::PathNotFound);
            assert_eq!(e.path.elements.len(), 1);
        }
        _ => panic!("patch should fail"),
    }
    assert_eq!(entries(&store.edition.properties).len(), 1);
    assert_eq!(store.history.len(), 1);
}

#[test]
fn failed_batch_keeps_tree_and_confidence() {
    let mut tree = alice();
    let mut confidence = PropertyConfidence::new();
    confidence.set(&path(&[NAME]), Confidence::new(500_000));
    let ops = vec![
        PropertyPatchOperation::Remove { path: path(&[NAME]) },
        PropertyPatchOperation::Test { path: path(&[NAME]), value: text("Alice") },
    ];
    let err = patch_properties(&mut tree, &mut confidence, &ops).unwrap_err();
    assert_eq!(err.index, 1);
    assert_eq!(err.kind, PatchErrorKind::PathNotFound);
    assert!(tree.same_as(&alice()));
    assert_eq!(confidence.get(&path(&[NAME])).map(|c| c.millionths()), Some(500_000));
}

#[test]
fn archive_keeps_history() {
    let mut store = create_entity(alice(), vec![PERSON]);
    store.now += 5;
    let params = PatchEntityParams {
        decision_time: None,
        entity_type_ids: vec![],
        properties: vec![],
        archived: Some(true),
    };
    let next = patch_entity(&store.edition, &mut store.history, &params, 200, store.now).unwrap();
    assert!(next.archived);
    assert_eq!(store.history.len(), 2);
    assert_eq!(store.history.row(0).entity_edition_id, 100);
    assert_eq!(store.history.row(1).entity_edition_id, 200);
}

#[test]
fn stale_write_is_a_conflict() {
    let mut store = create_entity(alice(), vec![PERSON]);
    let params = PatchEntityParams {
        decision_time: None,
        entity_type_ids: vec![],
        properties: vec![],
        archived: None,
    };
    match patch_entity(&store.edition, &mut store.history, &params, 300, 1_000) {
        Err(PatchEntityError::Temporal(e)) => {
            assert_eq!(e, hash_graph_core::temporal::TemporalError::TemporalOverlap)
        }
        _ => panic!("write at the same instant must conflict"),
    }
    assert_eq!(store.history.len(), 1);
}

#[test]
fn reused_edition_is_rejected_and_reports_patch_path() {
    let mut store = create_entity(alice(), vec![PERSON]);
    let params = PatchEntityParams {
        decision_time: Some(1_005),
        entity_type_ids: vec![],
        properties: vec![],
        archived: None,
    };
    match patch_entity(&store.edition, &mut store.history, &params, 100, 2_000) {
        Err(PatchEntityError::Temporal(e)) => {
            assert_eq!(e, hash_graph_core::temporal::TemporalError::EditionExists)
        }
        _ => panic!("a reused edition must be rejected"),
    }
    let next = patch_entity(&store.edition, &mut store.history, &params, 101, 2_000).unwrap();
    assert_eq!(next.entity_edition_id, 101);
    assert_eq!(store.history.row(0).transaction_time.end, Some(2_000));
    assert_eq!(store.history.row(1).decision_time.start, 1_005);

    let params = PatchEntityParams {
        decision_time: None,
        entity_type_ids: vec![],
        properties: vec![PropertyPatchOperation::Remove { path: path(&[AGE]) }],
        archived: None,
    };
    match patch_entity(&next, &mut store.history, &params, 102, 3_000) {
        Err(PatchEntityError::Patch(e)) => {
            assert_eq!(e.index, 0);
            assert!(e.path.same_as(&path(&[AGE])));
        }
        _ => panic!("removing a missing property must fail"),
    }
    assert_eq!(store.history.len(), 2);
}
