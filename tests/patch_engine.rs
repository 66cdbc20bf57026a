use hash_graph_core::confidence::{Confidence, PropertyConfidence};
use hash_graph_core::patch::{patch_properties, PatchErrorKind, PropertyPatchOperation};
use hash_graph_core::path::{PropertyPath, PropertyPathElement};
use hash_graph_core::property::{
    JsonValue, Property, PropertyEntry, PropertyObject,
};

const NAME: &str = "https://example.org/types/property-type/name/";
const INTERESTS: &str = "https://example.org/types/property-type/interests/";
const FILM: &str = "https://example.org/types/property-type/film/";
const LIST: &str = "https://example.org/types/property-type/list/";

fn key(k: &str) -> PropertyPathElement {
    PropertyPathElement::Property(k.to_string())
}

fn path(elements: Vec<PropertyPathElement>) -> PropertyPath {
    PropertyPath { elements }
}

fn p(keys: &[&str]) -> PropertyPath {
    path(keys.iter().map(|k| key(k)).collect())
}

fn text(s: &str) -> Property {
    Property::Value(JsonValue::String(s.to_string()))
}

fn num(n: i64) -> Property {
    Property::Value(JsonValue::Number(n))
}

fn object(entries: Vec<(&str, Property)>) -> Property {
    Property::Object(PropertyObject {
        entries: entries
            .into_iter()
            .map(|(k, v)| PropertyEntry { key: k.to_string(), value: v })
            .collect(),
    })
}

fn run(tree: &mut Property, ops: Vec<PropertyPatchOperation>) -> Result<(), (usize, PatchErrorKind)> {
    let mut confidence = PropertyConfidence::new();
    patch_properties(tree, &mut confidence, &ops).map_err(|e| (e.index, e.kind))
}

fn numbers() -> Property {
    object(vec![(LIST, Property::Array(vec![num(1), num(2), num(3)]))])
}

#[test]
fn add_replace_remove_scenario() {
    let mut tree = object(vec![]);
    run(&mut tree, vec![PropertyPatchOperation::Add { path: p(&[NAME]), value: text("Bob"), confidence: None }])
        .unwrap();
    assert!(tree.same_as(&object(vec![(NAME, text("Bob"))])));
    run(&mut tree, vec![PropertyPatchOperation::Replace { path: p(&[NAME]), value: text("Alice"), confidence: None }])
        .unwrap();
    assert!(tree.same_as(&object(vec![(NAME, text("Alice"))])));
    run(&mut tree, vec![PropertyPatchOperation::Remove { path: p(&[NAME]) }]).unwrap();
    assert!(tree.same_as(&object(vec![])));
}

#[test]
fn add_then_test_succeeds() {
    let mut tree = numbers();
    let at = path(vec![key(LIST), PropertyPathElement::Index(1)]);
    run(
        &mut tree,
        vec![
            PropertyPatchOperation::Add { path: at.clone_path(), value: num(9), confidence: None },
            PropertyPatchOperation::Test { path: at, value: num(9) },
        ],
    )
    .unwrap();
    assert!(tree.same_as(&object(vec![(LIST, Property::Array(vec![num(1), num(9), num(2), num(3)]))])));
}

#[test]
fn remove_then_test_fails_with_path_not_found() {
    let mut tree = object(vec![(NAME, text("Alice"))]);
    let result = run(
        &mut tree,
        vec![
            PropertyPatchOperation::Remove { path: p(&[NAME]) },
            PropertyPatchOperation::Test { path: p(&[NAME]), value: text("Alice") },
        ],
    );
    assert_eq!(result, Err((1, PatchErrorKind::PathNotFound)));
    let result = run(
        &mut tree,
        vec![
            PropertyPatchOperation::Remove { path: p(&[FILM]) },
            PropertyPatchOperation::Test { path: p(&[FILM]), value: text("Alice") },
        ],
    );
    assert_eq!(result, Err((0, PatchErrorKind::PathNotFound)));
}

#[test]
fn move_there_and_back_restores_tree() {
    let before = object(vec![(NAME, text("Alice")), (INTERESTS, object(vec![]))]);
    let mut tree = before.deep_clone();
    run(
        &mut tree,
        vec![
            PropertyPatchOperation::Move { from: p(&[NAME]), path: p(&[INTERESTS, FILM]), confidence: None },
            PropertyPatchOperation::Move { from: p(&[INTERESTS, FILM]), path: p(&[NAME]), confidence: None },
        ],
    )
    .unwrap();
    assert!(tree.same_as(&before));
}

#[test]
fn copy_keeps_source_and_duplicates_value() {
    let mut tree = object(vec![(NAME, text("Alice")), (INTERESTS, object(vec![]))]);
    run(
        &mut tree,
        vec![PropertyPatchOperation::Copy { from: p(&[NAME]), path: p(&[INTERESTS, FILM]), confidence: None }],
    )
    .unwrap();
    assert!(tree.get(&p(&[NAME])).unwrap().same_as(&text("Alice")));
    assert!(tree.get(&p(&[INTERESTS, FILM])).unwrap().same_as(&text("Alice")));
}

#[test]
fn move_into_own_subtree_is_a_cycle() {
    let mut tree = object(vec![(INTERESTS, object(vec![(FILM, text("x"))]))]);
    let result = run(
        &mut tree,
        vec![PropertyPatchOperation::Move { from: p(&[INTERESTS]), path: p(&[INTERESTS, NAME]), confidence: None }],
    );
    assert_eq!(result, Err((0, PatchErrorKind::CycleDetected)));
    let result = run(
        &mut tree,
        vec![PropertyPatchOperation::Move { from: p(&[FILM]), path: p(&[NAME]), confidence: None }],
    );
    assert_eq!(result, Err((0, PatchErrorKind::PathNotFound)));
}

#[test]
fn add_past_the_end_of_an_array_is_an_invalid_index() {
    let mut tree = numbers();
    let result = run(
        &mut tree,
        vec![PropertyPatchOperation::Add {
            path: path(vec![key(LIST), PropertyPathElement::Index(4)]),
            value: num(0),
            confidence: None,
        }],
    );
    assert_eq!(result, Err((0, PatchErrorKind::InvalidIndex)));
    run(
        &mut tree,
        vec![PropertyPatchOperation::Add {
            path: path(vec![key(LIST), PropertyPathElement::Index(3)]),
            value: num(4),
            confidence: None,
        }],
    )
    .unwrap();
    assert!(tree.same_as(&object(vec![(LIST, Property::Array(vec![num(1), num(2), num(3), num(4)]))])));
}

#[test]
fn test_mismatch_fails() {
    let mut tree = object(vec![(NAME, text("Alice"))]);
    let result = run(&mut tree, vec![PropertyPatchOperation::Test { path: p(&[NAME]), value: text("Bob") }]);
    assert_eq!(result, Err((0, PatchErrorKind::TestFailed)));
    let mut confidence = PropertyConfidence::new();
    let ops = vec![PropertyPatchOperation::Test { path: p(&[NAME]), value: text("Bob") }];
    let err = patch_properties(&mut tree, &mut confidence, &ops).unwrap_err();
    assert!(err.actual.expect("actual node").same_as(&text("Alice")));
}

#[test]
fn replace_requires_existing_node() {
    let mut tree = object(vec![]);
    let result = run(
        &mut tree,
        vec![PropertyPatchOperation::Replace { path: p(&[NAME]), value: text("Bob"), confidence: None }],
    );
    assert_eq!(result, Err((0, PatchErrorKind::PathNotFound)));
}

#[test]
fn remove_array_element_shifts_the_rest() {
    let mut tree = numbers();
    run(
        &mut tree,
        vec![PropertyPatchOperation::Remove { path: path(vec![key(LIST), PropertyPathElement::Index(0)]) }],
    )
    .unwrap();
    assert!(tree.same_as(&object(vec![(LIST, Property::Array(vec![num(2), num(3)]))])));
}

#[test]
fn object_equality_ignores_entry_order() {
    let a = object(vec![(NAME, text("Alice")), (FILM, num(1))]);
    let b = object(vec![(FILM, num(1)), (NAME, text("Alice"))]);
    let c = object(vec![(FILM, num(2)), (NAME, text("Alice"))]);
    assert!(a.same_as(&b));
    assert!(!a.same_as(&c));
}

#[test]
fn confidence_follows_destination() {
    let mut tree = object(vec![(NAME, text("Alice"))]);
    let mut confidence = PropertyConfidence::new();
    let ops = vec![
        PropertyPatchOperation::Add { path: p(&[FILM]), value: text("x"), confidence: Confidence::new(250_000) },
        PropertyPatchOperation::Replace { path: p(&[NAME]), value: text("Bob"), confidence: Confidence::new(900_000) },
    ];
    patch_properties(&mut tree, &mut confidence, &ops).unwrap();
    assert_eq!(confidence.get(&p(&[FILM])).map(|c| c.millionths()), Some(250_000));
    assert_eq!(confidence.get(&p(&[NAME])).map(|c| c.millionths()), Some(900_000));

    let ops = vec![
        PropertyPatchOperation::Move { from: p(&[FILM]), path: p(&[INTERESTS]), confidence: None },
        PropertyPatchOperation::Replace { path: p(&[NAME]), value: text("Carol"), confidence: None },
    ];
    patch_properties(&mut tree, &mut confidence, &ops).unwrap();
    assert!(confidence.get(&p(&[FILM])).is_none());
    assert!(confidence.get(&p(&[INTERESTS])).is_none());
    assert!(confidence.get(&p(&[NAME])).is_none());
}

#[test]
fn confidence_is_bounded() {
    assert!(Confidence::new(1_000_000).is_some());
    assert!(Confidence::new(1_000_001).is_none());
}

#[test]
fn paths_compare_by_prefix() {
    let a = p(&[INTERESTS]);
    let b = p(&[INTERESTS, FILM]);
    assert!(a.is_prefix_of(&b));
    assert!(!b.is_prefix_of(&a));
    assert!(a.same_as(&a.clone_path()));
}

#[test]
fn move_onto_itself_leaves_tree_unchanged() {
    let before = object(vec![(NAME, text("Alice")), (LIST, Property::Array(vec![num(1), num(2)]))]);
    let mut tree = before.deep_clone();
    run(
        &mut tree,
        vec![
            PropertyPatchOperation::Move { from: p(&[NAME]), path: p(&[NAME]), confidence: None },
            PropertyPatchOperation::Move {
                from: path(vec![key(LIST), PropertyPathElement::Index(0)]),
                path: path(vec![key(LIST), PropertyPathElement::Index(0)]),
                confidence: None,
            },
        ],
    )
    .unwrap();
    assert!(tree.same_as(&before));
}
