use hash_graph_core::deserializer::{Context, ObjectAccessDeserializer};
use hash_graph_core::table::{is_of_type_rows, link_edge_rows, property_rows, confidence_from_rows};
use hash_graph_core::temporal::{EntityHistory, LeftClosedTemporalInterval, TemporalError};
use hash_graph_core::confidence::{Confidence, PropertyConfidence};
use hash_graph_core::path::{PropertyPath, PropertyPathElement};

#[test]
fn created_then_patched_history() {
    let mut history = EntityHistory::create(1, 2, None, 10, 100, None);
    assert_eq!(history.len(), 1);
    assert_eq!(
        history.row(0).transaction_time,
        LeftClosedTemporalInterval { start: 100, end: None }
    );
    history.record_edition(11, 250, None).unwrap();
    assert_eq!(history.len(), 2);
    assert_eq!(
        history.row(0).transaction_time,
        LeftClosedTemporalInterval { start: 100, end: Some(250) }
    );
    assert_eq!(
        history.row(1).transaction_time,
        LeftClosedTemporalInterval { start: 250, end: None }
    );
    assert_ne!(history.row(0).entity_edition_id, history.row(1).entity_edition_id);
    assert_eq!(history.current().entity_edition_id, 11);
}

#[test]
fn intervals_never_overlap() {
    let mut history = EntityHistory::create(1, 2, Some(3), 10, 100, Some(50));
    assert_eq!(history.row(0).decision_time, LeftClosedTemporalInterval { start: 50, end: None });
    assert_eq!(history.record_edition(11, 100, None), Err(TemporalError::TemporalOverlap));
    assert_eq!(history.record_edition(11, 90, None), Err(TemporalError::TemporalOverlap));
    assert_eq!(history.record_edition(10, 200, None), Err(TemporalError::EditionExists));
    assert_eq!(history.len(), 1);
    history.record_edition(11, 200, Some(120)).unwrap();
    history.record_edition(12, 300, None).unwrap();
    for i in 0..history.len() - 1 {
        assert_eq!(history.row(i).transaction_time.end, Some(history.row(i + 1).transaction_time.start));
        assert_eq!(history.row(i).draft_id, Some(3));
    }
    assert_eq!(history.current().transaction_time.end, None);
    assert_eq!(history.row(1).decision_time.start, 120);
}

#[test]
fn lookup_by_transaction_time() {
    let mut history = EntityHistory::create(1, 2, None, 10, 100, None);
    history.record_edition(11, 200, None).unwrap();
    assert_eq!(history.row_at(99), None);
    assert_eq!(history.row_at(100), Some(0));
    assert_eq!(history.row_at(199), Some(0));
    assert_eq!(history.row_at(200), Some(1));
    assert_eq!(history.row_at(10_000), Some(1));
    assert!(history.row(0).transaction_time.contains(150));
    assert!(!history.row(0).transaction_time.contains(200));
}

#[test]
fn link_edges_name_both_endpoints() {
    let (left, right) = link_edge_rows(1, 2, (3, 4), Confidence::new(10), (5, 6), None);
    assert_eq!((left.web_id, left.entity_uuid), (1, 2));
    assert_eq!((left.left_web_id, left.left_entity_uuid), (3, 4));
    assert_eq!(left.confidence.map(|c| c.millionths()), Some(10));
    assert_eq!((right.right_web_id, right.right_entity_uuid), (5, 6));
    assert!(right.confidence.is_none());
}

#[test]
fn type_and_property_rows() {
    let rows = is_of_type_rows(9, &vec![1, 2]);
    assert_eq!(rows.len(), 2);
    assert_eq!(rows[1].entity_type_ontology_id, 2);
    assert_eq!(rows[0].entity_edition_id, 9);

    let mut confidence = PropertyConfidence::new();
    let name = PropertyPath { elements: vec![PropertyPathElement::Property("name".to_string())] };
    confidence.set(&name, Confidence::new(700_000));
    let rows = property_rows(9, &confidence);
    assert_eq!(rows.len(), 1);
    assert_eq!(rows[0].confidence.map(|c| c.millionths()), Some(700_000));
    let rebuilt = confidence_from_rows(&rows);
    assert_eq!(rebuilt.get(&name).map(|c| c.millionths()), Some(700_000));
}

#[test]
fn object_access_deserializer_keeps_its_parts() {
    let context = Context::new();
    let deserializer = ObjectAccessDeserializer::new(&context, 5u8);
    assert!(std::ptr::eq(deserializer.context(), &context));
    assert_eq!(deserializer.into_value(), 5);
}
