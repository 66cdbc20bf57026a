use vstd::prelude::*;

use crate::confidence::{confidence_map, with_confidence, Confidence, ConfidenceEntry, PropertyConfidence};
use crate::path::{PathStep, PropertyPath};
use crate::property::Property;
use crate::temporal::Timestamp;

verus! {

/// Who created an entity, and when.
#[derive(Debug, Clone, Copy, PartialEq, Eq, Structural)]
pub struct InferredEntityProvenanceMetadata {
    pub created_by_id: u128,
    pub created_at_transaction_time: Timestamp,
    pub created_at_decision_time: Timestamp,
}

/// Who wrote an edition.
#[derive(Debug, Clone, Copy, PartialEq, Eq, Structural)]
pub struct EntityEditionProvenanceMetadata {
    pub created_by_id: u128,
}

/// The permanent identity of an entity.
#[derive(Debug)]
pub struct EntityIdRow {
    pub web_id: u128,
    pub entity_uuid: u128,
    pub provenance: InferredEntityProvenanceMetadata,
}

/// A draft that forks the history of an entity.
#[derive(Debug)]
pub struct EntityDraftRow {
    pub web_id: u128,
    pub entity_uuid: u128,
    pub draft_id: u128,
}

/// One immutable snapshot of an entity's content; its properties form an
/// object.
#[derive(Debug)]
pub struct EntityEditionRow {
    pub entity_edition_id: u128,
    pub properties: Property,
    pub archived: bool,
    pub confidence: Option<Confidence>,
    pub provenance: EntityEditionProvenanceMetadata,
}

/// The confidence recorded for one property path of an edition.
#[derive(Debug)]
pub struct EntityPropertyRow {
    pub entity_edition_id: u128,
    pub property_path: PropertyPath,
    pub confidence: Option<Confidence>,
}

/// One entity type that an edition is of.
#[derive(Debug, Clone, Copy, PartialEq, Eq, Structural)]
pub struct EntityIsOfTypeRow {
    pub entity_edition_id: u128,
    pub entity_type_ontology_id: u128,
}

/// The entity that a link entity points from.
#[derive(Debug, Clone, Copy, PartialEq, Eq, Structural)]
pub struct EntityHasLeftEntityRow {
    pub web_id: u128,
    pub entity_uuid: u128,
    pub left_web_id: u128,
    pub left_entity_uuid: u128,
    pub confidence: Option<Confidence>,
}

/// The entity that a link entity points to.
#[derive(Debug, Clone, Copy, PartialEq, Eq, Structural)]
pub struct EntityHasRightEntityRow {
    pub web_id: u128,
    pub entity_uuid: u128,
    pub right_web_id: u128,
    pub right_entity_uuid: u128,
    pub confidence: Option<Confidence>,
}

/// The edge rows of a link entity from `(web_id, entity_uuid)` to its two
/// endpoints, each with its own confidence.
pub fn link_edge_rows(
    web_id: u128,
    entity_uuid: u128,
    left: (u128, u128),
    left_confidence: Option<Confidence>,
    right: (u128, u128),
    right_confidence: Option<Confidence>,
) -> (r: (EntityHasLeftEntityRow, EntityHasRightEntityRow))
    ensures
        r.0 == (EntityHasLeftEntityRow {
            web_id,
            entity_uuid,
            left_web_id: left.0,
            left_entity_uuid: left.1,
            confidence: left_confidence,
        }),
        r.1 == (EntityHasRightEntityRow {
            web_id,
            entity_uuid,
            right_web_id: right.0,
            right_entity_uuid: right.1,
            confidence: right_confidence,
        }),
{
    (
        EntityHasLeftEntityRow {
            web_id,
            entity_uuid,
            left_web_id: left.0,
            left_entity_uuid: left.1,
            confidence: left_confidence,
        },
        EntityHasRightEntityRow {
            web_id,
            entity_uuid,
            right_web_id: right.0,
            right_entity_uuid: right.1,
            confidence: right_confidence,
        },
    )
}

/// The type rows of an edition: one per entity type, in the given order.
pub fn is_of_type_rows(entity_edition_id: u128, entity_type_ontology_ids: &Vec<u128>) -> (r: Vec<
    EntityIsOfTypeRow,
>)
    ensures
        r@.len() == entity_type_ontology_ids@.len(),
        forall|i: int|
            0 <= i < r@.len() ==> #[trigger] r@[i] == (EntityIsOfTypeRow {
                entity_edition_id,
                entity_type_ontology_id: entity_type_ontology_ids@[i],
            }),
{
    let mut rows: Vec<EntityIsOfTypeRow> = Vec::new();
    let mut i: usize = 0;
    while i < entity_type_ontology_ids.len()
        invariant
            i <= entity_type_ontology_ids@.len(),
            rows@.len() == i,
            forall|j: int|
                0 <= j < i ==> #[trigger] rows@[j] == (EntityIsOfTypeRow {
                    entity_edition_id,
                    entity_type_ontology_id: entity_type_ontology_ids@[j],
                }),
        decreases entity_type_ontology_ids.len() - i,
    {
        rows.push(
            EntityIsOfTypeRow {
                entity_edition_id,
                entity_type_ontology_id: entity_type_ontology_ids[i],
            },
        );
        i = i + 1;
    }
    rows
}

/// The property rows of an edition: one per entry of its confidence map, in
/// the map's order.
pub fn property_rows(entity_edition_id: u128, confidence: &PropertyConfidence) -> (r: Vec<
    EntityPropertyRow,
>)
    ensures
        r@.len() == confidence.entries@.len(),
        forall|i: int|
            0 <= i < r@.len() ==> (#[trigger] r@[i]).entity_edition_id == entity_edition_id
                && r@[i].property_path@ == confidence.entries@[i].path@ && r@[i].confidence == Some(
                confidence.entries@[i].confidence,
            ),
        rows_confidence(r@) == confidence@,
{
    let mut rows: Vec<EntityPropertyRow> = Vec::new();
    let mut i: usize = 0;
    while i < confidence.entries.len()
        invariant
            i <= confidence.entries@.len(),
            rows@.len() == i,
            forall|j: int|
                0 <= j < i ==> (#[trigger] rows@[j]).entity_edition_id == entity_edition_id
                    && rows@[j].property_path@ == confidence.entries@[j].path@ && rows@[j].confidence
                    == Some(confidence.entries@[j].confidence),
            rows_confidence(rows@) == confidence_map(confidence.entries@.subrange(0, i as int)),
        decreases confidence.entries.len() - i,
    {
        let entry: &ConfidenceEntry = &confidence.entries[i];
        let row = EntityPropertyRow {
            entity_edition_id,
            property_path: entry.path.clone_path(),
            confidence: Some(entry.confidence),
        };
        let ghost before = rows@;
        rows.push(row);
        proof {
            assert(rows@.subrange(0, rows@.len() - 1) =~= before);
            let s = confidence.entries@.subrange(0, i + 1);
            assert(s.subrange(0, s.len() - 1) =~= confidence.entries@.subrange(0, i as int));
        }
        i = i + 1;
    }
    assert(confidence.entries@.subrange(0, i as int) =~= confidence.entries@);
    rows
}

/// The confidence map that a list of property rows describes, read in
/// order: a row with a score sets it, a row without one clears it.
pub open spec fn rows_confidence(rows: Seq<EntityPropertyRow>) -> Map<Seq<PathStep>, nat>
    decreases rows.len(),
{
    if rows.len() == 0 {
        Map::empty()
    } else {
        with_confidence(
            rows_confidence(rows.subrange(0, rows.len() - 1)),
            rows[rows.len() - 1].property_path@,
            rows[rows.len() - 1].confidence,
        )
    }
}

/// Rebuilds an edition's confidence map from its property rows.
pub fn confidence_from_rows(rows: &Vec<EntityPropertyRow>) -> (r: PropertyConfidence)
    ensures
        r@ == rows_confidence(rows@),
{
    let mut out = PropertyConfidence::new();
    let mut i: usize = 0;
    while i < rows.len()
        invariant
            i <= rows@.len(),
            out@ == rows_confidence(rows@.subrange(0, i as int)),
        decreases rows.len() - i,
    {
        assert(rows@.subrange(0, i + 1).subrange(0, i as int) =~= rows@.subrange(0, i as int));
        out.set(&rows[i].property_path, rows[i].confidence);
        i = i + 1;
    }
    assert(rows@.subrange(0, i as int) =~= rows@);
    out
}

} // verus!
