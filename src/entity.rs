use vstd::prelude::*;

use crate::confidence::PropertyConfidence;
use crate::patch::{apply_operations, op_path, patch_properties, PatchError, PropertyPatchOperation};
use crate::property::Property;
use crate::temporal::{
    edition_recorded, with_edition, EntityHistory, TemporalError, Timestamp,
};

verus! {

/// The content of one edition of an entity.
#[derive(Debug)]
pub struct EntityEdition {
    pub entity_edition_id: u128,
    pub properties: Property,
    pub confidence: PropertyConfidence,
    pub entity_type_ids: Vec<u128>,
    pub archived: bool,
}

/// A change to an entity. An empty list of entity types keeps the current
/// ones; no `archived` flag keeps the current one; no decision time means
/// now.
#[derive(Debug)]
pub struct PatchEntityParams {
    pub decision_time: Option<Timestamp>,
    pub entity_type_ids: Vec<u128>,
    pub properties: Vec<PropertyPatchOperation>,
    pub archived: Option<bool>,
}

/// Why an entity could not be changed.
#[derive(Debug)]
pub enum PatchEntityError {
    Patch(PatchError),
    Temporal(TemporalError),
}

fn copy_ids(ids: &Vec<u128>) -> (r: Vec<u128>)
    ensures
        r@ == ids@,
{
    let mut out: Vec<u128> = Vec::new();
    let mut i: usize = 0;
    while i < ids.len()
        invariant
            i <= ids@.len(),
            out@ == ids@.subrange(0, i as int),
        decreases ids.len() - i,
    {
        out.push(ids[i]);
        i = i + 1;
        assert(out@ =~= ids@.subrange(0, i as int));
    }
    assert(ids@.subrange(0, i as int) =~= ids@);
    out
}

/// Computes the next edition of an entity from its current one and records
/// it in the entity's history at `now`, as one unit: where the patch or the
/// recording fails, the history is left as it was and no edition is made.
pub fn patch_entity(
    current: &EntityEdition,
    history: &mut EntityHistory,
    params: &PatchEntityParams,
    new_edition_id: u128,
    now: Timestamp,
) -> (r: Result<EntityEdition, PatchEntityError>)
    requires
        old(history).wf(),
    ensures
        final(history).wf(),
        match apply_operations((current.properties@, current.confidence@), params.properties@) {
            Ok(st) => (r is Ok <==> now > old(history)@.last().transaction_time.start
                && !edition_recorded(old(history)@, new_edition_id)) && match r {
                Ok(e) => e.entity_edition_id == new_edition_id && e.properties@ == st.0
                    && e.confidence@ == st.1 && e.entity_type_ids@ == (if params.entity_type_ids@.len()
                    == 0 {
                    current.entity_type_ids@
                } else {
                    params.entity_type_ids@
                }) && e.archived == match params.archived {
                    Some(a) => a,
                    None => current.archived,
                } && final(history)@ == with_edition(
                    old(history)@,
                    new_edition_id,
                    now,
                    params.decision_time,
                ),
                Err(PatchEntityError::Temporal(k)) => final(history)@ == old(history)@ && k == (
                if now <= old(history)@.last().transaction_time.start {
                    TemporalError::TemporalOverlap
                } else {
                    TemporalError::EditionExists
                }),
                Err(PatchEntityError::Patch(_)) => false,
            },
            Err((i, k)) => (r matches Err(PatchEntityError::Patch(e)) && e.index == i && e.kind
                == k && e.path@ == op_path(params.properties@[i])) && final(history)@ == old(
                history,
            )@,
        },
{
    let mut properties = current.properties.deep_clone();
    let mut confidence = current.confidence.deep_clone();
    match patch_properties(&mut properties, &mut confidence, &params.properties) {
        Ok(()) => {},
        Err(e) => {
            return Err(PatchEntityError::Patch(e));
        },
    }
    match history.record_edition(new_edition_id, now, params.decision_time) {
        Ok(()) => {},
        Err(e) => {
            return Err(PatchEntityError::Temporal(e));
        },
    }
    let entity_type_ids = if params.entity_type_ids.len() == 0 {
        copy_ids(&current.entity_type_ids)
    } else {
        copy_ids(&params.entity_type_ids)
    };
    let archived = match params.archived {
        Some(a) => a,
        None => current.archived,
    };
    Ok(EntityEdition {
        entity_edition_id: new_edition_id,
        properties,
        confidence,
        entity_type_ids,
        archived,
    })
}

} // verus!
