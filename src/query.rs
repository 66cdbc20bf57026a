use vstd::prelude::*;

use crate::path::PropertyPath;

verus! {

/// A table of the relational store.
#[derive(Debug, Clone, Copy, PartialEq, Eq, Structural)]
pub enum Table {
    TypeIds,
    DataTypes,
    PropertyTypes,
    PropertyTypeDataTypeReferences,
    PropertyTypePropertyTypeReferences,
    EntityTypes,
    EntityTypePropertyTypeReferences,
    EntityTypeInheritsFrom,
    EntityTypeConstrainsLinksOn,
    EntityTemporalMetadata,
    EntityEditions,
    EntityIsOfType,
    EntityHasLeftEntity,
    EntityHasRightEntity,
}

/// A join edge that leads from one table towards the table of a nested record.
#[derive(Debug, Clone, Copy, PartialEq, Eq, Structural)]
pub enum Relation {
    DataTypeIds,
    PropertyTypeIds,
    PropertyTypeDataTypeReferences,
    PropertyTypePropertyTypeReferences,
    EntityTypeIds,
    EntityTypePropertyTypeReferences,
    EntityTypeInheritsFrom,
    EntityTypeLinks,
    EntityEditions,
    EntityIsOfType,
    LeftEntity,
    RightEntity,
}

/// The columns of the table that holds the identity of every ontology type.
#[derive(Debug, Clone, Copy, PartialEq, Eq, Structural)]
pub enum TypeIds {
    VersionId,
    BaseUrl,
    Version,
}

/// A sub-field of a JSON column: a well-known key, or an arbitrary path.
#[derive(Debug)]
pub enum JsonField<'p> {
    StaticText(&'static str),
    JsonPath(&'p PropertyPath),
}

#[derive(Debug)]
pub enum DataTypes<'p> {
    VersionId,
    OwnedById,
    UpdatedById,
    Schema(Option<JsonField<'p>>),
}

#[derive(Debug)]
pub enum PropertyTypes<'p> {
    VersionId,
    OwnedById,
    UpdatedById,
    Schema(Option<JsonField<'p>>),
}

#[derive(Debug)]
pub enum EntityTypes<'p> {
    VersionId,
    OwnedById,
    UpdatedById,
    Schema(Option<JsonField<'p>>),
}

/// The columns that bind an entity edition to its time intervals.
#[derive(Debug, Clone, Copy, PartialEq, Eq, Structural)]
pub enum EntityTemporalMetadata {
    WebId,
    EntityUuid,
    DraftId,
    EditionId,
    DecisionTime,
    TransactionTime,
}

#[derive(Debug)]
pub enum EntityEditions<'p> {
    EditionId,
    Archived,
    Properties(Option<JsonField<'p>>),
}

/// A physical column, possibly narrowed to a sub-field of a JSON column.
#[derive(Debug)]
pub enum Column<'p> {
    TypeIds(TypeIds),
    DataTypes(DataTypes<'p>),
    PropertyTypes(PropertyTypes<'p>),
    EntityTypes(EntityTypes<'p>),
    EntityTemporalMetadata(EntityTemporalMetadata),
    EntityEditions(EntityEditions<'p>),
}

/// What can be asked of a data type.
#[derive(Debug)]
pub enum DataTypeQueryPath {
    BaseUrl,
    Version,
    VersionId,
    OwnedById,
    UpdatedById,
    Schema(Option<PropertyPath>),
    VersionedUrl,
    Title,
    Description,
    Type,
}

/// What can be asked of a property type, including, through its references,
/// anything that can be asked of the data types and property types it uses.
#[derive(Debug)]
pub enum PropertyTypeQueryPath {
    BaseUrl,
    Version,
    VersionId,
    OwnedById,
    UpdatedById,
    Schema(Option<PropertyPath>),
    VersionedUrl,
    Title,
    Description,
    DataTypes(Box<DataTypeQueryPath>),
    PropertyTypes(Box<PropertyTypeQueryPath>),
}

/// What can be asked of an entity type, including, through its references,
/// anything that can be asked of its property types, of the types it
/// inherits from, and of the link types it allows.
#[derive(Debug)]
pub enum EntityTypeQueryPath {
    BaseUrl,
    Version,
    VersionId,
    OwnedById,
    UpdatedById,
    Schema(Option<PropertyPath>),
    VersionedUrl,
    Title,
    Description,
    Properties(Box<PropertyTypeQueryPath>),
    InheritsFrom(Box<EntityTypeQueryPath>),
    Links(Box<EntityTypeQueryPath>),
}

/// What can be asked of an entity: its identity and times, its current
/// content, its types and, for a link, the entities it connects.
#[derive(Debug)]
pub enum EntityQueryPath {
    Uuid,
    OwnedById,
    DraftId,
    EditionId,
    DecisionTime,
    TransactionTime,
    Archived,
    Properties(Option<PropertyPath>),
    Type(Box<EntityTypeQueryPath>),
    LeftEntity(Box<EntityQueryPath>),
    RightEntity(Box<EntityQueryPath>),
}

/// The table that holds entity types.
pub fn entity_type_base_table() -> (r: Table)
    ensures
        r == Table::EntityTypes,
{
    Table::EntityTypes
}

/// The table that entity queries start from: one row per edition and time.
pub fn entity_base_table() -> (r: Table)
    ensures
        r == Table::EntityTemporalMetadata,
{
    Table::EntityTemporalMetadata
}

/// The table that holds data types.
pub fn data_type_base_table() -> (r: Table)
    ensures
        r == Table::DataTypes,
{
    Table::DataTypes
}

/// The table that holds property types.
pub fn property_type_base_table() -> (r: Table)
    ensures
        r == Table::PropertyTypes,
{
    Table::PropertyTypes
}

pub open spec fn data_type_schema_column<'p>(field: Option<JsonField<'p>>) -> Column<'p> {
    Column::DataTypes(DataTypes::Schema(field))
}

pub open spec fn entity_type_schema_column<'p>(field: Option<JsonField<'p>>) -> Column<'p> {
    Column::EntityTypes(EntityTypes::Schema(field))
}

pub open spec fn property_type_schema_column<'p>(field: Option<JsonField<'p>>) -> Column<'p> {
    Column::PropertyTypes(PropertyTypes::Schema(field))
}

impl DataTypeQueryPath {
    /// The joins needed to reach the column that this path names.
    pub open spec fn relations_spec(&self) -> Seq<Relation> {
        match self {
            DataTypeQueryPath::BaseUrl | DataTypeQueryPath::Version => seq![Relation::DataTypeIds],
            _ => Seq::empty(),
        }
    }

    /// The column that this path names.
    pub open spec fn terminating_column_spec<'p>(&'p self) -> Column<'p> {
        match self {
            DataTypeQueryPath::BaseUrl => Column::TypeIds(TypeIds::BaseUrl),
            DataTypeQueryPath::Version => Column::TypeIds(TypeIds::Version),
            DataTypeQueryPath::VersionId => Column::DataTypes(DataTypes::VersionId),
            DataTypeQueryPath::OwnedById => Column::DataTypes(DataTypes::OwnedById),
            DataTypeQueryPath::UpdatedById => Column::DataTypes(DataTypes::UpdatedById),
            DataTypeQueryPath::Schema(None) => data_type_schema_column(None),
            DataTypeQueryPath::Schema(Some(path)) => data_type_schema_column(
                Some(JsonField::JsonPath(path)),
            ),
            DataTypeQueryPath::VersionedUrl => data_type_schema_column(
                Some(JsonField::StaticText("$id")),
            ),
            DataTypeQueryPath::Title => data_type_schema_column(Some(JsonField::StaticText("title"))),
            DataTypeQueryPath::Description => data_type_schema_column(
                Some(JsonField::StaticText("description")),
            ),
            DataTypeQueryPath::Type => data_type_schema_column(Some(JsonField::StaticText("type"))),
        }
    }

    pub fn relations(&self) -> (r: Vec<Relation>)
        ensures
            r@ == self.relations_spec(),
    {
        match self {
            DataTypeQueryPath::BaseUrl | DataTypeQueryPath::Version => {
                let r = vec![Relation::DataTypeIds];
                assert(r@ =~= self.relations_spec());
                r
            },
            _ => {
                let r = Vec::new();
                assert(r@ =~= self.relations_spec());
                r
            },
        }
    }

    pub fn terminating_column<'p>(&'p self) -> (r: Column<'p>)
        ensures
            r == self.terminating_column_spec(),
    {
        match self {
            DataTypeQueryPath::BaseUrl => Column::TypeIds(TypeIds::BaseUrl),
            DataTypeQueryPath::Version => Column::TypeIds(TypeIds::Version),
            DataTypeQueryPath::VersionId => Column::DataTypes(DataTypes::VersionId),
            DataTypeQueryPath::OwnedById => Column::DataTypes(DataTypes::OwnedById),
            DataTypeQueryPath::UpdatedById => Column::DataTypes(DataTypes::UpdatedById),
            DataTypeQueryPath::Schema(None) => Column::DataTypes(DataTypes::Schema(None)),
            DataTypeQueryPath::Schema(Some(path)) => Column::DataTypes(
                DataTypes::Schema(Some(JsonField::JsonPath(path))),
            ),
            DataTypeQueryPath::VersionedUrl => Column::DataTypes(
                DataTypes::Schema(Some(JsonField::StaticText("$id"))),
            ),
            DataTypeQueryPath::Title => Column::DataTypes(
                DataTypes::Schema(Some(JsonField::StaticText("title"))),
            ),
            DataTypeQueryPath::Description => Column::DataTypes(
                DataTypes::Schema(Some(JsonField::StaticText("description"))),
            ),
            DataTypeQueryPath::Type => Column::DataTypes(
                DataTypes::Schema(Some(JsonField::StaticText("type"))),
            ),
        }
    }
}

impl PropertyTypeQueryPath {
    /// The joins needed to reach the column that this path names, from the
    /// property type table outwards.
    pub open spec fn relations_spec(&self) -> Seq<Relation>
        decreases self,
    {
        match self {
            PropertyTypeQueryPath::BaseUrl | PropertyTypeQueryPath::Version => seq![
                Relation::PropertyTypeIds,
            ],
            PropertyTypeQueryPath::DataTypes(path) => seq![
                Relation::PropertyTypeDataTypeReferences,
            ] + path.relations_spec(),
            PropertyTypeQueryPath::PropertyTypes(path) => seq![
                Relation::PropertyTypePropertyTypeReferences,
            ] + path.relations_spec(),
            _ => Seq::empty(),
        }
    }

    /// The column that this path names.
    pub open spec fn terminating_column_spec<'p>(&'p self) -> Column<'p>
        decreases self,
    {
        match self {
            PropertyTypeQueryPath::BaseUrl => Column::TypeIds(TypeIds::BaseUrl),
            PropertyTypeQueryPath::Version => Column::TypeIds(TypeIds::Version),
            PropertyTypeQueryPath::VersionId => Column::PropertyTypes(PropertyTypes::VersionId),
            PropertyTypeQueryPath::OwnedById => Column::PropertyTypes(PropertyTypes::OwnedById),
            PropertyTypeQueryPath::UpdatedById => Column::PropertyTypes(PropertyTypes::UpdatedById),
            PropertyTypeQueryPath::Schema(None) => property_type_schema_column(None),
            PropertyTypeQueryPath::Schema(Some(path)) => property_type_schema_column(
                Some(JsonField::JsonPath(path)),
            ),
            PropertyTypeQueryPath::VersionedUrl => property_type_schema_column(
                Some(JsonField::StaticText("$id")),
            ),
            PropertyTypeQueryPath::Title => property_type_schema_column(
                Some(JsonField::StaticText("title")),
            ),
            PropertyTypeQueryPath::Description => property_type_schema_column(
                Some(JsonField::StaticText("description")),
            ),
            PropertyTypeQueryPath::DataTypes(path) => path.terminating_column_spec(),
            PropertyTypeQueryPath::PropertyTypes(path) => path.terminating_column_spec(),
        }
    }

    pub fn relations(&self) -> (r: Vec<Relation>)
        ensures
            r@ == self.relations_spec(),
        decreases self,
    {
        match self {
            PropertyTypeQueryPath::BaseUrl | PropertyTypeQueryPath::Version => {
                let r = vec![Relation::PropertyTypeIds];
                assert(r@ =~= self.relations_spec());
                r
            },
            PropertyTypeQueryPath::DataTypes(path) => {
                let mut r = vec![Relation::PropertyTypeDataTypeReferences];
                let mut rest = path.relations();
                r.append(&mut rest);
                assert(r@ =~= self.relations_spec());
                r
            },
            PropertyTypeQueryPath::PropertyTypes(path) => {
                let mut r = vec![Relation::PropertyTypePropertyTypeReferences];
                let mut rest = path.relations();
                r.append(&mut rest);
                assert(r@ =~= self.relations_spec());
                r
            },
            _ => {
                let r = Vec::new();
                assert(r@ =~= self.relations_spec());
                r
            },
        }
    }

    pub fn terminating_column<'p>(&'p self) -> (r: Column<'p>)
        ensures
            r == self.terminating_column_spec(),
        decreases self,
    {
        match self {
            PropertyTypeQueryPath::BaseUrl => Column::TypeIds(TypeIds::BaseUrl),
            PropertyTypeQueryPath::Version => Column::TypeIds(TypeIds::Version),
            PropertyTypeQueryPath::VersionId => Column::PropertyTypes(PropertyTypes::VersionId),
            PropertyTypeQueryPath::OwnedById => Column::PropertyTypes(PropertyTypes::OwnedById),
            PropertyTypeQueryPath::UpdatedById => Column::PropertyTypes(PropertyTypes::UpdatedById),
            PropertyTypeQueryPath::Schema(None) => Column::PropertyTypes(PropertyTypes::Schema(None)),
            PropertyTypeQueryPath::Schema(Some(path)) => Column::PropertyTypes(
                PropertyTypes::Schema(Some(JsonField::JsonPath(path))),
            ),
            PropertyTypeQueryPath::VersionedUrl => Column::PropertyTypes(
                PropertyTypes::Schema(Some(JsonField::StaticText("$id"))),
            ),
            PropertyTypeQueryPath::Title => Column::PropertyTypes(
                PropertyTypes::Schema(Some(JsonField::StaticText("title"))),
            ),
            PropertyTypeQueryPath::Description => Column::PropertyTypes(
                PropertyTypes::Schema(Some(JsonField::StaticText("description"))),
            ),
            PropertyTypeQueryPath::DataTypes(path) => path.terminating_column(),
            PropertyTypeQueryPath::PropertyTypes(path) => path.terminating_column(),
        }
    }
}

impl EntityTypeQueryPath {
    /// The joins needed to reach the column that this path names, from the
    /// entity type table outwards.
    pub open spec fn relations_spec(&self) -> Seq<Relation>
        decreases self,
    {
        match self {
            EntityTypeQueryPath::BaseUrl | EntityTypeQueryPath::Version => seq![
                Relation::EntityTypeIds,
            ],
            EntityTypeQueryPath::Properties(path) => seq![
                Relation::EntityTypePropertyTypeReferences,
            ] + path.relations_spec(),
            EntityTypeQueryPath::InheritsFrom(path) => seq![Relation::EntityTypeInheritsFrom]
                + path.relations_spec(),
            EntityTypeQueryPath::Links(path) => seq![Relation::EntityTypeLinks]
                + path.relations_spec(),
            _ => Seq::empty(),
        }
    }

    /// The column that this path names.
    pub open spec fn terminating_column_spec<'p>(&'p self) -> Column<'p>
        decreases self,
    {
        match self {
            EntityTypeQueryPath::BaseUrl => Column::TypeIds(TypeIds::BaseUrl),
            EntityTypeQueryPath::Version => Column::TypeIds(TypeIds::Version),
            EntityTypeQueryPath::VersionId => Column::EntityTypes(EntityTypes::VersionId),
            EntityTypeQueryPath::OwnedById => Column::EntityTypes(EntityTypes::OwnedById),
            EntityTypeQueryPath::UpdatedById => Column::EntityTypes(EntityTypes::UpdatedById),
            EntityTypeQueryPath::Schema(None) => entity_type_schema_column(None),
            EntityTypeQueryPath::Schema(Some(path)) => entity_type_schema_column(
                Some(JsonField::JsonPath(path)),
            ),
            EntityTypeQueryPath::VersionedUrl => entity_type_schema_column(
                Some(JsonField::StaticText("$id")),
            ),
            EntityTypeQueryPath::Title => entity_type_schema_column(
                Some(JsonField::StaticText("title")),
            ),
            EntityTypeQueryPath::Description => entity_type_schema_column(
                Some(JsonField::StaticText("description")),
            ),
            EntityTypeQueryPath::Properties(path) => path.terminating_column_spec(),
            EntityTypeQueryPath::InheritsFrom(path) => path.terminating_column_spec(),
            EntityTypeQueryPath::Links(path) => path.terminating_column_spec(),
        }
    }

    pub fn relations(&self) -> (r: Vec<Relation>)
        ensures
            r@ == self.relations_spec(),
        decreases self,
    {
        let (first, mut rest) = match self {
            EntityTypeQueryPath::BaseUrl | EntityTypeQueryPath::Version => {
                let r = vec![Relation::EntityTypeIds];
                assert(r@ =~= self.relations_spec());
                return r;
            },
            EntityTypeQueryPath::Properties(path) => (
                Relation::EntityTypePropertyTypeReferences,
                path.relations(),
            ),
            EntityTypeQueryPath::InheritsFrom(path) => (
                Relation::EntityTypeInheritsFrom,
                path.relations(),
            ),
            EntityTypeQueryPath::Links(path) => (Relation::EntityTypeLinks, path.relations()),
            _ => {
                let r = Vec::new();
                assert(r@ =~= self.relations_spec());
                return r;
            },
        };
        let mut r = vec![first];
        r.append(&mut rest);
        assert(r@ =~= self.relations_spec());
        r
    }

    pub fn terminating_column<'p>(&'p self) -> (r: Column<'p>)
        ensures
            r == self.terminating_column_spec(),
        decreases self,
    {
        match self {
            EntityTypeQueryPath::BaseUrl => Column::TypeIds(TypeIds::BaseUrl),
            EntityTypeQueryPath::Version => Column::TypeIds(TypeIds::Version),
            EntityTypeQueryPath::VersionId => Column::EntityTypes(EntityTypes::VersionId),
            EntityTypeQueryPath::OwnedById => Column::EntityTypes(EntityTypes::OwnedById),
            EntityTypeQueryPath::UpdatedById => Column::EntityTypes(EntityTypes::UpdatedById),
            EntityTypeQueryPath::Schema(None) => Column::EntityTypes(EntityTypes::Schema(None)),
            EntityTypeQueryPath::Schema(Some(path)) => Column::EntityTypes(
                EntityTypes::Schema(Some(JsonField::JsonPath(path))),
            ),
            EntityTypeQueryPath::VersionedUrl => Column::EntityTypes(
                EntityTypes::Schema(Some(JsonField::StaticText("$id"))),
            ),
            EntityTypeQueryPath::Title => Column::EntityTypes(
                EntityTypes::Schema(Some(JsonField::StaticText("title"))),
            ),
            EntityTypeQueryPath::Description => Column::EntityTypes(
                EntityTypes::Schema(Some(JsonField::StaticText("description"))),
            ),
            EntityTypeQueryPath::Properties(path) => path.terminating_column(),
            EntityTypeQueryPath::InheritsFrom(path) => path.terminating_column(),
            EntityTypeQueryPath::Links(path) => path.terminating_column(),
        }
    }
}

impl EntityQueryPath {
    /// The joins needed to reach the column that this path names, from the
    /// temporal metadata table outwards.
    pub open spec fn relations_spec(&self) -> Seq<Relation>
        decreases self,
    {
        match self {
            EntityQueryPath::Archived | EntityQueryPath::Properties(_) => seq![
                Relation::EntityEditions,
            ],
            EntityQueryPath::Type(path) => seq![Relation::EntityIsOfType] + path.relations_spec(),
            EntityQueryPath::LeftEntity(path) => seq![Relation::LeftEntity] + path.relations_spec(),
            EntityQueryPath::RightEntity(path) => seq![Relation::RightEntity]
                + path.relations_spec(),
            _ => Seq::empty(),
        }
    }

    /// The column that this path names.
    pub open spec fn terminating_column_spec<'p>(&'p self) -> Column<'p>
        decreases self,
    {
        match self {
            EntityQueryPath::Uuid => Column::EntityTemporalMetadata(
                EntityTemporalMetadata::EntityUuid,
            ),
            EntityQueryPath::OwnedById => Column::EntityTemporalMetadata(
                EntityTemporalMetadata::WebId,
            ),
            EntityQueryPath::DraftId => Column::EntityTemporalMetadata(
                EntityTemporalMetadata::DraftId,
            ),
            EntityQueryPath::EditionId => Column::EntityTemporalMetadata(
                EntityTemporalMetadata::EditionId,
            ),
            EntityQueryPath::DecisionTime => Column::EntityTemporalMetadata(
                EntityTemporalMetadata::DecisionTime,
            ),
            EntityQueryPath::TransactionTime => Column::EntityTemporalMetadata(
                EntityTemporalMetadata::TransactionTime,
            ),
            EntityQueryPath::Archived => Column::EntityEditions(EntityEditions::Archived),
            EntityQueryPath::Properties(None) => Column::EntityEditions(
                EntityEditions::Properties(None),
            ),
            EntityQueryPath::Properties(Some(path)) => Column::EntityEditions(
                EntityEditions::Properties(Some(JsonField::JsonPath(path))),
            ),
            EntityQueryPath::Type(path) => path.terminating_column_spec(),
            EntityQueryPath::LeftEntity(path) => path.terminating_column_spec(),
            EntityQueryPath::RightEntity(path) => path.terminating_column_spec(),
        }
    }

    pub fn relations(&self) -> (r: Vec<Relation>)
        ensures
            r@ == self.relations_spec(),
        decreases self,
    {
        let (first, mut rest) = match self {
            EntityQueryPath::Archived | EntityQueryPath::Properties(_) => {
                let r = vec![Relation::EntityEditions];
                assert(r@ =~= self.relations_spec());
                return r;
            },
            EntityQueryPath::Type(path) => (Relation::EntityIsOfType, path.relations()),
            EntityQueryPath::LeftEntity(path) => (Relation::LeftEntity, path.relations()),
            EntityQueryPath::RightEntity(path) => (Relation::RightEntity, path.relations()),
            _ => {
                let r = Vec::new();
                assert(r@ =~= self.relations_spec());
                return r;
            },
        };
        let mut r = vec![first];
        r.append(&mut rest);
        assert(r@ =~= self.relations_spec());
        r
    }

    pub fn terminating_column<'p>(&'p self) -> (r: Column<'p>)
        ensures
            r == self.terminating_column_spec(),
        decreases self,
    {
        match self {
            EntityQueryPath::Uuid => Column::EntityTemporalMetadata(
                EntityTemporalMetadata::EntityUuid,
            ),
            EntityQueryPath::OwnedById => Column::EntityTemporalMetadata(
                EntityTemporalMetadata::WebId,
            ),
            EntityQueryPath::DraftId => Column::EntityTemporalMetadata(
                EntityTemporalMetadata::DraftId,
            ),
            EntityQueryPath::EditionId => Column::EntityTemporalMetadata(
                EntityTemporalMetadata::EditionId,
            ),
            EntityQueryPath::DecisionTime => Column::EntityTemporalMetadata(
                EntityTemporalMetadata::DecisionTime,
            ),
            EntityQueryPath::TransactionTime => Column::EntityTemporalMetadata(
                EntityTemporalMetadata::TransactionTime,
            ),
            EntityQueryPath::Archived => Column::EntityEditions(EntityEditions::Archived),
            EntityQueryPath::Properties(None) => Column::EntityEditions(
                EntityEditions::Properties(None),
            ),
            EntityQueryPath::Properties(Some(path)) => Column::EntityEditions(
                EntityEditions::Properties(Some(JsonField::JsonPath(path))),
            ),
            EntityQueryPath::Type(path) => path.terminating_column(),
            EntityQueryPath::LeftEntity(path) => path.terminating_column(),
            EntityQueryPath::RightEntity(path) => path.terminating_column(),
        }
    }
}

/// `plan` extended by each relation of `rels` that it does not hold yet, in
/// the order of `rels`.
pub open spec fn merged_plan(plan: Seq<Relation>, rels: Seq<Relation>) -> Seq<Relation>
    decreases rels.len(),
{
    if rels.len() == 0 {
        plan
    } else {
        let p = merged_plan(plan, rels.subrange(0, rels.len() - 1));
        if p.contains(rels[rels.len() - 1]) {
            p
        } else {
            p.push(rels[rels.len() - 1])
        }
    }
}

fn plan_contains(plan: &Vec<Relation>, r: Relation) -> (b: bool)
    ensures
        b == plan@.contains(r),
{
    let mut i: usize = 0;
    while i < plan.len()
        invariant
            i <= plan@.len(),
            forall|j: int| 0 <= j < i ==> plan@[j] != r,
        decreases plan.len() - i,
    {
        if plan[i] == r {
            return true;
        }
        i = i + 1;
    }
    false
}

/// Adds to a join plan the relations that one more resolved path needs,
/// sharing those that the plan already has.
pub fn merge_relations(plan: &mut Vec<Relation>, relations: &Vec<Relation>)
    ensures
        final(plan)@ == merged_plan(old(plan)@, relations@),
{
    let mut i: usize = 0;
    assert(relations@.subrange(0, 0) =~= Seq::<Relation>::empty());
    while i < relations.len()
        invariant
            i <= relations@.len(),
            plan@ == merged_plan(old(plan)@, relations@.subrange(0, i as int)),
        decreases relations.len() - i,
    {
        assert(relations@.subrange(0, i + 1).subrange(0, i as int) =~= relations@.subrange(
            0,
            i as int,
        ));
        let r = relations[i];
        if !plan_contains(plan, r) {
            plan.push(r);
        }
        i = i + 1;
    }
    assert(relations@.subrange(0, i as int) =~= relations@);
}

/// Merging keeps the plan as it was at its front, adds exactly the missing
/// relations, and adds none twice.
pub proof fn law_merged_plan(plan: Seq<Relation>, rels: Seq<Relation>)
    ensures
        merged_plan(plan, rels).subrange(0, plan.len() as int) == plan,
        plan.len() <= merged_plan(plan, rels).len(),
        forall|x: Relation|
            #[trigger] merged_plan(plan, rels).contains(x) <==> plan.contains(x) || rels.contains(x),
        plan.no_duplicates() ==> merged_plan(plan, rels).no_duplicates(),
    decreases rels.len(),
{
    if rels.len() > 0 {
        let t = rels.subrange(0, rels.len() - 1);
        let last = rels[rels.len() - 1];
        law_merged_plan(plan, t);
        let p = merged_plan(plan, t);
        if !p.contains(last) {
            assert(p.push(last).subrange(0, plan.len() as int) =~= p.subrange(0, plan.len() as int));
            assert forall|x: Relation| #[trigger] p.push(last).contains(x) <==> p.contains(x) || x == last by {
                if p.push(last).contains(x) {
                    let k = choose|k: int| 0 <= k < p.push(last).len() && p.push(last)[k] == x;
                    if k < p.len() {
                        assert(p[k] == x);
                    }
                }
                if p.contains(x) {
                    let k = choose|k: int| 0 <= k < p.len() && p[k] == x;
                    assert(p.push(last)[k] == x);
                }
                if x == last {
                    assert(p.push(last)[p.len() as int] == x);
                }
            }
        }
        assert forall|x: Relation| #[trigger] merged_plan(plan, rels).contains(x) <==> plan.contains(x)
            || rels.contains(x) by {
            if t.contains(x) {
                let k = choose|k: int| 0 <= k < t.len() && t[k] == x;
                assert(rels[k] == x);
            }
            if rels.contains(x) && x != last {
                let k = choose|k: int| 0 <= k < rels.len() && rels[k] == x;
                assert(t[k] == x);
            }
            if x == last {
                assert(rels[rels.len() - 1] == x);
            }
        }
    }
}

/// Some occurrence of `x` in `s` comes before some occurrence of `y`.
pub open spec fn precedes(s: Seq<Relation>, x: Relation, y: Relation) -> bool {
    exists|a: int, b: int| 0 <= a < b < s.len() && #[trigger] s[a] == x && #[trigger] s[b] == y
}

/// Merging keeps the order of dependencies: a relation that the merge adds
/// comes after every relation that precedes it in the merged path.
pub proof fn law_merged_plan_order(plan: Seq<Relation>, rels: Seq<Relation>)
    ensures
        forall|i: int, j: int|
            0 <= i < j < rels.len() && !plan.contains(rels[j]) && !rels.subrange(0, j).contains(
                rels[j],
            ) ==> precedes(merged_plan(plan, rels), #[trigger] rels[i], #[trigger] rels[j]),
    decreases rels.len(),
{
    if rels.len() > 0 {
        let n = rels.len() - 1;
        let t = rels.subrange(0, n);
        let last = rels[n];
        law_merged_plan_order(plan, t);
        law_merged_plan(plan, t);
        let p = merged_plan(plan, t);
        let m = merged_plan(plan, rels);
        if !p.contains(last) {
            assert(m == p.push(last));
        } else {
            assert(m == p);
        }
        assert forall|i: int, j: int|
            0 <= i < j < rels.len() && !plan.contains(rels[j]) && !rels.subrange(0, j).contains(
                rels[j],
            ) implies precedes(m, #[trigger] rels[i], #[trigger] rels[j]) by {
            assert(rels[i] == t[i]);
            if j < n {
                assert(rels[j] == t[j]);
                assert(t.subrange(0, j) =~= rels.subrange(0, j));
                assert(precedes(p, t[i], t[j]));
                let (a, b) = choose|a: int, b: int|
                    0 <= a < b < p.len() && #[trigger] p[a] == t[i] && #[trigger] p[b] == t[j];
                assert(m[a] == p[a] && m[b] == p[b]);
            } else {
                assert(t =~= rels.subrange(0, j));
                assert(!t.contains(last));
                assert(t.contains(t[i]));
                assert(!p.contains(last));
                assert(p.contains(t[i]));
                let a = choose|a: int| 0 <= a < p.len() && p[a] == t[i];
                assert(m[a] == rels[i] && m[p.len() as int] == rels[j]);
            }
        }
    }
}

/// Resolving a path is a function of the path alone: equal paths give equal
/// join plans and equal columns, for every kind of record.
pub proof fn law_resolution_deterministic(
    p: &PropertyTypeQueryPath,
    q: &PropertyTypeQueryPath,
    e: &EntityTypeQueryPath,
    f: &EntityTypeQueryPath,
    x: &EntityQueryPath,
    y: &EntityQueryPath,
)
    requires
        p == q,
        e == f,
        x == y,
    ensures
        p.relations_spec() == q.relations_spec(),
        p.terminating_column_spec() == q.terminating_column_spec(),
        e.relations_spec() == f.relations_spec(),
        e.terminating_column_spec() == f.terminating_column_spec(),
        x.relations_spec() == y.relations_spec(),
        x.terminating_column_spec() == y.terminating_column_spec(),
{
}

} // verus!
