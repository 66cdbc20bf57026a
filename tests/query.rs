use hash_graph_core::path::{PropertyPath, PropertyPathElement};
use hash_graph_core::query::{
    entity_base_table, EntityEditions, EntityQueryPath, EntityTemporalMetadata, EntityTypeQueryPath,
    merge_relations, property_type_base_table, Column, DataTypeQueryPath, DataTypes, JsonField,
    PropertyTypeQueryPath, PropertyTypes, Relation, Table, TypeIds,
};

#[test]
fn direct_fields_join_the_identity_table() {
    let path = PropertyTypeQueryPath::BaseUrl;
    assert_eq!(path.relations(), vec![Relation::PropertyTypeIds]);
    assert!(matches!(path.terminating_column(), Column::TypeIds(TypeIds::BaseUrl)));
    let path = PropertyTypeQueryPath::Version;
    assert_eq!(path.relations(), vec![Relation::PropertyTypeIds]);
    assert!(matches!(path.terminating_column(), Column::TypeIds(TypeIds::Version)));
}

#[test]
fn own_columns_need_no_join() {
    let path = PropertyTypeQueryPath::OwnedById;
    assert!(path.relations().is_empty());
    assert!(matches!(path.terminating_column(), Column::PropertyTypes(PropertyTypes::OwnedById)));
    assert!(matches!(
        PropertyTypeQueryPath::Title.terminating_column(),
        Column::PropertyTypes(PropertyTypes::Schema(Some(JsonField::StaticText("title"))))
    ));
    assert!(matches!(
        PropertyTypeQueryPath::VersionedUrl.terminating_column(),
        Column::PropertyTypes(PropertyTypes::Schema(Some(JsonField::StaticText("$id"))))
    ));
    assert!(matches!(
        PropertyTypeQueryPath::Schema(None).terminating_column(),
        Column::PropertyTypes(PropertyTypes::Schema(None))
    ));
    assert_eq!(property_type_base_table(), Table::PropertyTypes);
}

#[test]
fn schema_paths_pass_through() {
    let path = PropertyTypeQueryPath::Schema(Some(PropertyPath {
        elements: vec![PropertyPathElement::Property("oneOf".to_string()), PropertyPathElement::Index(0)],
    }));
    match path.terminating_column() {
        Column::PropertyTypes(PropertyTypes::Schema(Some(JsonField::JsonPath(p)))) => {
            assert_eq!(p.elements.len(), 2);
        }
        _ => panic!("expected a JSON path into the schema"),
    }
}

#[test]
fn nested_paths_prepend_their_join() {
    let path = PropertyTypeQueryPath::PropertyTypes(Box::new(PropertyTypeQueryPath::DataTypes(
        Box::new(DataTypeQueryPath::Title),
    )));
    assert_eq!(
        path.relations(),
        vec![Relation::PropertyTypePropertyTypeReferences, Relation::PropertyTypeDataTypeReferences]
    );
    assert!(matches!(
        path.terminating_column(),
        Column::DataTypes(DataTypes::Schema(Some(JsonField::StaticText("title"))))
    ));
    let path = PropertyTypeQueryPath::DataTypes(Box::new(DataTypeQueryPath::BaseUrl));
    assert_eq!(
        path.relations(),
        vec![Relation::PropertyTypeDataTypeReferences, Relation::DataTypeIds]
    );
    assert!(matches!(path.terminating_column(), Column::TypeIds(TypeIds::BaseUrl)));
}

#[test]
fn resolution_is_repeatable() {
    let path = PropertyTypeQueryPath::DataTypes(Box::new(DataTypeQueryPath::Version));
    assert_eq!(path.relations(), path.relations());
}

#[test]
fn merged_plans_share_relations() {
    let a = PropertyTypeQueryPath::DataTypes(Box::new(DataTypeQueryPath::BaseUrl)).relations();
    let b = PropertyTypeQueryPath::DataTypes(Box::new(DataTypeQueryPath::Version)).relations();
    let c = PropertyTypeQueryPath::BaseUrl.relations();
    let mut plan = Vec::new();
    merge_relations(&mut plan, &a);
    merge_relations(&mut plan, &b);
    merge_relations(&mut plan, &c);
    assert_eq!(
        plan,
        vec![
            Relation::PropertyTypeDataTypeReferences,
            Relation::DataTypeIds,
            Relation::PropertyTypeIds
        ]
    );
}

#[test]
fn entity_paths_resolve_through_editions_and_types() {
    assert_eq!(entity_base_table(), Table::EntityTemporalMetadata);
    assert!(EntityQueryPath::Uuid.relations().is_empty());
    assert!(matches!(
        EntityQueryPath::Uuid.terminating_column(),
        Column::EntityTemporalMetadata(EntityTemporalMetadata::EntityUuid)
    ));
    let name = EntityQueryPath::Properties(Some(PropertyPath {
        elements: vec![PropertyPathElement::Property("name".to_string())],
    }));
    assert_eq!(name.relations(), vec![Relation::EntityEditions]);
    assert!(matches!(
        name.terminating_column(),
        Column::EntityEditions(EntityEditions::Properties(Some(JsonField::JsonPath(_))))
    ));
    let left_type_title = EntityQueryPath::LeftEntity(Box::new(EntityQueryPath::Type(Box::new(
        EntityTypeQueryPath::Properties(Box::new(PropertyTypeQueryPath::Title)),
    ))));
    assert_eq!(
        left_type_title.relations(),
        vec![
            Relation::LeftEntity,
            Relation::EntityIsOfType,
            Relation::EntityTypePropertyTypeReferences
        ]
    );
    assert!(matches!(
        left_type_title.terminating_column(),
        Column::PropertyTypes(PropertyTypes::Schema(Some(JsonField::StaticText("title"))))
    ));
    let inherited = EntityTypeQueryPath::InheritsFrom(Box::new(EntityTypeQueryPath::BaseUrl));
    assert_eq!(inherited.relations(), vec![Relation::EntityTypeInheritsFrom, Relation::EntityTypeIds]);
}
