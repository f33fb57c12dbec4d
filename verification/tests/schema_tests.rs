//! The schema-addressed data model layer: handles, classification and
//! referential actions.

use query_engine_core::cursor::{convert, validate_schema, InternalDataModel};
use query_engine_core::field::Field;
use query_engine_core::relation::Relation;
use query_engine_core::schema::{
    FieldArity, FieldDef, FieldId, InlineRelation, ModelDef, ModelId, ReferentialAction,
    RelationDef, RelationFieldDef, RelationLinkManifestation, RelationMode, RelationSide,
    RelationTable, ScalarFieldDef, ScalarFieldType, ScalarKind, SchemaData, TypeIdentifier,
    UniqueCriterion,
};
use std::sync::Arc;

fn scalar(name: &str, kind: ScalarKind, arity: FieldArity, pk: bool) -> FieldDef {
    FieldDef::Scalar(ScalarFieldDef {
        name: name.to_string(),
        mapped_name: None,
        arity,
        field_type: ScalarFieldType::BuiltIn(kind),
        is_single_pk: pk,
        is_unique: pk,
        is_updated_at: false,
        is_autoincrement: false,
        has_default: false,
    })
}

fn two_model_schema(
    on_delete: Option<ReferentialAction>,
    on_update: Option<ReferentialAction>,
    child_arity: FieldArity,
    parent_side_arity: FieldArity,
    mode: RelationMode,
    manifestation: RelationLinkManifestation,
) -> SchemaData {
    let parent = ModelDef {
        name: "Parent".to_string(),
        mapped_name: Some("parents".to_string()),
        schema_attr: None,
        fields: vec![
            scalar("id", ScalarKind::Int, FieldArity::Required, true),
            FieldDef::Relation(RelationFieldDef {
                name: "children".to_string(),
                arity: parent_side_arity,
                relation: query_engine_core::schema::RelationId(0),
                side: RelationSide::B,
                fk_field_names: vec![],
                referenced_field_names: vec![],
                explicit_on_delete: None,
                explicit_on_update: None,
            }),
        ],
        unique_criteria: vec![UniqueCriterion { field_indices: vec![0], strict: true }],
    };
    let child = ModelDef {
        name: "Child".to_string(),
        mapped_name: None,
        schema_attr: Some("audit".to_string()),
        fields: vec![
            scalar("id", ScalarKind::Int, FieldArity::Required, true),
            scalar("parentId", ScalarKind::Int, child_arity, false),
            FieldDef::Relation(RelationFieldDef {
                name: "parent".to_string(),
                arity: child_arity,
                relation: query_engine_core::schema::RelationId(0),
                side: RelationSide::A,
                fk_field_names: vec!["parentId".to_string()],
                referenced_field_names: vec!["id".to_string()],
                explicit_on_delete: on_delete,
                explicit_on_update: on_update,
            }),
        ],
        unique_criteria: vec![UniqueCriterion { field_indices: vec![0], strict: true }],
    };
    SchemaData {
        models: vec![parent, child],
        composite_types: vec![],
        enums: vec![],
        relations: vec![RelationDef {
            name: "ChildToParent".to_string(),
            model_a: ModelId(1),
            field_a: FieldId(2),
            model_b: ModelId(0),
            field_b: FieldId(1),
            manifestation,
        }],
        relation_mode: mode,
    }
}

fn inline() -> RelationLinkManifestation {
    RelationLinkManifestation::Inline(InlineRelation { in_table_of_model_name: "Child".to_string() })
}

fn dm(s: SchemaData) -> InternalDataModel {
    convert(Arc::new(s)).expect("the schema must validate")
}

fn relation0(dm: &InternalDataModel) -> Relation {
    dm.relations().pop().expect("one relation")
}

#[test]
fn type_identifier_is_numeric() {
    assert!(TypeIdentifier::Int.is_numeric());
    assert!(TypeIdentifier::BigInt.is_numeric());
    assert!(TypeIdentifier::Float.is_numeric());
    assert!(TypeIdentifier::Decimal.is_numeric());
    assert!(!TypeIdentifier::String.is_numeric());
    assert!(!TypeIdentifier::Boolean.is_numeric());
    assert!(!TypeIdentifier::Json.is_numeric());
}

#[test]
fn relation_side_flips() {
    assert_eq!(RelationSide::A.opposite(), RelationSide::B);
    assert_eq!(RelationSide::B.opposite(), RelationSide::A);
    assert!(RelationSide::A.is_a());
    assert!(!RelationSide::A.is_b());
    assert!(RelationSide::B.is_b());
}

#[test]
fn on_delete_defaults_by_arity() {
    // A required relation restricts deletes by default.
    let d = dm(two_model_schema(
        None,
        None,
        FieldArity::Required,
        FieldArity::List,
        RelationMode::Prisma,
        inline(),
    ));
    assert_eq!(relation0(&d).on_delete(), ReferentialAction::Restrict);
    // An optional relation nulls the key out by default.
    let d = dm(two_model_schema(
        None,
        None,
        FieldArity::Optional,
        FieldArity::List,
        RelationMode::Prisma,
        inline(),
    ));
    assert_eq!(relation0(&d).on_delete(), ReferentialAction::SetNull);
}

#[test]
fn no_action_degrades_to_restrict_under_engine_mode() {
    let d = dm(two_model_schema(
        Some(ReferentialAction::NoAction),
        Some(ReferentialAction::NoAction),
        FieldArity::Required,
        FieldArity::List,
        RelationMode::Prisma,
        inline(),
    ));
    assert_eq!(relation0(&d).on_delete(), ReferentialAction::Restrict);
    assert_eq!(relation0(&d).on_update(), ReferentialAction::Restrict);
    // Under native foreign keys the action stands as written.
    let d = dm(two_model_schema(
        Some(ReferentialAction::NoAction),
        Some(ReferentialAction::NoAction),
        FieldArity::Required,
        FieldArity::List,
        RelationMode::ForeignKeys,
        inline(),
    ));
    assert_eq!(relation0(&d).on_delete(), ReferentialAction::NoAction);
    assert_eq!(relation0(&d).on_update(), ReferentialAction::NoAction);
}

#[test]
fn on_update_defaults_to_cascade() {
    let d = dm(two_model_schema(
        None,
        None,
        FieldArity::Required,
        FieldArity::List,
        RelationMode::Prisma,
        inline(),
    ));
    assert_eq!(relation0(&d).on_update(), ReferentialAction::Cascade);
}

#[test]
fn relation_classification() {
    let d = dm(two_model_schema(
        None,
        None,
        FieldArity::Required,
        FieldArity::List,
        RelationMode::Prisma,
        inline(),
    ));
    let rel = relation0(&d);
    assert!(rel.is_inline_relation());
    assert!(!rel.is_relation_table());
    assert!(!rel.is_many_to_many());
    assert!(!rel.is_one_to_one());
    assert!(rel.is_one_to_many());
    assert!(!rel.is_self_relation());
    assert_eq!(rel.name(), "ChildToParent");
    // Both sides single-valued: one to one.
    let d = dm(two_model_schema(
        None,
        None,
        FieldArity::Required,
        FieldArity::Optional,
        RelationMode::Prisma,
        inline(),
    ));
    assert!(relation0(&d).is_one_to_one());
    // A linking table makes it many to many, cascading both ways.
    let d = dm(two_model_schema(
        None,
        None,
        FieldArity::List,
        FieldArity::List,
        RelationMode::Prisma,
        RelationLinkManifestation::RelationTable(RelationTable {
            table: "_ChildToParent".to_string(),
            model_a_column: "A".to_string(),
            model_b_column: "B".to_string(),
        }),
    ));
    let rel = relation0(&d);
    assert!(rel.is_many_to_many());
    assert_eq!(rel.on_delete(), ReferentialAction::Cascade);
    assert_eq!(rel.on_update(), ReferentialAction::Cascade);
}

#[test]
fn model_names_and_fields() {
    let d = dm(two_model_schema(
        None,
        None,
        FieldArity::Required,
        FieldArity::List,
        RelationMode::Prisma,
        inline(),
    ));
    let models = d.models();
    let parent = &models[0];
    assert_eq!(parent.name(), "Parent");
    assert_eq!(parent.db_name(), "parents");
    assert_eq!(parent.db_name_opt(), Some("parents"));
    let child = &models[1];
    assert_eq!(child.name(), "Child");
    assert_eq!(child.db_name(), "Child");
    assert_eq!(child.db_name_opt(), None);
    assert_eq!(child.schema_name(), Some("audit"));
    assert!(parent.supports_create_operation());

    let pk = child.primary_identifier();
    assert_eq!(pk.fields.len(), 1);
    match &pk.fields[0] {
        Field::Scalar(sf) => {
            assert_eq!(sf.name(), "id");
            assert!(sf.is_id());
            assert!(sf.is_required());
            assert!(!sf.is_list());
            assert_eq!(sf.type_identifier(), TypeIdentifier::Int);
        },
        other => panic!("the primary identifier must be scalar, got {:?}", other),
    }

    let field = child.find_field(&"parent".to_string()).expect("the field exists");
    assert!(field.is_relation());
    match field {
        Field::Relation(rf) => {
            assert_eq!(rf.name(), "parent");
            assert!(rf.is_required());
            let related = rf.related_model();
            assert_eq!(related.name(), "Parent");
            let back = rf.related_field();
            assert_eq!(back.name(), "children");
            assert!(back.is_list());
            let fks = rf.scalar_fields();
            assert_eq!(fks.len(), 1);
            assert_eq!(fks[0].name(), "parentId");
        },
        other => panic!("a relation field was expected, got {:?}", other),
    }

    let scalars = child.fields().scalar_fields();
    let names: Vec<&str> = scalars.iter().map(|sf| sf.name()).collect();
    assert_eq!(names, vec!["id", "parentId"]);
}

#[test]
fn unsupported_required_field_blocks_create() {
    let mut s = two_model_schema(
        None,
        None,
        FieldArity::Required,
        FieldArity::List,
        RelationMode::Prisma,
        inline(),
    );
    s.models[0].fields.push(FieldDef::Scalar(ScalarFieldDef {
        name: "geo".to_string(),
        mapped_name: None,
        arity: FieldArity::Required,
        field_type: ScalarFieldType::Unsupported,
        is_single_pk: false,
        is_unique: false,
        is_updated_at: false,
        is_autoincrement: false,
        has_default: false,
    }));
    let d = dm(s);
    assert!(!d.models()[0].supports_create_operation());
}

#[test]
fn schema_without_strict_criterion_is_rejected() {
    let mut s = two_model_schema(
        None,
        None,
        FieldArity::Required,
        FieldArity::List,
        RelationMode::Prisma,
        inline(),
    );
    s.models[0].unique_criteria = vec![UniqueCriterion { field_indices: vec![0], strict: false }];
    assert!(!validate_schema(&s));
    assert!(convert(Arc::new(s)).is_none());
}

#[test]
fn field_arity_tests() {
    assert!(FieldArity::Required.is_required());
    assert!(!FieldArity::Required.is_list());
    assert!(FieldArity::Optional.is_optional());
    assert!(FieldArity::List.is_list());
}

#[test]
fn type_identifier_display_names() {
    assert_eq!(TypeIdentifier::String.display_name(), "String");
    assert_eq!(TypeIdentifier::Boolean.display_name(), "Bool");
    assert_eq!(
        TypeIdentifier::Enum("Color".to_string()).display_name(),
        "EnumColor"
    );
    assert_eq!(TypeIdentifier::Unsupported.display_name(), "Unsupported");
}

#[test]
fn find_enum_resolves_by_name() {
    let mut s = two_model_schema(
        None,
        None,
        FieldArity::Required,
        FieldArity::List,
        RelationMode::Prisma,
        inline(),
    );
    s.enums.push(query_engine_core::schema::EnumDef {
        name: "Color".to_string(),
        values: vec!["Red".to_string(), "Blue".to_string()],
    });
    let d = dm(s);
    let e = d.find_enum(&"Color".to_string()).expect("the enum exists");
    assert_eq!(e.name(), "Color");
    assert!(d.find_enum(&"Shape".to_string()).is_none());
}
