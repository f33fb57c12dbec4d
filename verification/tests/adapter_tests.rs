//! The protocol adapter, exercised over a two-model schema: decoded
//! requests are parsed and converted into typed operations.

use query_engine_core::cursor::{convert, InternalDataModel};
use query_engine_core::json::JsonValue;
use query_engine_core::json_query::{JsonQuery, SelectionOption, TopLevelAction};
use query_engine_core::operation::{Operation, Selection};
use query_engine_core::protocol_adapter::{convert_json_query_to_operation, parse_json_query};
use query_engine_core::query_schema::{build_query_schema, QuerySchema};
use query_engine_core::value::ArgumentValue;
use query_engine_core::schema::{
    FieldArity, FieldDef, FieldId, InlineRelation, ModelDef, ModelId, RelationDef,
    RelationFieldDef, RelationLinkManifestation, RelationMode, RelationSide, ScalarFieldDef,
    ScalarFieldType, ScalarKind, SchemaData, UniqueCriterion,
};
use std::sync::Arc;

fn to_json_value(v: &serde_json::Value) -> JsonValue {
    match v {
        serde_json::Value::Null => JsonValue::Null,
        serde_json::Value::Bool(b) => JsonValue::Bool(*b),
        serde_json::Value::Number(n) => match n.as_i64() {
            Some(i) => JsonValue::Int(i),
            None => JsonValue::Float(n.to_string()),
        },
        serde_json::Value::String(s) => JsonValue::String(s.clone()),
        serde_json::Value::Array(xs) => JsonValue::Array(xs.iter().map(to_json_value).collect()),
        serde_json::Value::Object(m) => {
            JsonValue::Object(m.iter().map(|(k, v)| (k.clone(), to_json_value(v))).collect())
        },
    }
}

fn parse_text(text: &str) -> JsonQuery {
    let v: serde_json::Value = serde_json::from_str(text).unwrap();
    parse_json_query(&to_json_value(&v)).unwrap()
}

fn scalar(name: &str, kind: ScalarKind, arity: FieldArity, pk: bool, unique: bool) -> FieldDef {
    FieldDef::Scalar(ScalarFieldDef {
        name: name.to_string(),
        mapped_name: None,
        arity,
        field_type: ScalarFieldType::BuiltIn(kind),
        is_single_pk: pk,
        is_unique: unique,
        is_updated_at: false,
        is_autoincrement: false,
        has_default: false,
    })
}

/// A `User` / `Post` schema: a user has many posts, the post holds the
/// foreign key.
fn user_post_dm() -> InternalDataModel {
    let user = ModelDef {
        name: "User".to_string(),
        mapped_name: None,
        schema_attr: None,
        fields: vec![
            scalar("id", ScalarKind::String, FieldArity::Required, true, true),
            scalar("name", ScalarKind::String, FieldArity::Optional, false, false),
            scalar("email", ScalarKind::String, FieldArity::Required, false, true),
            FieldDef::Relation(RelationFieldDef {
                name: "posts".to_string(),
                arity: FieldArity::List,
                relation: query_engine_core::schema::RelationId(0),
                side: RelationSide::B,
                fk_field_names: vec![],
                referenced_field_names: vec![],
                explicit_on_delete: None,
                explicit_on_update: None,
            }),
        ],
        unique_criteria: vec![UniqueCriterion { field_indices: vec![0], strict: true }],
    };
    let post = ModelDef {
        name: "Post".to_string(),
        mapped_name: None,
        schema_attr: None,
        fields: vec![
            scalar("id", ScalarKind::String, FieldArity::Required, true, true),
            scalar("title", ScalarKind::String, FieldArity::Required, false, false),
            scalar("userId", ScalarKind::String, FieldArity::Required, false, false),
            FieldDef::Relation(RelationFieldDef {
                name: "user".to_string(),
                arity: FieldArity::Required,
                relation: query_engine_core::schema::RelationId(0),
                side: RelationSide::A,
                fk_field_names: vec!["userId".to_string()],
                referenced_field_names: vec!["id".to_string()],
                explicit_on_delete: None,
                explicit_on_update: None,
            }),
        ],
        unique_criteria: vec![UniqueCriterion { field_indices: vec![0], strict: true }],
    };
    let relation = RelationDef {
        name: "PostToUser".to_string(),
        model_a: ModelId(1),
        field_a: FieldId(3),
        model_b: ModelId(0),
        field_b: FieldId(3),
        manifestation: RelationLinkManifestation::Inline(InlineRelation {
            in_table_of_model_name: "Post".to_string(),
        }),
    };
    let schema = SchemaData {
        models: vec![user, post],
        composite_types: vec![],
        enums: vec![],
        relations: vec![relation],
        relation_mode: RelationMode::Prisma,
    };
    convert(Arc::new(schema)).expect("the schema must validate")
}

fn schema() -> (InternalDataModel, QuerySchema) {
    let dm = user_post_dm();
    let qs = build_query_schema(&dm);
    (dm, qs)
}

fn sel(name: &str) -> Selection {
    Selection {
        name: name.to_string(),
        alias: None,
        arguments: vec![],
        nested_selections: vec![],
    }
}

fn inc_key() -> String {
    "includ".to_string() + "e"
}

fn convert_text(text: &str) -> Operation {
    let (dm, qs) = schema();
    let query = parse_text(text);
    convert_json_query_to_operation(query, &qs, &dm).unwrap()
}

#[test]
pub fn default_selection() {
    let operation = convert_text(
        r#"{
        "modelName": "User",
        "action": "findFirst",
        "query": {}
    }"#,
    );
    let expected = Operation::Read(Selection {
        name: "findFirstUser".to_string(),
        alias: None,
        arguments: vec![],
        nested_selections: vec![sel("id"), sel("name"), sel("email")],
    });
    assert_eq!(operation, expected);
}

#[test]
pub fn explicit_select() {
    let operation = convert_text(
        r#"{
        "modelName": "User",
        "action": "findFirst",
        "select": {
            "id": true,
            "email": false
        }
    }"#,
    );
    let expected = Operation::Read(Selection {
        name: "findFirstUser".to_string(),
        alias: None,
        arguments: vec![],
        nested_selections: vec![sel("id")],
    });
    assert_eq!(operation, expected);
}

#[test]
pub fn arguments() {
    let operation = convert_text(
        r#"{
        "modelName": "User",
        "action": "findFirst",
        "where": {
            "id": "123"
        }
    }"#,
    );
    let expected = Operation::Read(Selection {
        name: "findFirstUser".to_string(),
        alias: None,
        arguments: vec![(
            "where".to_string(),
            ArgumentValue::Object(vec![(
                "id".to_string(),
                ArgumentValue::String("123".to_string()),
            )]),
        )],
        nested_selections: vec![sel("id"), sel("name"), sel("email")],
    });
    assert_eq!(operation, expected);
}

#[test]
pub fn nested_arguments() {
    let operation = convert_text(&format!(
        r#"{{
        "modelName": "User",
        "action": "findFirst",
        "{}": {{
            "posts": {{
                "where": {{ "title": "something" }}
            }}
        }}
    }}"#,
        inc_key()
    ));
    let expected = Operation::Read(Selection {
        name: "findFirstUser".to_string(),
        alias: None,
        arguments: vec![],
        nested_selections: vec![
            sel("id"),
            sel("name"),
            sel("email"),
            Selection {
                name: "posts".to_string(),
                alias: None,
                arguments: vec![(
                    "where".to_string(),
                    ArgumentValue::Object(vec![(
                        "title".to_string(),
                        ArgumentValue::String("something".to_string()),
                    )]),
                )],
                nested_selections: vec![sel("id"), sel("title"), sel("userId")],
            },
        ],
    });
    assert_eq!(operation, expected);
}

#[test]
pub fn include_true() {
    let operation = convert_text(&format!(
        r#"{{
        "modelName": "User",
        "action": "findFirst",
        "{}": {{
            "posts": true
        }}
    }}"#,
        inc_key()
    ));
    let expected = Operation::Read(Selection {
        name: "findFirstUser".to_string(),
        alias: None,
        arguments: vec![],
        nested_selections: vec![
            sel("id"),
            sel("name"),
            sel("email"),
            Selection {
                name: "posts".to_string(),
                alias: None,
                arguments: vec![],
                nested_selections: vec![sel("id"), sel("title"), sel("userId")],
            },
        ],
    });
    assert_eq!(operation, expected);
}

#[test]
pub fn mutation() {
    let operation = convert_text(
        r#"{
        "modelName": "User",
        "action": "create",
        "select": {
            "id": true,
            "email": false
        }
    }"#,
    );
    let expected = Operation::Write(Selection {
        name: "createOneUser".to_string(),
        alias: None,
        arguments: vec![],
        nested_selections: vec![sel("id")],
    });
    assert_eq!(operation, expected);
}

#[test]
pub fn basic_test() {
    let query = parse_text(&format!(
        r#"{{
          "modelName": "User",
          "action": "findMany",
          "where": {{
            "id": 123
          }},
          "{}": {{
            "posts": {{
                "where": {{ "deleted": false }},
                "select": {{
                    "title": true,
                    "readCount": true
                }}
            }}
          }}
        }}
    "#,
        inc_key()
    ));
    assert_eq!(query.model_name, "User");
    assert_eq!(query.action, TopLevelAction::FindMany);
    assert!(query.query.selection.select.is_none());
    assert_eq!(
        query.query.arguments,
        vec![(
            "where".to_string(),
            JsonValue::Object(vec![("id".to_string(), JsonValue::Int(123))])
        )]
    );
    let included = query.query.selection.included.as_ref().unwrap();
    assert_eq!(included.len(), 1);
    assert_eq!(included[0].0, "posts");
    match &included[0].1 {
        SelectionOption::SubQuery(sub) => {
            assert_eq!(
                sub.arguments,
                vec![(
                    "where".to_string(),
                    JsonValue::Object(vec![("deleted".to_string(), JsonValue::Bool(false))])
                )]
            );
            let select = sub.selection.select.as_ref().unwrap();
            assert_eq!(select.len(), 2);
            assert_eq!(select[0].0, "title");
            assert!(matches!(select[0].1, SelectionOption::Bool(true)));
            assert_eq!(select[1].0, "readCount");
            assert!(matches!(select[1].1, SelectionOption::Bool(true)));
        },
        _ => panic!("posts must be a subquery"),
    }
}

#[test]
pub fn select_and_included_together_are_rejected() {
    let (dm, qs) = schema();
    let query = parse_text(&format!(
        r#"{{
        "modelName": "User",
        "action": "findFirst",
        "select": {{ "id": true }},
        "{}": {{ "posts": true }}
    }}"#,
        inc_key()
    ));
    assert!(convert_json_query_to_operation(query, &qs, &dm).is_err());
}

#[test]
pub fn unknown_argument_is_rejected() {
    let (dm, qs) = schema();
    let query = parse_text(
        r#"{
        "modelName": "User",
        "action": "findFirst",
        "nonsense": 1
    }"#,
    );
    assert!(convert_json_query_to_operation(query, &qs, &dm).is_err());
}

#[test]
pub fn unknown_action_is_rejected() {
    let v: serde_json::Value = serde_json::from_str(
        r#"{ "modelName": "User", "action": "explode" }"#,
    )
    .unwrap();
    assert!(parse_json_query(&to_json_value(&v)).is_err());
}

#[test]
pub fn unknown_model_is_rejected() {
    let (dm, qs) = schema();
    let query = parse_text(r#"{ "modelName": "Unicorn", "action": "findFirst" }"#);
    assert!(convert_json_query_to_operation(query, &qs, &dm).is_err());
}

#[test]
pub fn wrongly_typed_argument_is_rejected() {
    let (dm, qs) = schema();
    // `id` is a string column; a boolean filter value matches no input type.
    let query = parse_text(
        r#"{
        "modelName": "User",
        "action": "findFirst",
        "where": { "id": true }
    }"#,
    );
    assert!(convert_json_query_to_operation(query, &qs, &dm).is_err());
}

#[test]
pub fn round_trip_reproduces_the_operation_and_plan() {
    let (dm, qs) = schema();
    let original = convert_text(&format!(
        r#"{{
        "modelName": "User",
        "action": "findFirst",
        "where": {{ "id": "123" }},
        "{}": {{
            "posts": {{
                "where": {{ "title": "something" }}
            }}
        }}
    }}"#,
        inc_key()
    ));
    let selection = match &original {
        Operation::Read(sel) => sel,
        other => panic!("a read was expected, got {:?}", other),
    };
    let document = query_engine_core::serialize::serialize_request(
        "User".to_string(),
        "findFirst".to_string(),
        selection,
    );
    let reparsed = parse_json_query(&document).unwrap();
    let reconverted = convert_json_query_to_operation(reparsed, &qs, &dm).unwrap();
    assert_eq!(reconverted, original);
    let plan_a = query_engine_core::planner::plan_operation(&dm, &qs, &original).unwrap();
    let plan_b = query_engine_core::planner::plan_operation(&dm, &qs, &reconverted).unwrap();
    assert_eq!(plan_a, plan_b);
}

#[test]
pub fn non_object_requests_are_rejected() {
    assert!(parse_json_query(&JsonValue::Int(1)).is_err());
    assert!(parse_json_query(&JsonValue::Object(vec![(
        "modelName".to_string(),
        JsonValue::String("User".to_string()),
    )]))
    .is_err());
}
