//! The planner and the interpreter, run end to end against the in-memory
//! connector.

use query_engine_core::connector::{CallKind, Connector, MemoryConnector};
use query_engine_core::cursor::{convert, InternalDataModel};
use query_engine_core::env::Env;
use query_engine_core::expression::{
    Binding, DbQuery, Expression, ReadOp, WriteArg, WriteKind, WriteOp,
};
use query_engine_core::interpreter::{check_plan, eval, execute_plan, Evaluated, InterpreterError};
use query_engine_core::operation::{Operation, Selection};
use query_engine_core::planner::plan_operation;
use query_engine_core::query_schema::build_query_schema;
use query_engine_core::record::{Cell, ExpressionResult, RecordSet};
use query_engine_core::schema::{
    FieldArity, FieldDef, FieldId, InlineRelation, ModelDef, ModelId, RelationDef,
    RelationFieldDef, RelationLinkManifestation, RelationMode, RelationSide, ScalarFieldDef,
    ScalarFieldType, ScalarKind, SchemaData, UniqueCriterion,
};
use query_engine_core::value::{ArgumentValue, ScalarValue};
use query_engine_core::{evaluate, CoreError};
use std::sync::Arc;

fn scalar(name: &str, kind: ScalarKind, arity: FieldArity, pk: bool) -> FieldDef {
    FieldDef::Scalar(ScalarFieldDef {
        name: name.to_string(),
        mapped_name: None,
        arity,
        field_type: ScalarFieldType::BuiltIn(kind),
        is_single_pk: pk,
        is_unique: pk,
        is_updated_at: false,
        is_autoincrement: pk,
        has_default: false,
    })
}

fn relation_field(
    name: &str,
    arity: FieldArity,
    relation: usize,
    side: RelationSide,
    fks: &[&str],
) -> FieldDef {
    FieldDef::Relation(RelationFieldDef {
        name: name.to_string(),
        arity,
        relation: query_engine_core::schema::RelationId(relation),
        side,
        fk_field_names: fks.iter().map(|s| s.to_string()).collect(),
        referenced_field_names: vec!["id".to_string()],
        explicit_on_delete: None,
        explicit_on_update: None,
    })
}

fn pk_criterion() -> Vec<UniqueCriterion> {
    vec![UniqueCriterion { field_indices: vec![0], strict: true }]
}

/// Group -> Slot (required, the slot holds `groupId`) and
/// Slot -> Capacity (optional, the slot holds `capacityId`).
fn group_slot_capacity_dm() -> InternalDataModel {
    let group = ModelDef {
        name: "Group".to_string(),
        mapped_name: None,
        schema_attr: None,
        fields: vec![
            scalar("id", ScalarKind::Int, FieldArity::Required, true),
            scalar("name", ScalarKind::String, FieldArity::Required, false),
            relation_field("slots", FieldArity::List, 0, RelationSide::B, &[]),
        ],
        unique_criteria: pk_criterion(),
    };
    let slot = ModelDef {
        name: "Slot".to_string(),
        mapped_name: None,
        schema_attr: None,
        fields: vec![
            scalar("id", ScalarKind::Int, FieldArity::Required, true),
            scalar("groupId", ScalarKind::Int, FieldArity::Required, false),
            scalar("capacityId", ScalarKind::Int, FieldArity::Optional, false),
            relation_field("group", FieldArity::Required, 0, RelationSide::A, &["groupId"]),
            relation_field("capacity", FieldArity::Optional, 1, RelationSide::A, &["capacityId"]),
        ],
        unique_criteria: pk_criterion(),
    };
    let capacity = ModelDef {
        name: "Capacity".to_string(),
        mapped_name: None,
        schema_attr: None,
        fields: vec![
            scalar("id", ScalarKind::Int, FieldArity::Required, true),
            scalar("size", ScalarKind::Int, FieldArity::Required, false),
            relation_field("slot", FieldArity::Optional, 1, RelationSide::B, &[]),
        ],
        unique_criteria: pk_criterion(),
    };
    let schema = SchemaData {
        models: vec![group, slot, capacity],
        composite_types: vec![],
        enums: vec![],
        relations: vec![
            RelationDef {
                name: "GroupToSlot".to_string(),
                model_a: ModelId(1),
                field_a: FieldId(3),
                model_b: ModelId(0),
                field_b: FieldId(2),
                manifestation: RelationLinkManifestation::Inline(InlineRelation {
                    in_table_of_model_name: "Slot".to_string(),
                }),
            },
            RelationDef {
                name: "CapacityToSlot".to_string(),
                model_a: ModelId(1),
                field_a: FieldId(4),
                model_b: ModelId(2),
                field_b: FieldId(2),
                manifestation: RelationLinkManifestation::Inline(InlineRelation {
                    in_table_of_model_name: "Slot".to_string(),
                }),
            },
        ],
        relation_mode: RelationMode::Prisma,
    };
    convert(Arc::new(schema)).expect("the schema must validate")
}

fn write_op(model: usize, name: &str, args: Vec<(String, WriteArg)>) -> Expression {
    Expression::Query {
        query: Box::new(DbQuery::Write(WriteOp {
            model: ModelId(model),
            kind: WriteKind::CreateRecord,
            name: name.to_string(),
            id_field: "id".to_string(),
            args,
        })),
    }
}

fn non_empty_records() -> ExpressionResult {
    ExpressionResult::Records(Arc::new(RecordSet {
        fields: vec!["id".to_string()],
        rows: vec![vec![Cell::Scalar(ScalarValue::Int(7))]],
    }))
}

fn empty_records() -> ExpressionResult {
    ExpressionResult::Records(Arc::new(RecordSet { fields: vec!["id".to_string()], rows: vec![] }))
}

/// Side effects of a sequence of writes happen in declared order, and the
/// transaction ends with exactly one commit.
#[test]
fn sequence_side_effects_in_declared_order() {
    let mut conn = MemoryConnector::new();
    let plan = Expression::Sequence {
        seq: vec![
            write_op(0, "first", vec![("n".to_string(), WriteArg::Value(ArgumentValue::Int(1)))]),
            write_op(1, "second", vec![("n".to_string(), WriteArg::Value(ArgumentValue::Int(2)))]),
            write_op(2, "third", vec![("n".to_string(), WriteArg::Value(ArgumentValue::Int(3)))]),
        ],
    };
    let out = execute_plan(&mut conn, &plan);
    assert!(out.is_ok());
    assert_eq!(
        conn.calls,
        vec![CallKind::Execute, CallKind::Execute, CallKind::Execute, CallKind::Commit]
    );
    assert_eq!(conn.records.len(), 3);
    assert_eq!(conn.records[0].model, ModelId(0));
    assert_eq!(conn.records[1].model, ModelId(1));
    assert_eq!(conn.records[2].model, ModelId(2));
}

/// If the n-th write of a sequence fails, exactly n-1 writes completed,
/// the failing call is the last store call, and the transaction is rolled
/// back with no commit.
#[test]
fn failure_atomicity_rolls_back_after_partial_writes() {
    let mut conn = MemoryConnector::failing_at(2);
    let plan = Expression::Sequence {
        seq: vec![
            write_op(0, "first", vec![]),
            write_op(0, "second", vec![]),
            write_op(0, "third", vec![]),
            write_op(0, "fourth", vec![]),
        ],
    };
    let out = execute_plan(&mut conn, &plan);
    match out {
        Err(InterpreterError::Store(_)) => {},
        other => panic!("a store failure was expected, got {:?}", other),
    }
    // The third call failed: two completed executes, the failing execute,
    // then rollback; never a commit.
    assert_eq!(
        conn.calls,
        vec![CallKind::Execute, CallKind::Execute, CallKind::Execute, CallKind::Rollback]
    );
    assert_eq!(conn.records.len(), 2);
    assert!(!conn.calls.contains(&CallKind::Commit));
}

/// A binding introduced by a nested scope is gone once the scope's body
/// has finished, on the success path and under errors alike.
#[test]
fn let_scope_does_not_leak() {
    let mut conn = MemoryConnector::new();
    let mut env = Env::new();
    let plan = Expression::Sequence {
        seq: vec![
            Expression::Let {
                bindings: vec![Binding {
                    name: "x".to_string(),
                    expr: Expression::Sequence { seq: vec![] },
                }],
                expressions: vec![Expression::Get { binding_name: "x".to_string() }],
            },
            Expression::Get { binding_name: "x".to_string() },
        ],
    };
    let out = eval(&mut conn, &mut env, &plan);
    match out {
        Err(InterpreterError::EnvVarNotFound(name)) => assert_eq!(name, "x"),
        other => panic!("the leaked lookup must miss, got {:?}", other),
    }
    assert_eq!(env.scopes.len(), 0);
}

/// The first non-empty binding wins, in order; bindings that only exist
/// but are empty are passed over, and nothing is ever executed for it.
#[test]
fn get_first_non_empty_picks_b() {
    let mut conn = MemoryConnector::new();
    let mut env = Env::new();
    let b_val = non_empty_records();
    env.push_scope(vec![
        ("a".to_string(), empty_records()),
        ("b".to_string(), b_val.clone()),
        ("c".to_string(), non_empty_records()),
    ]);
    let expr = Expression::GetFirstNonEmpty {
        binding_names: vec!["a".to_string(), "b".to_string(), "c".to_string()],
    };
    let out = eval(&mut conn, &mut env, &expr).unwrap();
    assert_eq!(out, Evaluated::Value(b_val));
    assert_eq!(conn.calls.len(), 0);
}

/// A bound affected-row count is the wrong shape for a first-non-empty
/// consumer.
#[test]
fn get_first_non_empty_rejects_counts() {
    let mut conn = MemoryConnector::new();
    let mut env = Env::new();
    env.push_scope(vec![("a".to_string(), ExpressionResult::Count(3))]);
    let expr = Expression::GetFirstNonEmpty { binding_names: vec!["a".to_string()] };
    match eval(&mut conn, &mut env, &expr) {
        Err(InterpreterError::ShapeMismatch(name)) => assert_eq!(name, "a"),
        other => panic!("a shape mismatch was expected, got {:?}", other),
    }
}

/// A plan reading a name with no enclosing binding is rejected before any
/// store I/O, and the transaction is rolled back.
#[test]
fn unbound_name_is_rejected_before_io() {
    let mut conn = MemoryConnector::new();
    let plan = Expression::Sequence {
        seq: vec![write_op(0, "w", vec![("x".to_string(), WriteArg::Bound("nope".to_string()))])],
    };
    assert_eq!(check_plan(&plan), Some("nope".to_string()));
    match execute_plan(&mut conn, &plan) {
        Err(InterpreterError::UnboundBinding(name)) => assert_eq!(name, "nope"),
        other => panic!("an unbound-binding error was expected, got {:?}", other),
    }
    assert_eq!(conn.calls, vec![CallKind::Rollback]);
    assert_eq!(conn.records.len(), 0);
}

fn create_group_with_slots(slots: usize) -> Operation {
    let slot_objects: Vec<ArgumentValue> =
        (0..slots).map(|_| ArgumentValue::Object(vec![])).collect();
    Operation::Write(Selection {
        name: "createOneGroup".to_string(),
        alias: None,
        arguments: vec![(
            "data".to_string(),
            ArgumentValue::Object(vec![
                ("name".to_string(), ArgumentValue::String("g".to_string())),
                (
                    "slots".to_string(),
                    ArgumentValue::Object(vec![(
                        "create".to_string(),
                        ArgumentValue::List(slot_objects),
                    )]),
                ),
            ]),
        )],
        nested_selections: vec![],
    })
}

/// Creating a group with three nested slots plans a group-create bound to
/// `groupId`, followed by three slot-creates each threading that binding.
#[test]
fn nested_create_plans_parent_first() {
    let dm = group_slot_capacity_dm();
    let qs = build_query_schema(&dm);
    let op = create_group_with_slots(3);
    let plan = plan_operation(&dm, &qs, &op).unwrap();
    assert_eq!(check_plan(&plan), None);
    match &plan {
        Expression::Let { bindings, expressions } => {
            assert_eq!(bindings.len(), 1);
            assert_eq!(bindings[0].name, "groupId");
            match &bindings[0].expr {
                Expression::Query { query } => match &**query {
                    DbQuery::Write(op) => {
                        assert_eq!(op.model, ModelId(0));
                        assert_eq!(op.kind, WriteKind::CreateRecord);
                    },
                    other => panic!("the binding must create the group, got {:?}", other),
                },
                other => panic!("the binding must be a leaf write, got {:?}", other),
            }
            // Three slot creates, each threading the bound group id, then
            // the bound id as the overall value.
            assert_eq!(expressions.len(), 4);
            for slot_expr in &expressions[0..3] {
                match slot_expr {
                    Expression::Query { query } => match &**query {
                        DbQuery::Write(op) => {
                            assert_eq!(op.model, ModelId(1));
                            assert!(op.args.contains(&(
                                "groupId".to_string(),
                                WriteArg::Bound("groupId".to_string())
                            )));
                        },
                        other => panic!("slots must be leaf writes, got {:?}", other),
                    },
                    other => panic!("slots must be leaf writes, got {:?}", other),
                }
            }
            assert_eq!(
                expressions[3],
                Expression::Get { binding_name: "groupId".to_string() }
            );
        },
        other => panic!("the plan must bind the group id, got {:?}", other),
    }
}

/// Running the three-slot create against the in-memory connector yields
/// three slot rows all sharing the generated group id.
#[test]
fn nested_create_threads_the_group_id() {
    let dm = group_slot_capacity_dm();
    let qs = build_query_schema(&dm);
    let op = create_group_with_slots(3);
    let mut conn = MemoryConnector::new();
    let out = evaluate(&mut conn, &dm, &qs, &op);
    assert!(out.is_ok());
    let slots: Vec<_> = conn.records.iter().filter(|r| r.model == ModelId(1)).collect();
    assert_eq!(slots.len(), 3);
    let group_id = conn
        .records
        .iter()
        .find(|r| r.model == ModelId(0))
        .map(|r| r.id)
        .expect("the group must be stored");
    for slot in slots {
        assert!(slot
            .values
            .contains(&("groupId".to_string(), ArgumentValue::Int(group_id))));
    }
}

/// A double-nested create (group -> slot -> capacity, the slot holding the
/// optional capacity key) creates each capacity before its slot and binds
/// each generated capacity id distinctly per slot.
#[test]
fn double_nested_create_plans_capacity_before_slot() {
    let dm = group_slot_capacity_dm();
    let qs = build_query_schema(&dm);
    let slot_with_capacity = |size: i64| {
        ArgumentValue::Object(vec![(
            "capacity".to_string(),
            ArgumentValue::Object(vec![(
                "create".to_string(),
                ArgumentValue::Object(vec![("size".to_string(), ArgumentValue::Int(size))]),
            )]),
        )])
    };
    let op = Operation::Write(Selection {
        name: "createOneGroup".to_string(),
        alias: None,
        arguments: vec![(
            "data".to_string(),
            ArgumentValue::Object(vec![
                ("name".to_string(), ArgumentValue::String("g".to_string())),
                (
                    "slots".to_string(),
                    ArgumentValue::Object(vec![(
                        "create".to_string(),
                        ArgumentValue::List(vec![slot_with_capacity(5), slot_with_capacity(9)]),
                    )]),
                ),
            ]),
        )],
        nested_selections: vec![],
    });
    let plan = plan_operation(&dm, &qs, &op).unwrap();
    assert_eq!(check_plan(&plan), None);
    let mut conn = MemoryConnector::new();
    let out = execute_plan(&mut conn, &plan);
    assert!(out.is_ok());
    // Stored order: group, then capacity before its slot, twice.
    let models: Vec<ModelId> = conn.records.iter().map(|r| r.model).collect();
    assert_eq!(models, vec![ModelId(0), ModelId(2), ModelId(1), ModelId(2), ModelId(1)]);
    // Each slot threads the id of the capacity stored just before it.
    let slot_capacity_ids: Vec<ArgumentValue> = conn
        .records
        .iter()
        .filter(|r| r.model == ModelId(1))
        .map(|r| {
            r.values
                .iter()
                .find(|(k, _)| k == "capacityId")
                .map(|(_, v)| v.clone())
                .expect("each slot must thread a capacity id")
        })
        .collect();
    let capacity_ids: Vec<i64> = conn
        .records
        .iter()
        .filter(|r| r.model == ModelId(2))
        .map(|r| r.id)
        .collect();
    assert_eq!(slot_capacity_ids.len(), 2);
    assert_ne!(slot_capacity_ids[0], slot_capacity_ids[1]);
    assert_eq!(slot_capacity_ids[0], ArgumentValue::Int(capacity_ids[0]));
    assert_eq!(slot_capacity_ids[1], ArgumentValue::Int(capacity_ids[1]));
}

/// A successful read answers with a record set shaped exactly like the
/// selection: its scalar columns, then one nested column per relation.
#[test]
fn read_result_matches_selection_shape() {
    let dm = group_slot_capacity_dm();
    let qs = build_query_schema(&dm);
    let op = Operation::Read(Selection {
        name: "findManyGroup".to_string(),
        alias: None,
        arguments: vec![],
        nested_selections: vec![
            Selection {
                name: "id".to_string(),
                alias: None,
                arguments: vec![],
                nested_selections: vec![],
            },
            Selection {
                name: "name".to_string(),
                alias: None,
                arguments: vec![],
                nested_selections: vec![],
            },
            Selection {
                name: "slots".to_string(),
                alias: None,
                arguments: vec![],
                nested_selections: vec![Selection {
                    name: "id".to_string(),
                    alias: None,
                    arguments: vec![],
                    nested_selections: vec![],
                }],
            },
        ],
    });
    let mut conn = MemoryConnector::new();
    // Store one group so the read returns a row.
    let seed = create_group_with_slots(1);
    evaluate(&mut conn, &dm, &qs, &seed).unwrap();
    let out = evaluate(&mut conn, &dm, &qs, &op).unwrap();
    match out {
        ExpressionResult::Records(rs) => {
            assert_eq!(
                rs.fields,
                vec!["id".to_string(), "name".to_string(), "slots".to_string()]
            );
            assert_eq!(rs.rows.len(), 1);
            for row in rs.rows.iter() {
                assert_eq!(row.len(), 3);
                assert!(matches!(row[0], Cell::Scalar(_)));
                assert!(matches!(row[1], Cell::Scalar(_)));
                match &row[2] {
                    Cell::Nested(inner) => {
                        assert_eq!(inner.fields, vec!["id".to_string()]);
                    },
                    other => panic!("the relation column must nest records, got {:?}", other),
                }
            }
        },
        other => panic!("a read must answer with records, got {:?}", other),
    }
}

/// An early return short-circuits the enclosing sequence; the boundary of
/// a conditional branch catches it.
#[test]
fn return_short_circuits_the_sequence() {
    let mut conn = MemoryConnector::new();
    let marker = non_empty_records();
    let plan = Expression::Sequence {
        seq: vec![
            Expression::Return { result: Box::new(marker.clone()) },
            write_op(0, "never", vec![]),
        ],
    };
    let out = execute_plan(&mut conn, &plan).unwrap();
    assert_eq!(out, marker);
    // The write after the return is never issued.
    assert_eq!(conn.calls, vec![CallKind::Commit]);
}

/// The predicate of a conditional is evaluated eagerly and exactly one
/// branch runs.
#[test]
fn conditional_runs_exactly_one_branch() {
    let mut conn = MemoryConnector::new();
    let mut env = Env::new();
    env.push_scope(vec![("found".to_string(), non_empty_records())]);
    let expr = Expression::If {
        cond: query_engine_core::expression::Condition::NonEmpty("found".to_string()),
        then: vec![write_op(0, "updated", vec![])],
        else_: vec![write_op(1, "created", vec![])],
    };
    let out = eval(&mut conn, &mut env, &expr);
    assert!(out.is_ok());
    assert_eq!(conn.records.len(), 1);
    assert_eq!(conn.records[0].model, ModelId(0));
}

/// A plan error surfaces as the plan member of the caller's error type.
#[test]
fn unknown_top_level_field_is_a_plan_error() {
    let dm = group_slot_capacity_dm();
    let qs = build_query_schema(&dm);
    let op = Operation::Read(Selection {
        name: "findManyUnicorn".to_string(),
        alias: None,
        arguments: vec![],
        nested_selections: vec![],
    });
    let mut conn = MemoryConnector::new();
    match evaluate(&mut conn, &dm, &qs, &op) {
        Err(CoreError::Plan(_)) => {},
        other => panic!("a plan error was expected, got {:?}", other),
    }
    assert_eq!(conn.calls, vec![CallKind::Rollback]);
}

/// With every candidate empty or missing, the first-non-empty lookup is a
/// fatal name miss, never a silent null.
#[test]
fn get_first_non_empty_with_nothing_found_is_fatal() {
    let mut conn = MemoryConnector::new();
    let mut env = Env::new();
    env.push_scope(vec![("a".to_string(), empty_records())]);
    let expr = Expression::GetFirstNonEmpty {
        binding_names: vec!["a".to_string(), "missing".to_string()],
    };
    assert!(matches!(
        eval(&mut conn, &mut env, &expr),
        Err(InterpreterError::EnvVarNotFound(_))
    ));
}

/// A constant-false condition runs exactly the other branch.
#[test]
fn conditional_false_runs_the_else_branch() {
    let mut conn = MemoryConnector::new();
    let mut env = Env::new();
    let expr = Expression::If {
        cond: query_engine_core::expression::Condition::Const(false),
        then: vec![write_op(0, "then", vec![])],
        else_: vec![write_op(1, "otherwise", vec![])],
    };
    eval(&mut conn, &mut env, &expr).unwrap();
    assert_eq!(conn.records.len(), 1);
    assert_eq!(conn.records[0].model, ModelId(1));
}

/// An empty sequence evaluates to the empty value without touching the
/// store.
#[test]
fn empty_sequence_is_empty() {
    let mut conn = MemoryConnector::new();
    let mut env = Env::new();
    let out = eval(&mut conn, &mut env, &Expression::Sequence { seq: vec![] }).unwrap();
    assert_eq!(out, Evaluated::Value(ExpressionResult::Empty));
    assert_eq!(conn.calls.len(), 0);
}

/// Writes the planner does not compile yet are refused outright rather
/// than run as some other operation.
#[test]
fn unsupported_writes_are_rejected_not_miscompiled() {
    let dm = group_slot_capacity_dm();
    let qs = build_query_schema(&dm);
    for name in ["upsertOneGroup", "createManyGroup"] {
        let op = Operation::Write(Selection {
            name: name.to_string(),
            alias: None,
            arguments: vec![],
            nested_selections: vec![],
        });
        match plan_operation(&dm, &qs, &op) {
            Err(query_engine_core::planner::PlannerError::UnsupportedWrite(n)) => {
                assert_eq!(n, name)
            },
            other => panic!("{} must be refused, got {:?}", name, other),
        }
        let mut conn = MemoryConnector::new();
        match evaluate(&mut conn, &dm, &qs, &op) {
            Err(CoreError::Plan(_)) => {},
            other => panic!("{} must fail as a plan error, got {:?}", name, other),
        }
        assert_eq!(conn.calls, vec![CallKind::Rollback]);
        assert!(conn.records.is_empty());
    }
}
