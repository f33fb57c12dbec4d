//! The execution engine: walks an expression tree inside one transaction,
//! maintaining the scoped binding environment, issuing leaf store
//! operations through the connector, and folding results back into the
//! shape the plan asked for.

use crate::connector::{is_op_record, CallRecord, Connector, StoreError, WriteOutcome};
use crate::env::{env_lookup, scopes_view, Env};
use crate::expression::{
    expr_seq_view, expr_view, lemma_expr_seq_view, read_op_view, write_op_view, Condition,
    DbQuery, DbQueryView, Expression, ExprView, ReadOp, ReadOpView, WriteArg, WriteArgView,
    WriteOp, WriteOpView,
};
use crate::record::{result_is_empty, Cell, ExpressionResult, RecordSet};
use crate::value::{ArgVal, ArgumentValue, ScalarValue};
use std::sync::Arc;
use vstd::prelude::*;

verus! {

/// The typed failure of one evaluation, per the engine's error taxonomy:
/// store failures are propagated with their structure; everything else is
/// an engine-internal interpretation error and always fatal.
#[derive(Debug, PartialEq)]
pub enum InterpreterError {
    /// An environment lookup missed.
    EnvVarNotFound(String),
    /// A bound value has the wrong shape for its consumer.
    ShapeMismatch(String),
    /// The connector reported a failure; propagated verbatim.
    Store(StoreError),
    /// The plan reads a name no enclosing binding introduces; surfaced by
    /// the pre-execution well-formedness check, before any store I/O.
    UnboundBinding(String),
}

/// What one expression evaluated to: a plain value, or an early return that
/// propagates through the enclosing sequences up to the nearest boundary.
#[derive(Debug, PartialEq)]
pub enum Evaluated {
    Value(ExpressionResult),
    Early(ExpressionResult),
}

// ---------------------------------------------------------------------------
// Resolving the threaded arguments of a write operation.
// ---------------------------------------------------------------------------

/// The argument shape a scalar cell contributes when a generated id is
/// threaded into a later operation.
pub open spec fn scalar_arg_val(v: ScalarValue) -> ArgVal {
    match v {
        ScalarValue::Null => ArgVal::Null,
        ScalarValue::Int(n) => ArgVal::Int(n as int),
        ScalarValue::BigInt(n) => ArgVal::Int(n as int),
        ScalarValue::Float(s) => ArgVal::Float(s@),
        ScalarValue::Decimal(s) => ArgVal::Float(s@),
        ScalarValue::Boolean(b) => ArgVal::Bool(b),
        ScalarValue::String(s) => ArgVal::Text(s@),
        ScalarValue::Enum(s) => ArgVal::EnumVal(s@),
        ScalarValue::Uuid(s) => ArgVal::Text(s@),
        ScalarValue::DateTime(s) => ArgVal::Text(s@),
        ScalarValue::Json(s) => ArgVal::Text(s@),
        ScalarValue::Xml(s) => ArgVal::Text(s@),
        ScalarValue::Bytes(_) => ArgVal::Null,
    }
}

/// The single scalar a bound result hands to a consumer: the first cell of
/// its first row. A bound store result that cannot yield one is a shape
/// mismatch.
pub open spec fn bound_scalar(res: ExpressionResult) -> Option<ScalarValue> {
    match res {
        ExpressionResult::Records(rs) => if rs.rows@.len() >= 1 && rs.rows@[0]@.len() >= 1 {
            match rs.rows@[0]@[0] {
                Cell::Scalar(v) => Some(v),
                Cell::Nested(_) => None,
            }
        } else {
            None
        },
        _ => None,
    }
}

/// Resolution of one write argument against the environment.
pub open spec fn resolve_warg_v(
    ss: Seq<Seq<(String, ExpressionResult)>>,
    a: WriteArgView,
) -> Option<WriteArgView> {
    match a {
        WriteArgView::Value(v) => Some(WriteArgView::Value(v)),
        WriteArgView::Bound(n) => match env_lookup(ss, n) {
            Some(res) => match bound_scalar(res) {
                Some(sv) => Some(WriteArgView::Value(scalar_arg_val(sv))),
                None => None,
            },
            None => None,
        },
    }
}

/// Resolution of a whole write operation: every threaded argument replaced
/// by the scalar its binding holds; `None` when any binding misses or has
/// the wrong shape.
pub open spec fn resolve_op_v(
    ss: Seq<Seq<(String, ExpressionResult)>>,
    opv: WriteOpView,
) -> Option<WriteOpView> {
    if forall|i: int| 0 <= i < opv.args.len() ==> resolve_warg_v(ss, (#[trigger] opv.args[i]).1) is Some {
        Some(
            WriteOpView {
                args: Seq::new(
                    opv.args.len(),
                    |i: int| (opv.args[i].0, resolve_warg_v(ss, opv.args[i].1)->0),
                ),
                ..opv
            },
        )
    } else {
        None
    }
}

/// Turns the scalar a binding holds into a concrete argument value.
fn scalar_to_argument(v: &ScalarValue) -> (r: ArgumentValue)
    ensures
        crate::value::arg_view(r) == scalar_arg_val(*v),
{
    match v {
        ScalarValue::Null => ArgumentValue::Null,
        ScalarValue::Int(n) => ArgumentValue::Int(*n),
        ScalarValue::BigInt(n) => ArgumentValue::Int(*n),
        ScalarValue::Float(s) => ArgumentValue::Float(s.clone()),
        ScalarValue::Decimal(s) => ArgumentValue::Float(s.clone()),
        ScalarValue::Boolean(b) => ArgumentValue::Boolean(*b),
        ScalarValue::String(s) => ArgumentValue::String(s.clone()),
        ScalarValue::Enum(s) => ArgumentValue::Enum(s.clone()),
        ScalarValue::Uuid(s) => ArgumentValue::String(s.clone()),
        ScalarValue::DateTime(s) => ArgumentValue::String(s.clone()),
        ScalarValue::Json(s) => ArgumentValue::String(s.clone()),
        ScalarValue::Xml(s) => ArgumentValue::String(s.clone()),
        ScalarValue::Bytes(_) => ArgumentValue::Null,
    }
}

/// An argument whose resolution fails makes the whole operation
/// unresolvable.
proof fn lemma_unresolved(
    ss: Seq<Seq<(String, ExpressionResult)>>,
    opv: WriteOpView,
    i: int,
    name: Seq<char>,
)
    requires
        0 <= i < opv.args.len(),
        opv.args[i].1 == WriteArgView::Bound(name),
        resolve_warg_v(ss, opv.args[i].1) is None,
    ensures
        resolve_op_v(ss, opv) is None,
{
}

/// Resolves every threaded argument of a write operation against the
/// environment, so the connector only ever sees concrete values.
fn resolve_write_op(env: &Env, op: &WriteOp) -> (r: Result<WriteOp, InterpreterError>)
    ensures
        match resolve_op_v(scopes_view(*env), write_op_view(*op)) {
            Some(rv) => r matches Ok(rop) && write_op_view(rop) == rv,
            None => r matches Err(e) && !(e is Store) && !(e is UnboundBinding),
        },
{
    let ghost ss = scopes_view(*env);
    let ghost opv = write_op_view(*op);
    let mut args: Vec<(String, WriteArg)> = Vec::new();
    let mut i: usize = 0;
    while i < op.args.len()
        invariant
            i <= op.args@.len(),
            ss == scopes_view(*env),
            opv == write_op_view(*op),
            opv.args.len() == op.args@.len(),
            args@.len() == i,
            forall|j: int|
                0 <= j < i ==> resolve_warg_v(ss, (#[trigger] opv.args[j]).1) is Some,
            forall|j: int|
                0 <= j < i ==> (#[trigger] crate::expression::write_args_view(args@)[j]) == (
                    opv.args[j].0,
                    resolve_warg_v(ss, opv.args[j].1)->0,
                ),
        decreases op.args@.len() - i,
    {
        let key = op.args[i].0.clone();
        let ghost pre_args = args@;
        let new_arg: WriteArg = match &op.args[i].1 {
            WriteArg::Value(v) => WriteArg::Value(v.clone()),
            WriteArg::Bound(name) => {
                match env.get(name) {
                    Some(res) => {
                        let res = res.clone();
                        match &res {
                            ExpressionResult::Records(rs) => {
                                if rs.rows.len() >= 1 && rs.rows[0].len() >= 1 {
                                    match &rs.rows[0][0] {
                                        Cell::Scalar(sv) => WriteArg::Value(scalar_to_argument(sv)),
                                        Cell::Nested(_) => {
                                            proof {
                                                lemma_unresolved(ss, opv, i as int, name@);
                                            }
                                            return Err(
                                                InterpreterError::ShapeMismatch(name.clone()),
                                            );
                                        },
                                    }
                                } else {
                                    proof {
                                        lemma_unresolved(ss, opv, i as int, name@);
                                    }
                                    return Err(InterpreterError::ShapeMismatch(name.clone()));
                                }
                            },
                            _ => {
                                proof {
                                    lemma_unresolved(ss, opv, i as int, name@);
                                }
                                return Err(InterpreterError::ShapeMismatch(name.clone()));
                            },
                        }
                    },
                    None => {
                        proof {
                            lemma_unresolved(ss, opv, i as int, name@);
                        }
                        return Err(InterpreterError::EnvVarNotFound(name.clone()));
                    },
                }
            },
        };
        args.push((key, new_arg));
        proof {
            assert(crate::expression::write_arg_view(args@[i as int].1) == resolve_warg_v(
                ss,
                opv.args[i as int].1,
            )->0);
            assert forall|j: int|
                0 <= j < i + 1 implies (#[trigger] crate::expression::write_args_view(args@)[j])
                == (opv.args[j].0, resolve_warg_v(ss, opv.args[j].1)->0) by {
                if j < i {
                    assert(args@[j] == pre_args[j]);
                    assert(crate::expression::write_args_view(args@)[j]
                        == crate::expression::write_args_view(pre_args)[j]);
                }
            }
        }
        i += 1;
    }
    let rop = WriteOp {
        model: op.model,
        kind: op.kind,
        name: op.name.clone(),
        id_field: op.id_field.clone(),
        args,
    };
    proof {
        let rv = resolve_op_v(ss, opv);
        assert(rv is Some);
        assert(write_op_view(rop).args =~= rv->0.args);
        assert(write_op_view(rop) == rv->0);
    }
    Ok(rop)
}

// ---------------------------------------------------------------------------
// Result assembly: folding raw store rows into the plan's shape.
// ---------------------------------------------------------------------------

/// A record set has exactly the shape one read operation asked for: its
/// scalar fields first, then one nested column per nested read, with every
/// nested record set well-shaped in turn.
pub open spec fn rs_shape_ok(rs: RecordSet, opv: ReadOpView) -> bool
    decreases opv, 1int,
{
    &&& rs.fields@.len() == opv.fields.len() + opv.nested.len()
    &&& forall|k: int| 0 <= k < opv.fields.len() ==> (#[trigger] rs.fields@[k])@ == opv.fields[k]
    &&& forall|k: int|
        0 <= k < opv.nested.len() ==> (#[trigger] rs.fields@[opv.fields.len() + k])@
            == opv.nested[k].name
    &&& forall|i: int| 0 <= i < rs.rows@.len() ==> row_shape_ok(#[trigger] rs.rows@[i], opv)
}

pub open spec fn row_shape_ok(row: Vec<Cell>, opv: ReadOpView) -> bool
    decreases opv, 0int,
{
    &&& row@.len() == opv.fields.len() + opv.nested.len()
    &&& forall|k: int| 0 <= k < opv.fields.len() ==> (#[trigger] row@[k]) is Scalar
    &&& forall|k: int|
        0 <= k < opv.nested.len() ==> ((#[trigger] row@[opv.fields.len() + k]) matches Cell::Nested(
            inner,
        ) && rs_shape_ok(*inner, opv.nested[k]))
}

/// Index of the first field with the given name in a name list.
pub open spec fn find_raw_idx_from(fields: Seq<String>, name: Seq<char>, i: int) -> Option<int>
    decreases fields.len() - i,
{
    if i < 0 || i >= fields.len() {
        None
    } else if fields[i]@ == name {
        Some(i)
    } else {
        find_raw_idx_from(fields, name, i + 1)
    }
}

/// The cell a conformed row carries for one requested scalar field: the
/// raw row's first matching scalar column, null when the store answered
/// nothing usable there.
pub open spec fn conformed_cell(raw: RecordSet, ri: int, name: Seq<char>) -> Cell {
    match find_raw_idx_from(raw.fields@, name, 0) {
        Some(fi) => if fi < raw.rows@[ri]@.len() && raw.rows@[ri]@[fi] is Scalar {
            raw.rows@[ri]@[fi]
        } else {
            Cell::Scalar(ScalarValue::Null)
        },
        None => Cell::Scalar(ScalarValue::Null),
    }
}

/// Index of the first field of a raw record set with the given name.
fn find_raw_field(raw: &RecordSet, name: &String) -> (r: Option<usize>)
    ensures
        match find_raw_idx_from(raw.fields@, name@, 0) {
            Some(i) => r matches Some(u) && u == i,
            None => r is None,
        },
{
    let mut i: usize = 0;
    while i < raw.fields.len()
        invariant
            i <= raw.fields@.len(),
            find_raw_idx_from(raw.fields@, name@, 0) == find_raw_idx_from(
                raw.fields@,
                name@,
                i as int,
            ),
        decreases raw.fields@.len() - i,
    {
        if raw.fields[i] == *name {
            proof {
                assert(find_raw_idx_from(raw.fields@, name@, i as int) == Some(i as int));
            }
            return Some(i);
        }
        proof {
            assert(find_raw_idx_from(raw.fields@, name@, i as int) == find_raw_idx_from(
                raw.fields@,
                name@,
                i as int + 1,
            ));
        }
        i += 1;
    }
    proof {
        assert(find_raw_idx_from(raw.fields@, name@, i as int) is None);
    }
    None
}

/// Folds a raw record set into exactly the shape the read operation asked
/// for: requested scalar fields by name (null when absent), then the
/// conformed nested records of each nested read (empty when absent). This
/// conversion is the interpreter's, not the connector's: whatever the store
/// answered, the result matches the plan's shape.
fn conform_records(op: &ReadOp, raw: &RecordSet) -> (r: RecordSet)
    ensures
        rs_shape_ok(r, read_op_view(*op)),
        r.rows@.len() == raw.rows@.len(),
        forall|i: int, k: int|
            0 <= i < r.rows@.len() && 0 <= k < op.fields@.len() ==> #[trigger] r.rows@[i]@[k]
                == conformed_cell(*raw, i, op.fields@[k]@),
    decreases *op,
{
    let ghost opv = read_op_view(*op);
    proof {
        crate::expression::lemma_read_seq_view(op.nested@);
    }
    let mut fields: Vec<String> = Vec::new();
    let mut k: usize = 0;
    while k < op.fields.len()
        invariant
            k <= op.fields@.len(),
            opv == read_op_view(*op),
            fields@.len() == k,
            forall|j: int| 0 <= j < k ==> (#[trigger] fields@[j])@ == opv.fields[j],
        decreases op.fields@.len() - k,
    {
        fields.push(op.fields[k].clone());
        k += 1;
    }
    let mut k: usize = 0;
    while k < op.nested.len()
        invariant
            k <= op.nested@.len(),
            opv == read_op_view(*op),
            opv.nested.len() == op.nested@.len(),
            forall|j: int|
                0 <= j < op.nested@.len() ==> opv.nested[j] == read_op_view(
                    #[trigger] op.nested@[j],
                ),
            fields@.len() == opv.fields.len() + k,
            forall|j: int| 0 <= j < opv.fields.len() ==> (#[trigger] fields@[j])@ == opv.fields[j],
            forall|j: int|
                0 <= j < k ==> (#[trigger] fields@[opv.fields.len() + j])@ == opv.nested[j].name,
        decreases op.nested@.len() - k,
    {
        fields.push(op.nested[k].name.clone());
        k += 1;
    }
    let mut rows: Vec<Vec<Cell>> = Vec::new();
    let mut ri: usize = 0;
    while ri < raw.rows.len()
        invariant
            ri <= raw.rows@.len(),
            opv == read_op_view(*op),
            opv.nested.len() == op.nested@.len(),
            opv.fields.len() == op.fields@.len(),
            forall|j: int|
                0 <= j < op.nested@.len() ==> opv.nested[j] == read_op_view(
                    #[trigger] op.nested@[j],
                ),
            rows@.len() == ri,
            forall|j: int| 0 <= j < ri ==> row_shape_ok(#[trigger] rows@[j], opv),
            forall|j: int, k: int|
                0 <= j < ri && 0 <= k < op.fields@.len() ==> #[trigger] rows@[j]@[k]
                    == conformed_cell(*raw, j, op.fields@[k]@),
        decreases raw.rows@.len() - ri,
    {
        let mut row: Vec<Cell> = Vec::new();
        let mut k: usize = 0;
        while k < op.fields.len()
            invariant
                ri < raw.rows@.len(),
                k <= op.fields@.len(),
                opv == read_op_view(*op),
                opv.fields.len() == op.fields@.len(),
                row@.len() == k,
                forall|j: int| 0 <= j < k ==> (#[trigger] row@[j]) is Scalar,
                forall|j: int|
                    0 <= j < k ==> #[trigger] row@[j] == conformed_cell(
                        *raw,
                        ri as int,
                        op.fields@[j]@,
                    ),
            decreases op.fields@.len() - k,
        {
            let mut cell = Cell::Scalar(ScalarValue::Null);
            match find_raw_field(raw, &op.fields[k]) {
                Some(fi) => {
                    let raw_row = &raw.rows[ri];
                    if fi < raw_row.len() {
                        match &raw_row[fi] {
                            Cell::Scalar(v) => {
                                cell = Cell::Scalar(v.clone());
                            },
                            Cell::Nested(_) => {},
                        }
                    }
                },
                None => {},
            }
            proof {
                assert(cell == conformed_cell(*raw, ri as int, op.fields@[k as int]@));
            }
            row.push(cell);
            k += 1;
        }
        let mut k: usize = 0;
        while k < op.nested.len()
            invariant
                ri < raw.rows@.len(),
                k <= op.nested@.len(),
                opv == read_op_view(*op),
                opv.fields.len() == op.fields@.len(),
                opv.nested.len() == op.nested@.len(),
                forall|j: int|
                    0 <= j < op.nested@.len() ==> opv.nested[j] == read_op_view(
                        #[trigger] op.nested@[j],
                    ),
                row@.len() == opv.fields.len() + k,
                forall|j: int| 0 <= j < opv.fields.len() ==> (#[trigger] row@[j]) is Scalar,
                forall|j: int|
                    0 <= j < opv.fields.len() ==> #[trigger] row@[j] == conformed_cell(
                        *raw,
                        ri as int,
                        op.fields@[j]@,
                    ),
                forall|j: int|
                    0 <= j < k ==> ((#[trigger] row@[opv.fields.len() + j]) matches Cell::Nested(
                        inner,
                    ) && rs_shape_ok(*inner, opv.nested[j])),
            decreases op.nested@.len() - k,
        {
            let nested_op = &op.nested[k];
            let mut found: Option<RecordSet> = None;
            match find_raw_field(raw, &nested_op.name) {
                Some(fi) => {
                    let raw_row = &raw.rows[ri];
                    if fi < raw_row.len() {
                        match &raw_row[fi] {
                            Cell::Nested(inner) => {
                                proof {
                                    assert(decreases_to!(*op => op.nested@[k as int]));
                                }
                                found = Some(conform_records(nested_op, inner));
                            },
                            Cell::Scalar(_) => {},
                        }
                    }
                },
                None => {},
            }
            let conformed = match found {
                Some(rs) => rs,
                None => {
                    proof {
                        assert(decreases_to!(*op => op.nested@[k as int]));
                    }
                    conform_records(nested_op, &RecordSet { fields: Vec::new(), rows: Vec::new() })
                },
            };
            row.push(Cell::Nested(std::sync::Arc::new(conformed)));
            k += 1;
        }
        rows.push(row);
        ri += 1;
    }
    RecordSet { fields, rows }
}

} // verus!

verus! {

// ---------------------------------------------------------------------------
// Evaluation.
// ---------------------------------------------------------------------------

/// The log grew only by store operations: every appended record is a query
/// or an execute, never a transaction boundary.
pub open spec fn log_grows_by_ops(old_log: Seq<CallRecord>, new_log: Seq<CallRecord>) -> bool {
    &&& new_log.len() >= old_log.len()
    &&& forall|i: int| 0 <= i < old_log.len() ==> #[trigger] new_log[i] == old_log[i]
    &&& forall|i: int| old_log.len() <= i < new_log.len() ==> is_op_record(#[trigger] new_log[i])
}

/// The scan of a first-non-empty lookup: the first name whose binding holds
/// a non-empty value, skipping names no scope binds; a bound count is a
/// shape mismatch.
pub enum GfneOut {
    Found(ExpressionResult),
    Mismatch(Seq<char>),
    NotFound,
}

pub open spec fn gfne_from(
    ss: Seq<Seq<(String, ExpressionResult)>>,
    names: Seq<Seq<char>>,
    i: int,
) -> GfneOut
    decreases names.len() - i,
{
    if i < 0 || i >= names.len() {
        GfneOut::NotFound
    } else {
        match env_lookup(ss, names[i]) {
            None => gfne_from(ss, names, i + 1),
            Some(v) => if v is Count {
                GfneOut::Mismatch(names[i])
            } else if result_is_empty(v) {
                gfne_from(ss, names, i + 1)
            } else {
                GfneOut::Found(v)
            },
        }
    }
}

/// Every node of the sequence is a leaf write operation.
pub open spec fn all_write_queries(s: Seq<ExprView>) -> bool {
    forall|i: int|
        0 <= i < s.len() ==> (#[trigger] s[i]) matches ExprView::Query(DbQueryView::Write(_))
}

pub open spec fn seq_write_op(s: Seq<ExprView>, i: int) -> WriteOpView {
    s[i]->Query_0->Write_0
}

/// Every write of the sequence resolves against the environment.
pub open spec fn seq_resolves(
    ss: Seq<Seq<(String, ExpressionResult)>>,
    s: Seq<ExprView>,
) -> bool {
    forall|i: int| 0 <= i < s.len() ==> resolve_op_v(ss, #[trigger] seq_write_op(s, i)) is Some
}

pub open spec fn resolved_seq(
    ss: Seq<Seq<(String, ExpressionResult)>>,
    s: Seq<ExprView>,
) -> Seq<WriteOpView> {
    Seq::new(s.len(), |i: int| resolve_op_v(ss, seq_write_op(s, i))->0)
}

/// The call records of executing the first `n` writes of `ops` in declared
/// order, all successful but possibly the last.
pub open spec fn exec_trace(ops: Seq<WriteOpView>, n: int, last_ok: bool) -> Seq<CallRecord>
    recommends
        0 <= n <= ops.len(),
{
    Seq::new(n as nat, |i: int| CallRecord::Execute { op: ops[i], ok: i < n - 1 || last_ok })
}

/// The result a create hands back: one row holding the generated id under
/// the operation's id field; a write without a generated id yields its
/// affected-row count.
fn write_result(rop: &WriteOp, outcome: WriteOutcome) -> (r: ExpressionResult)
    ensures
        outcome.generated_id matches Some(g) ==> (r matches ExpressionResult::Records(rs)
            && rs.fields@.len() == 1 && rs.fields@[0]@ == rop.id_field@ && rs.rows@.len() == 1
            && rs.rows@[0]@.len() == 1 && rs.rows@[0]@[0] == Cell::Scalar(g)),
        outcome.generated_id is None ==> r == ExpressionResult::Count(outcome.count),
{
    match outcome.generated_id {
        Some(g) => {
            let mut fields: Vec<String> = Vec::new();
            fields.push(rop.id_field.clone());
            let mut row: Vec<Cell> = Vec::new();
            row.push(Cell::Scalar(g));
            let mut rows: Vec<Vec<Cell>> = Vec::new();
            rows.push(row);
            ExpressionResult::Records(Arc::new(RecordSet { fields, rows }))
        },
        None => ExpressionResult::Count(outcome.count),
    }
}

/// Evaluates one plan node.
///
/// Whatever the node and whatever the connector answered: the environment's
/// scope chain is exactly as before — a binding introduced below is never
/// visible after — and the connector log grew only by store operations, in
/// the order the node issued them. The pure nodes are pinned down exactly;
/// a leaf operation appends exactly one call record.
#[verifier::loop_isolation(false)]
pub fn eval<C: Connector>(conn: &mut C, env: &mut Env, expr: &Expression) -> (r: Result<
    Evaluated,
    InterpreterError,
>)
    ensures
        scopes_view(*final(env)) == scopes_view(*old(env)),
        log_grows_by_ops(old(conn).log(), final(conn).log()),
        r matches Err(e) ==> !(e is UnboundBinding),
        (expr_view(*expr) matches ExprView::Get(n) ==> final(conn).log() == old(conn).log()
            && (match env_lookup(scopes_view(*old(env)), n) {
            Some(v) => r matches Ok(ev) && ev == Evaluated::Value(v),
            None => r matches Err(e) && (e matches InterpreterError::EnvVarNotFound(m) && m@ == n),
        })),
        (expr_view(*expr) matches ExprView::Return(v) ==> final(conn).log() == old(conn).log()
            && (r matches Ok(ev) && ev == Evaluated::Early(v))),
        (expr_view(*expr) matches ExprView::GetFirstNonEmpty(names) ==> final(conn).log() == old(
            conn,
        ).log() && (match gfne_from(scopes_view(*old(env)), names, 0) {
            GfneOut::Found(v) => r matches Ok(ev) && ev == Evaluated::Value(v),
            GfneOut::Mismatch(nm) => r matches Err(e) && (e matches InterpreterError::ShapeMismatch(
                m,
            ) && m@ == nm),
            GfneOut::NotFound => r matches Err(e) && e is EnvVarNotFound,
        })),
        (expr_view(*expr) matches ExprView::Query(DbQueryView::Read(opv)) ==> final(conn).log()
            == old(conn).log().push(CallRecord::Query { op: opv, ok: r is Ok }) && (
        r matches Ok(ev) ==> (ev matches Evaluated::Value(res)
            && res matches ExpressionResult::Records(rs) && rs_shape_ok(*rs, opv))) && (
        r matches Err(e) ==> e is Store)),
        (expr_view(*expr) matches ExprView::Query(DbQueryView::Write(opv)) ==> (match resolve_op_v(
            scopes_view(*old(env)),
            opv,
        ) {
            Some(rv) => final(conn).log() == old(conn).log().push(
                CallRecord::Execute { op: rv, ok: r is Ok },
            ) && (r matches Err(e) ==> e is Store) && (r matches Ok(ev) ==> ev is Value),
            None => final(conn).log() == old(conn).log() && (r matches Err(e) && !(e is Store)),
        })),
        (expr_view(*expr) matches ExprView::Sequence(s) ==> (all_write_queries(s) && seq_resolves(
            scopes_view(*old(env)),
            s,
        ) ==> match r {
            Ok(_) => final(conn).log() == old(conn).log() + exec_trace(
                resolved_seq(scopes_view(*old(env)), s),
                s.len() as int,
                true,
            ),
            Err(e) => e is Store && exists|n: int|
                1 <= n <= s.len() && final(conn).log() == old(conn).log() + exec_trace(
                    resolved_seq(scopes_view(*old(env)), s),
                    n,
                    false,
                ),
        })),
        exists|d: DNode|
            #![trigger run(*expr, scopes_view(*old(env)), d)]
            run(*expr, scopes_view(*old(env)), d) == Some(
                EvalStep {
                    tr: log_suffix(old(conn).log(), final(conn).log()),
                    out: outcome_of(r),
                },
            ),
    decreases *expr, 1int,
{
    let ghost entry_ss = scopes_view(*old(env));
    let ghost entry_log = old(conn).log();
    match expr {
        Expression::Sequence { seq } => {
            proof {
                assert(decreases_to!(*expr => *seq));
            }
            let res = eval_seq(conn, env, seq);
            proof {
                let ds = choose|ds: Seq<DNode>|
                    run_seq(seq@, entry_ss, ds) == Some(
                        EvalStep { tr: log_suffix(entry_log, conn.log()), out: outcome_of(res) },
                    );
                assert(run(*expr, entry_ss, DNode::DList(ds)) == Some(
                    EvalStep { tr: log_suffix(entry_log, conn.log()), out: outcome_of(res) },
                ));
                assert(expr_view(*expr) == ExprView::Sequence(expr_seq_view(seq@)));
                let s = expr_seq_view(seq@);
                let ss = scopes_view(*old(env));
                lemma_expr_seq_view(seq@);
                if all_write_queries(s) && seq_resolves(ss, s) {
                    match res {
                        Ok(_) => {},
                        Err(_) => {
                            let n = choose|n: int|
                                1 <= n <= seq@.len() && conn.log() == old(conn).log()
                                    + exec_trace(resolved_seq(ss, expr_seq_view(seq@)), n, false);
                            assert(1 <= n <= s.len() && conn.log() == old(conn).log()
                                + exec_trace(resolved_seq(ss, s), n, false));
                        },
                    }
                }
            }
            res
        },
        Expression::Query { query } => {
            match &**query {
                DbQuery::Read(op) => {
                    match conn.query(op) {
                        Ok(raw) => {
                            let conformed = conform_records(op, &raw);
                            let res = ExpressionResult::Records(Arc::new(conformed));
                            let r = Ok(Evaluated::Value(res.clone()));
                            proof {
                                assert(log_suffix(entry_log, conn.log()) =~= seq![
                                    CallRecord::Query { op: read_op_view(*op), ok: true },
                                ]);
                                assert(run(*expr, entry_ss, DNode::DReadOk(res)) == Some(
                                    EvalStep {
                                        tr: log_suffix(entry_log, conn.log()),
                                        out: outcome_of(r),
                                    },
                                ));
                            }
                            r
                        },
                        Err(e) => {
                            let ghost se = e;
                            let r = Err(InterpreterError::Store(e));
                            proof {
                                assert(log_suffix(entry_log, conn.log()) =~= seq![
                                    CallRecord::Query { op: read_op_view(*op), ok: false },
                                ]);
                                assert(run(*expr, entry_ss, DNode::DReadErr(se)) == Some(
                                    EvalStep {
                                        tr: log_suffix(entry_log, conn.log()),
                                        out: outcome_of(r),
                                    },
                                ));
                            }
                            r
                        },
                    }
                },
                DbQuery::Write(op) => {
                    match resolve_write_op(env, op) {
                        Ok(rop) => {
                            match conn.execute(&rop) {
                                Ok(outcome) => {
                                    let res = write_result(&rop, outcome);
                                    let r = Ok(Evaluated::Value(res.clone()));
                                    proof {
                                        assert(log_suffix(entry_log, conn.log()) =~= seq![
                                            CallRecord::Execute {
                                                op: resolve_op_v(
                                                    entry_ss,
                                                    write_op_view(*op),
                                                )->0,
                                                ok: true,
                                            },
                                        ]);
                                        assert(run(*expr, entry_ss, DNode::DWriteOk(res)) == Some(
                                            EvalStep {
                                                tr: log_suffix(entry_log, conn.log()),
                                                out: outcome_of(r),
                                            },
                                        ));
                                    }
                                    r
                                },
                                Err(e) => {
                                    let ghost se = e;
                                    let r = Err(InterpreterError::Store(e));
                                    proof {
                                        assert(log_suffix(entry_log, conn.log()) =~= seq![
                                            CallRecord::Execute {
                                                op: resolve_op_v(
                                                    entry_ss,
                                                    write_op_view(*op),
                                                )->0,
                                                ok: false,
                                            },
                                        ]);
                                        assert(run(*expr, entry_ss, DNode::DWriteErr(se)) == Some(
                                            EvalStep {
                                                tr: log_suffix(entry_log, conn.log()),
                                                out: outcome_of(r),
                                            },
                                        ));
                                    }
                                    r
                                },
                            }
                        },
                        Err(e) => {
                            let ghost eg = e;
                            let r = Err(e);
                            proof {
                                assert(log_suffix(entry_log, conn.log()) =~= Seq::<
                                    CallRecord,
                                >::empty());
                                assert(run(*expr, entry_ss, DNode::DFail(eg)) == Some(
                                    EvalStep {
                                        tr: log_suffix(entry_log, conn.log()),
                                        out: outcome_of(r),
                                    },
                                ));
                            }
                            r
                        },
                    }
                },
            }
        },
        Expression::Let { bindings, expressions } => {
            let ghost log0 = conn.log();
            let mut scope: Vec<(String, ExpressionResult)> = Vec::new();
            let ghost mut bds: Seq<DNode> = Seq::empty();
            proof {
                assert(bindings@.subrange(0, 0).len() == 0);
                assert(run_bindings(bindings@.subrange(0, 0), entry_ss, bds) == Some(
                    BindStep {
                        tr: Seq::empty(),
                        bout: BindingsOutcome::Scope(
                            Seq::<(String, ExpressionResult)>::empty(),
                        ),
                    },
                ));
                assert(log_suffix(log0, conn.log()) =~= Seq::<CallRecord>::empty());
            }
            let mut i: usize = 0;
            while i < bindings.len()
                invariant
                    i <= bindings@.len(),
                    scopes_view(*env) == scopes_view(*old(env)),
                    log_grows_by_ops(log0, conn.log()),
                    run_bindings(bindings@.subrange(0, i as int), entry_ss, bds) == Some(
                        BindStep {
                            tr: log_suffix(log0, conn.log()),
                            bout: BindingsOutcome::Scope(scope@),
                        },
                    ),
                decreases bindings@.len() - i,
            {
                proof {
                    assert(decreases_to!(*expr => *bindings));
                    assert(decreases_to!(*bindings => bindings@));
                    assert(decreases_to!(bindings@ => bindings@[i as int]));
                    assert(decreases_to!(bindings@[i as int] => bindings@[i as int].expr));
                    assert(decreases_to!(*expr => bindings@[i as int].expr));
                }
                let ghost pre_log = conn.log();
                let ghost pre_step = BindStep {
                    tr: log_suffix(log0, pre_log),
                    bout: BindingsOutcome::Scope(scope@),
                };
                let bres = eval(conn, env, &bindings[i].expr);
                let ghost dch = choose|d: DNode|
                    run(bindings@[i as int].expr, entry_ss, d) == Some(
                        EvalStep {
                            tr: log_suffix(pre_log, conn.log()),
                            out: outcome_of(bres),
                        },
                    );
                let ghost ch_step = EvalStep {
                    tr: log_suffix(pre_log, conn.log()),
                    out: outcome_of(bres),
                };
                proof {
                    lemma_suffix_compose(log0, pre_log, conn.log());
                }
                match bres {
                    Ok(Evaluated::Value(v)) => {
                        proof {
                            lemma_run_bindings_snoc(
                                bindings@.subrange(0, i as int),
                                entry_ss,
                                bds,
                                bindings@[i as int],
                                dch,
                                pre_step,
                                ch_step,
                            );
                            assert(bindings@.subrange(0, i as int).push(bindings@[i as int])
                                =~= bindings@.subrange(0, i as int + 1));
                        }
                        scope.push((bindings[i].name.clone(), v));
                        proof {
                            bds = bds.push(dch);
                        }
                    },
                    Ok(Evaluated::Early(v)) => {
                        let r = Ok(Evaluated::Early(v));
                        proof {
                            lemma_run_bindings_snoc_abort(
                                bindings@,
                                entry_ss,
                                bds,
                                dch,
                                i as int,
                                pre_step,
                                ch_step,
                            );
                            assert(run(
                                *expr,
                                entry_ss,
                                DNode::DLet(bds.push(dch), Seq::empty()),
                            ) == Some(
                                EvalStep {
                                    tr: log_suffix(entry_log, conn.log()),
                                    out: outcome_of(r),
                                },
                            ));
                        }
                        return r;
                    },
                    Err(e) => {
                        let ghost eg = e;
                        let r = Err(e);
                        proof {
                            lemma_run_bindings_snoc_abort(
                                bindings@,
                                entry_ss,
                                bds,
                                dch,
                                i as int,
                                pre_step,
                                ch_step,
                            );
                            assert(run(
                                *expr,
                                entry_ss,
                                DNode::DLet(bds.push(dch), Seq::empty()),
                            ) == Some(
                                EvalStep {
                                    tr: log_suffix(entry_log, conn.log()),
                                    out: outcome_of(r),
                                },
                            ));
                        }
                        return r;
                    },
                }
                i += 1;
            }
            proof {
                assert(bindings@.subrange(0, bindings@.len() as int) =~= bindings@);
            }
            let ghost scope_v = scope@;
            let ghost mid_log = conn.log();
            env.push_scope(scope);
            proof {
                assert(decreases_to!(*expr => *expressions));
            }
            let out = eval_seq(conn, env, expressions);
            env.pop_scope();
            proof {
                assert(scopes_view(*env) =~= scopes_view(*old(env)));
                let body_ds = choose|ds: Seq<DNode>|
                    run_seq(expressions@, entry_ss.push(scope_v), ds) == Some(
                        EvalStep {
                            tr: log_suffix(mid_log, conn.log()),
                            out: outcome_of(out),
                        },
                    );
                lemma_suffix_compose(entry_log, mid_log, conn.log());
                assert(run(*expr, entry_ss, DNode::DLet(bds, body_ds)) == Some(
                    EvalStep { tr: log_suffix(entry_log, conn.log()), out: outcome_of(out) },
                ));
            }
            out
        },
        Expression::Get { binding_name } => {
            let r = match env.get(binding_name) {
                Some(v) => Ok(Evaluated::Value(v.clone())),
                None => Err(InterpreterError::EnvVarNotFound(binding_name.clone())),
            };
            proof {
                assert(log_suffix(entry_log, conn.log()) =~= Seq::<CallRecord>::empty());
                assert(run(*expr, entry_ss, DNode::DPure) == Some(
                    EvalStep { tr: log_suffix(entry_log, conn.log()), out: outcome_of(r) },
                ));
            }
            r
        },
        Expression::GetFirstNonEmpty { binding_names } => {
            let ghost ss = scopes_view(*env);
            let ghost names = crate::expression::names_view(binding_names@);
            let mut i: usize = 0;
            while i < binding_names.len()
                invariant
                    i <= binding_names@.len(),
                    gfne_from(ss, names, 0) == gfne_from(ss, names, i as int),
                decreases binding_names@.len() - i,
            {
                match env.get(&binding_names[i]) {
                    Some(v) => {
                        match v {
                            ExpressionResult::Count(_) => {
                                proof {
                                    assert(gfne_from(ss, names, i as int) == GfneOut::Mismatch(
                                        names[i as int],
                                    ));
                                }
                                let r = Err(
                                    InterpreterError::ShapeMismatch(binding_names[i].clone()),
                                );
                                proof {
                                    assert(log_suffix(entry_log, conn.log()) =~= Seq::<
                                        CallRecord,
                                    >::empty());
                                    assert(run(
                                        *expr,
                                        entry_ss,
                                        DNode::DFail(r->Err_0),
                                    ) == Some(
                                        EvalStep {
                                            tr: log_suffix(entry_log, conn.log()),
                                            out: outcome_of(r),
                                        },
                                    ));
                                }
                                return r;
                            },
                            _ => {
                                if !v.is_empty() {
                                    proof {
                                        assert(gfne_from(ss, names, i as int)
                                            matches GfneOut::Found(_));
                                    }
                                    let r = Ok(Evaluated::Value(v.clone()));
                                    proof {
                                        assert(log_suffix(entry_log, conn.log()) =~= Seq::<
                                            CallRecord,
                                        >::empty());
                                        assert(run(*expr, entry_ss, DNode::DPure) == Some(
                                            EvalStep {
                                                tr: log_suffix(entry_log, conn.log()),
                                                out: outcome_of(r),
                                            },
                                        ));
                                    }
                                    return r;
                                }
                            },
                        }
                    },
                    None => {},
                }
                proof {
                    assert(gfne_from(ss, names, i as int) == gfne_from(ss, names, i as int + 1));
                }
                i += 1;
            }
            proof {
                assert(gfne_from(ss, names, i as int) == GfneOut::NotFound);
            }
            let r = Err(InterpreterError::EnvVarNotFound(String::new()));
            proof {
                assert(log_suffix(entry_log, conn.log()) =~= Seq::<CallRecord>::empty());
                assert(run(*expr, entry_ss, DNode::DFail(r->Err_0)) == Some(
                    EvalStep { tr: log_suffix(entry_log, conn.log()), out: outcome_of(r) },
                ));
            }
            r
        },
        Expression::If { cond, then, else_ } => {
            let b = match cond {
                Condition::Const(c) => *c,
                Condition::NonEmpty(n) => match env.get(n) {
                    Some(v) => !v.is_empty(),
                    None => false,
                },
            };
            proof {
                assert(b == cond_holds(entry_ss, *cond));
            }
            let branch = if b {
                then
            } else {
                else_
            };
            proof {
                assert(decreases_to!(*expr => *branch));
            }
            let inner = eval_seq(conn, env, branch);
            let ghost inner_out = outcome_of(inner);
            let r = match inner {
                Ok(Evaluated::Early(v)) => Ok(Evaluated::Value(v)),
                other => other,
            };
            proof {
                let ds = choose|ds: Seq<DNode>|
                    run_seq(branch@, entry_ss, ds) == Some(
                        EvalStep { tr: log_suffix(entry_log, conn.log()), out: inner_out },
                    );
                assert(outcome_of(r) == catch_early(inner_out));
                assert(run(*expr, entry_ss, DNode::DIf(ds)) == Some(
                    EvalStep { tr: log_suffix(entry_log, conn.log()), out: outcome_of(r) },
                ));
            }
            r
        },
        Expression::Return { result } => {
            let r = Ok(Evaluated::Early((**result).clone()));
            proof {
                assert(log_suffix(entry_log, conn.log()) =~= Seq::<CallRecord>::empty());
                assert(run(*expr, entry_ss, DNode::DPure) == Some(
                    EvalStep { tr: log_suffix(entry_log, conn.log()), out: outcome_of(r) },
                ));
            }
            r
        },
    }
}

/// Evaluates a list of plan nodes strictly left to right; its value is the
/// last node's unless an early return short-circuits. For a sequence of
/// write leaves whose threaded arguments resolve, the appended call records
/// are exactly those writes, resolved, in declared order — all successful
/// on success, and cut off at the first failure with nothing issued after
/// it.
#[verifier::loop_isolation(false)]
pub fn eval_seq<C: Connector>(conn: &mut C, env: &mut Env, exprs: &Vec<Expression>) -> (r: Result<
    Evaluated,
    InterpreterError,
>)
    ensures
        scopes_view(*final(env)) == scopes_view(*old(env)),
        log_grows_by_ops(old(conn).log(), final(conn).log()),
        r matches Err(e) ==> !(e is UnboundBinding),
        exprs@.len() == 0 ==> final(conn).log() == old(conn).log() && (r matches Ok(ev) && ev
            == Evaluated::Value(ExpressionResult::Empty)),
        (all_write_queries(expr_seq_view(exprs@)) && seq_resolves(
            scopes_view(*old(env)),
            expr_seq_view(exprs@),
        ) ==> (match r {
            Ok(_) => final(conn).log() == old(conn).log() + exec_trace(
                resolved_seq(scopes_view(*old(env)), expr_seq_view(exprs@)),
                exprs@.len() as int,
                true,
            ),
            Err(e) => e is Store && exists|n: int|
                1 <= n <= exprs@.len() && final(conn).log() == old(conn).log() + exec_trace(
                    resolved_seq(scopes_view(*old(env)), expr_seq_view(exprs@)),
                    n,
                    false,
                ),
        })),
        exists|ds: Seq<DNode>|
            #![trigger run_seq(exprs@, scopes_view(*old(env)), ds)]
            run_seq(exprs@, scopes_view(*old(env)), ds) == Some(
                EvalStep {
                    tr: log_suffix(old(conn).log(), final(conn).log()),
                    out: outcome_of(r),
                },
            ),
    decreases *exprs, 0int,
{
    let ghost ss = scopes_view(*old(env));
    let ghost sv = expr_seq_view(exprs@);
    let ghost log0 = conn.log();
    let ghost ops = resolved_seq(ss, sv);
    proof {
        lemma_expr_seq_view(exprs@);
    }
    if exprs.len() == 0 {
        let r = Ok(Evaluated::Value(ExpressionResult::Empty));
        proof {
            assert(exec_trace(ops, 0, true) =~= Seq::<CallRecord>::empty());
            assert(log_suffix(log0, conn.log()) =~= Seq::<CallRecord>::empty());
            assert(run_seq(exprs@, ss, Seq::<DNode>::empty()) == Some(
                EvalStep { tr: log_suffix(log0, conn.log()), out: outcome_of(r) },
            ));
        }
        return r;
    }
    let mut last: ExpressionResult = ExpressionResult::Empty;
    let ghost mut ds: Seq<DNode> = Seq::empty();
    proof {
        assert(exprs@.subrange(0, 0).len() == 0);
        assert(run_seq(exprs@.subrange(0, 0), ss, ds) == Some(
            EvalStep {
                tr: Seq::empty(),
                out: Outcome::Value(ExpressionResult::Empty),
            },
        ));
        assert(log_suffix(log0, conn.log()) =~= Seq::<CallRecord>::empty());
    }
    let mut i: usize = 0;
    while i < exprs.len()
        invariant
            i <= exprs@.len(),
            scopes_view(*env) == ss,
            log_grows_by_ops(log0, conn.log()),
            (all_write_queries(sv) && seq_resolves(ss, sv)) ==> conn.log() == log0 + exec_trace(
                ops,
                i as int,
                true,
            ),
            run_seq(exprs@.subrange(0, i as int), ss, ds) == Some(
                EvalStep {
                    tr: log_suffix(log0, conn.log()),
                    out: Outcome::Value(last),
                },
            ),
        decreases exprs@.len() - i,
    {
        proof {
            assert(decreases_to!(*exprs => exprs@));
            assert(decreases_to!(exprs@ => exprs@[i as int]));
            assert(decreases_to!(*exprs => exprs@[i as int]));
        }
        let ghost pre_log = conn.log();
        let ghost pre_step = EvalStep {
            tr: log_suffix(log0, pre_log),
            out: Outcome::Value(last),
        };
        let out = eval(conn, env, &exprs[i]);
        let ghost dch = choose|d: DNode|
            run(exprs@[i as int], ss, d) == Some(
                EvalStep { tr: log_suffix(pre_log, conn.log()), out: outcome_of(out) },
            );
        let ghost ch_step = EvalStep {
            tr: log_suffix(pre_log, conn.log()),
            out: outcome_of(out),
        };
        proof {
            lemma_suffix_compose(log0, pre_log, conn.log());
            if all_write_queries(sv) && seq_resolves(ss, sv) {
                assert(sv[i as int] == expr_view(exprs@[i as int]));
                assert(sv[i as int] matches ExprView::Query(DbQueryView::Write(_)));
                assert(resolve_op_v(ss, seq_write_op(sv, i as int)) is Some);
                assert(ops[i as int] == resolve_op_v(ss, seq_write_op(sv, i as int))->0);
            }
        }
        match out {
            Ok(Evaluated::Value(v)) => {
                proof {
                    if all_write_queries(sv) && seq_resolves(ss, sv) {
                        assert(conn.log() =~= log0 + exec_trace(ops, i as int + 1, true));
                    }
                    lemma_run_seq_snoc(
                        exprs@.subrange(0, i as int),
                        ss,
                        ds,
                        exprs@[i as int],
                        dch,
                        pre_step,
                        ch_step,
                    );
                    assert(exprs@.subrange(0, i as int).push(exprs@[i as int]) =~= exprs@.subrange(
                        0,
                        i as int + 1,
                    ));
                    ds = ds.push(dch);
                }
                last = v;
            },
            Ok(Evaluated::Early(v)) => {
                let r = Ok(Evaluated::Early(v));
                proof {
                    if all_write_queries(sv) && seq_resolves(ss, sv) {
                        assert(false);
                    }
                    lemma_run_seq_snoc_abort(
                        exprs@,
                        ss,
                        ds,
                        dch,
                        i as int,
                        pre_step,
                        ch_step,
                    );
                    assert(run_seq(exprs@, ss, ds.push(dch)) == Some(
                        EvalStep { tr: log_suffix(log0, conn.log()), out: outcome_of(r) },
                    ));
                }
                return r;
            },
            Err(e) => {
                let r = Err(e);
                proof {
                    if all_write_queries(sv) && seq_resolves(ss, sv) {
                        assert(conn.log() =~= log0 + exec_trace(ops, i as int + 1, false));
                        assert(1 <= i + 1 <= sv.len());
                    }
                    lemma_run_seq_snoc_abort(
                        exprs@,
                        ss,
                        ds,
                        dch,
                        i as int,
                        pre_step,
                        ch_step,
                    );
                    assert(run_seq(exprs@, ss, ds.push(dch)) == Some(
                        EvalStep { tr: log_suffix(log0, conn.log()), out: outcome_of(r) },
                    ));
                }
                return r;
            },
        }
        i += 1;
    }
    proof {
        assert(exprs@.subrange(0, exprs@.len() as int) =~= exprs@);
    }
    Ok(Evaluated::Value(last))
}

} // verus!

verus! {

// ---------------------------------------------------------------------------
// Plan well-formedness: every threaded name has a preceding binding.
// ---------------------------------------------------------------------------

/// The set of binding names a list of strings provides.
pub open spec fn names_set(s: Seq<String>) -> Set<Seq<char>> {
    Set::new(|n: Seq<char>| exists|i: int| 0 <= i < s.len() && (#[trigger] s[i])@ == n)
}

/// The bound-name set extended by a `Let`'s bindings.
pub open spec fn bound_with(bound: Set<Seq<char>>, bs: Seq<crate::expression::Binding>) -> Set<
    Seq<char>,
> {
    Set::new(
        |n: Seq<char>|
            bound.contains(n) || exists|i: int| 0 <= i < bs.len() && (#[trigger] bs[i]).name@ == n,
    )
}

/// The write operation's threaded arguments all name bound bindings.
pub open spec fn write_bound(op: WriteOp, bound: Set<Seq<char>>) -> bool {
    forall|i: int|
        0 <= i < op.args@.len() ==> ((#[trigger] op.args@[i]).1 matches WriteArg::Bound(n)
            ==> bound.contains(n@))
}

/// The plan never reads a name that no enclosing binding introduces: the
/// plan-well-formedness invariant the planner must maintain, checked before
/// execution.
pub open spec fn plan_bound(e: Expression, bound: Set<Seq<char>>) -> bool
    decreases e,
{
    match e {
        Expression::Sequence { seq } => plan_bound_seq(seq@, bound),
        Expression::Query { query } => match *query {
            DbQuery::Read(_) => true,
            DbQuery::Write(op) => write_bound(op, bound),
        },
        Expression::Let { bindings, expressions } => plan_bound_bindings(bindings@, bound)
            && plan_bound_seq(expressions@, bound_with(bound, bindings@)),
        Expression::Get { binding_name } => bound.contains(binding_name@),
        Expression::GetFirstNonEmpty { .. } => true,
        Expression::If { cond, then, else_ } => plan_bound_seq(then@, bound) && plan_bound_seq(
            else_@,
            bound,
        ),
        Expression::Return { .. } => true,
    }
}

pub open spec fn plan_bound_seq(s: Seq<Expression>, bound: Set<Seq<char>>) -> bool
    decreases s,
{
    if s.len() == 0 {
        true
    } else {
        plan_bound_seq(s.drop_last(), bound) && plan_bound(s.last(), bound)
    }
}

pub open spec fn plan_bound_bindings(s: Seq<crate::expression::Binding>, bound: Set<Seq<char>>) -> bool
    decreases s,
{
    if s.len() == 0 {
        true
    } else {
        plan_bound_bindings(s.drop_last(), bound) && plan_bound(s.last().expr, bound)
    }
}

/// Whether the list of bound names holds this one.
fn name_bound(bound: &Vec<String>, name: &String) -> (r: bool)
    ensures
        r == names_set(bound@).contains(name@),
{
    let mut i: usize = 0;
    while i < bound.len()
        invariant
            i <= bound@.len(),
            forall|j: int| 0 <= j < i ==> (#[trigger] bound@[j])@ != name@,
        decreases bound@.len() - i,
    {
        if bound[i] == *name {
            return true;
        }
        i += 1;
    }
    false
}

/// Checks the plan-well-formedness invariant under the given bound names;
/// answers `None` exactly when the plan is well formed, and an offending
/// name otherwise.
#[verifier::loop_isolation(false)]
pub fn check_plan_bound(expr: &Expression, bound: &mut Vec<String>) -> (r: Option<String>)
    ensures
        final(bound)@ == old(bound)@,
        r is None <==> plan_bound(*expr, names_set(old(bound)@)),
    decreases *expr,
{
    let ghost bset = names_set(bound@);
    match expr {
        Expression::Sequence { seq } => {
            proof {
                assert(decreases_to!(*expr => *seq));
            }
            check_plan_seq(seq, bound)
        },
        Expression::Query { query } => {
            match &**query {
                DbQuery::Read(_) => None,
                DbQuery::Write(op) => {
                    let mut i: usize = 0;
                    while i < op.args.len()
                        invariant
                            i <= op.args@.len(),
                            bound@ == old(bound)@,
                            forall|j: int|
                                0 <= j < i ==> ((#[trigger] op.args@[j]).1 matches WriteArg::Bound(
                                    n,
                                ) ==> bset.contains(n@)),
                        decreases op.args@.len() - i,
                    {
                        match &op.args[i].1 {
                            WriteArg::Bound(n) => {
                                if !name_bound(bound, n) {
                                    return Some(n.clone());
                                }
                            },
                            WriteArg::Value(_) => {},
                        }
                        i += 1;
                    }
                    None
                },
            }
        },
        Expression::Let { bindings, expressions } => {
            let mut i: usize = 0;
            while i < bindings.len()
                invariant
                    i <= bindings@.len(),
                    bound@ == old(bound)@,
                    plan_bound_bindings(bindings@.subrange(0, i as int), bset),
                decreases bindings@.len() - i,
            {
                proof {
                    assert(decreases_to!(*expr => *bindings));
                    assert(decreases_to!(*bindings => bindings@));
                    assert(decreases_to!(bindings@ => bindings@[i as int]));
                    assert(decreases_to!(bindings@[i as int] => bindings@[i as int].expr));
                    assert(decreases_to!(*expr => bindings@[i as int].expr));
                }
                match check_plan_bound(&bindings[i].expr, bound) {
                    Some(n) => {
                        proof {
                            lemma_plan_bound_bindings_prefix(bindings@, bset, i as int);
                        }
                        return Some(n);
                    },
                    None => {},
                }
                proof {
                    assert(bindings@.subrange(0, i as int + 1).drop_last() =~= bindings@.subrange(
                        0,
                        i as int,
                    ));
                    assert(bindings@.subrange(0, i as int + 1).last() == bindings@[i as int]);
                }
                i += 1;
            }
            proof {
                assert(bindings@.subrange(0, bindings@.len() as int) =~= bindings@);
            }
            let ghost pre_len = bound@.len();
            let mut i: usize = 0;
            while i < bindings.len()
                invariant
                    i <= bindings@.len(),
                    bound@.len() == old(bound)@.len() + i,
                    bound@.subrange(0, old(bound)@.len() as int) == old(bound)@,
                    forall|j: int|
                        0 <= j < i ==> (#[trigger] bound@[old(bound)@.len() + j])@
                            == bindings@[j].name@,
                decreases bindings@.len() - i,
            {
                bound.push(bindings[i].name.clone());
                i += 1;
            }
            proof {
                let m = old(bound)@.len() as int;
                assert forall|n: Seq<char>|
                    names_set(bound@).contains(n) == bound_with(bset, bindings@).contains(n) by {
                    if names_set(bound@).contains(n) {
                        let i = choose|i: int| 0 <= i < bound@.len() && (#[trigger] bound@[i])@ == n;
                        if i < m {
                            assert(bound@.subrange(0, m)[i] == bound@[i]);
                            assert(old(bound)@[i]@ == n);
                            assert(bset.contains(n));
                        } else {
                            assert(bound@[m + (i - m)]@ == bindings@[i - m].name@);
                            assert(bindings@[i - m].name@ == n);
                        }
                        assert(bound_with(bset, bindings@).contains(n));
                    }
                    if bound_with(bset, bindings@).contains(n) {
                        if bset.contains(n) {
                            let i = choose|i: int|
                                0 <= i < old(bound)@.len() && (#[trigger] old(bound)@[i])@ == n;
                            assert(bound@.subrange(0, m)[i] == bound@[i]);
                            assert(bound@[i]@ == n);
                            assert(names_set(bound@).contains(n));
                        } else {
                            let i = choose|i: int|
                                0 <= i < bindings@.len() && (#[trigger] bindings@[i]).name@ == n;
                            assert(bound@[m + i]@ == n);
                            assert(names_set(bound@).contains(n));
                        }
                    }
                }
                assert(names_set(bound@) =~= bound_with(bset, bindings@));
            }
            let inner = check_plan_seq(expressions, bound);
            let mut k: usize = 0;
            let ghost popped_from = bound@;
            while k < bindings.len()
                invariant
                    k <= bindings@.len(),
                    bound@ == popped_from.subrange(
                        0,
                        popped_from.len() - k,
                    ),
                    popped_from.len() == old(bound)@.len() + bindings@.len(),
                decreases bindings@.len() - k,
            {
                bound.pop();
                k += 1;
            }
            proof {
                assert(bound@ =~= old(bound)@);
            }
            inner
        },
        Expression::Get { binding_name } => {
            if name_bound(bound, binding_name) {
                None
            } else {
                Some(binding_name.clone())
            }
        },
        Expression::GetFirstNonEmpty { .. } => None,
        Expression::If { cond, then, else_ } => {
            proof {
                assert(decreases_to!(*expr => *then));
            }
            match check_plan_seq(then, bound) {
                Some(n) => Some(n),
                None => {
                    proof {
                        assert(decreases_to!(*expr => *else_));
                    }
                    check_plan_seq(else_, bound)
                },
            }
        },
        Expression::Return { .. } => None,
    }
}

/// A failed binding makes the whole binding list ill-bound.
proof fn lemma_plan_bound_bindings_prefix(
    s: Seq<crate::expression::Binding>,
    bound: Set<Seq<char>>,
    i: int,
)
    requires
        0 <= i < s.len(),
        !plan_bound(s[i].expr, bound),
    ensures
        !plan_bound_bindings(s, bound),
    decreases s.len(),
{
    if s.len() > 0 {
        if i == s.len() - 1 {
        } else {
            lemma_plan_bound_bindings_prefix(s.drop_last(), bound, i);
        }
    }
}

/// A failed element makes the whole list ill-bound.
proof fn lemma_plan_bound_seq_at(s: Seq<Expression>, bound: Set<Seq<char>>, i: int)
    requires
        0 <= i < s.len(),
        !plan_bound(s[i], bound),
    ensures
        !plan_bound_seq(s, bound),
    decreases s.len(),
{
    if s.len() > 0 {
        if i == s.len() - 1 {
        } else {
            lemma_plan_bound_seq_at(s.drop_last(), bound, i);
        }
    }
}

#[verifier::loop_isolation(false)]
fn check_plan_seq(exprs: &Vec<Expression>, bound: &mut Vec<String>) -> (r: Option<String>)
    ensures
        final(bound)@ == old(bound)@,
        r is None <==> plan_bound_seq(exprs@, names_set(old(bound)@)),
    decreases *exprs,
{
    let ghost bset = names_set(bound@);
    let mut i: usize = 0;
    while i < exprs.len()
        invariant
            i <= exprs@.len(),
            bound@ == old(bound)@,
            plan_bound_seq(exprs@.subrange(0, i as int), bset),
        decreases exprs@.len() - i,
    {
        proof {
            assert(decreases_to!(*exprs => exprs@));
            assert(decreases_to!(exprs@ => exprs@[i as int]));
            assert(decreases_to!(*exprs => exprs@[i as int]));
        }
        match check_plan_bound(&exprs[i], bound) {
            Some(n) => {
                proof {
                    lemma_plan_bound_seq_at(exprs@, bset, i as int);
                }
                return Some(n);
            },
            None => {},
        }
        proof {
            assert(exprs@.subrange(0, i as int + 1).drop_last() =~= exprs@.subrange(0, i as int));
            assert(exprs@.subrange(0, i as int + 1).last() == exprs@[i as int]);
        }
        i += 1;
    }
    proof {
        assert(exprs@.subrange(0, exprs@.len() as int) =~= exprs@);
    }
    None
}

/// Checks the whole plan with no outer bindings.
pub fn check_plan(expr: &Expression) -> (r: Option<String>)
    ensures
        r is None <==> plan_bound(*expr, Set::<Seq<char>>::empty()),
{
    let mut bound: Vec<String> = Vec::new();
    proof {
        assert(names_set(bound@) =~= Set::<Seq<char>>::empty());
    }
    check_plan_bound(expr, &mut bound)
}

} // verus!

verus! {

/// No successful commit stands anywhere in the appended records.
pub open spec fn no_commit_in(log: Seq<CallRecord>, from: int) -> bool {
    forall|i: int| from <= i < log.len() ==> !((#[trigger] log[i]) matches CallRecord::Commit { ok: true })
}

/// Evaluates one whole plan inside the active transaction.
///
/// The plan-well-formedness invariant is checked before any store I/O; an
/// ill-formed plan is rejected with an unbound name. On success the
/// transaction is committed; on any error it is rolled back. Either way the
/// appended log is store operations followed by exactly one transaction
/// boundary, and when the result is an error no successful commit stands
/// anywhere in it: no partial writes are ever committed.
pub fn execute_plan<C: Connector>(conn: &mut C, expr: &Expression) -> (r: Result<
    ExpressionResult,
    InterpreterError,
>)
    ensures
        final(conn).log().len() > old(conn).log().len(),
        forall|i: int|
            0 <= i < old(conn).log().len() ==> #[trigger] final(conn).log()[i] == old(
                conn,
            ).log()[i],
        forall|i: int|
            old(conn).log().len() <= i < final(conn).log().len() - 1 ==> is_op_record(
                #[trigger] final(conn).log()[i],
            ),
        r is Ok ==> final(conn).log().last() == (CallRecord::Commit { ok: true }),
        r is Err ==> (final(conn).log().last() is Rollback || final(conn).log().last() == (
        CallRecord::Commit { ok: false })),
        r is Err ==> no_commit_in(final(conn).log(), old(conn).log().len() as int),
        !plan_bound(*expr, Set::<Seq<char>>::empty()) <==> (r matches Err(e) && e is UnboundBinding),
        (expr_view(*expr) matches ExprView::Query(DbQueryView::Read(opv)) ==> (r matches Ok(res)
            ==> (res matches ExpressionResult::Records(rs) && rs_shape_ok(*rs, opv)))),
        (expr_view(*expr) matches ExprView::Query(DbQueryView::Read(opv)) ==> (r matches Err(e)
            ==> e is Store)),
        (expr_view(*expr) matches ExprView::Query(DbQueryView::Read(opv)) ==> exists|ok: bool|
            final(conn).log().len() == old(conn).log().len() + 2 && final(conn).log()[old(
                conn,
            ).log().len() as int] == (CallRecord::Query { op: opv, ok }) && (r is Ok ==> ok)),
        (expr_view(*expr) matches ExprView::Sequence(s) ==> ((plan_bound(
            *expr,
            Set::<Seq<char>>::empty(),
        ) && all_write_queries(s) && seq_resolves(Seq::empty(), s)) ==> (match r {
            Ok(_) => final(conn).log() == old(conn).log() + exec_trace(
                resolved_seq(Seq::empty(), s),
                s.len() as int,
                true,
            ).push(CallRecord::Commit { ok: true }),
            Err(e) => e is Store && ((exists|n: int, b: bool|
                1 <= n <= s.len() && final(conn).log() == old(conn).log() + exec_trace(
                    resolved_seq(Seq::empty(), s),
                    n,
                    false,
                ).push(CallRecord::Rollback { ok: b })) || final(conn).log() == old(conn).log()
                + exec_trace(resolved_seq(Seq::empty(), s), s.len() as int, true).push(
                CallRecord::Commit { ok: false },
            )),
        }))),
{
    match check_plan(expr) {
        Some(name) => {
            let _ignored = conn.rollback();
            return Err(InterpreterError::UnboundBinding(name));
        },
        None => {},
    }
    let mut env = Env::new();
    let ghost pre_log = conn.log();
    let out = eval(conn, &mut env, expr);
    match out {
        Ok(ev) => {
            let value = match ev {
                Evaluated::Value(v) => v,
                Evaluated::Early(v) => v,
            };
            match conn.commit() {
                Ok(_u) => Ok(value),
                Err(e) => Err(InterpreterError::Store(e)),
            }
        },
        Err(e) => {
            let _ignored = conn.rollback();
            Err(e)
        },
    }
}

} // verus!

verus! {

// ---------------------------------------------------------------------------
// Big-step semantics: what one evaluation means, as a relation between the
// node, the scope chain it starts from, the call records it appends, and
// what it answers. The relation leaves open exactly what the connector
// decides (each call's success and the returned rows); everything else —
// scoping, ordering, value flow, early return — is pinned.
// ---------------------------------------------------------------------------

/// What an evaluation answered.
pub enum Outcome {
    Value(ExpressionResult),
    Early(ExpressionResult),
    Failed(InterpreterError),
}

pub open spec fn outcome_of(r: Result<Evaluated, InterpreterError>) -> Outcome {
    match r {
        Ok(Evaluated::Value(v)) => Outcome::Value(v),
        Ok(Evaluated::Early(v)) => Outcome::Early(v),
        Err(e) => Outcome::Failed(e),
    }
}

/// The records one evaluation appended to the log.
pub open spec fn log_suffix(old_log: Seq<CallRecord>, new_log: Seq<CallRecord>) -> Seq<
    CallRecord,
> {
    new_log.skip(old_log.len() as int)
}

/// An eagerly-evaluated condition, read from the environment.
pub open spec fn cond_holds(ss: Seq<Seq<(String, ExpressionResult)>>, c: Condition) -> bool {
    match c {
        Condition::Const(b) => b,
        Condition::NonEmpty(n) => match env_lookup(ss, n@) {
            Some(v) => !result_is_empty(v),
            None => false,
        },
    }
}

/// A branch boundary catches an early return.
pub open spec fn catch_early(o: Outcome) -> Outcome {
    match o {
        Outcome::Early(v) => Outcome::Value(v),
        other => other,
    }
}

/// What evaluating a binding list produced: the one scope holding every
/// binding, or the early return or failure that aborted it.
pub enum BindingsOutcome {
    Scope(Seq<(String, ExpressionResult)>),
    EarlyOut(ExpressionResult),
    FailedOut(InterpreterError),
}

/// Appended records compose across two stretches of the log.
proof fn lemma_suffix_compose(l0: Seq<CallRecord>, l1: Seq<CallRecord>, l2: Seq<CallRecord>)
    requires
        l0.len() <= l1.len() <= l2.len(),
        forall|i: int| 0 <= i < l1.len() ==> #[trigger] l2[i] == l1[i],
    ensures
        log_suffix(l0, l2) == log_suffix(l0, l1) + log_suffix(l1, l2),
{
    assert(log_suffix(l0, l2) =~= log_suffix(l0, l1) + log_suffix(l1, l2));
}

} // verus!

verus! {

// ---------------------------------------------------------------------------
// The meaning of one evaluation, as a function of the node, the scope
// chain, and a derivation recording what the connector decided. Scoping,
// ordering, value flow and early return are all pinned; only the
// connector's answers (each call's success and its rows) live in the
// derivation.
// ---------------------------------------------------------------------------

/// The connector-dependent choices of one evaluation.
pub enum DNode {
    /// A sequence's children, one derivation per child actually evaluated.
    DList(Seq<DNode>),
    /// A successful read, already folded to the plan's shape.
    DReadOk(ExpressionResult),
    DReadErr(StoreError),
    /// A successful write's result value.
    DWriteOk(ExpressionResult),
    DWriteErr(StoreError),
    /// A node that decides without the connector.
    DPure,
    /// A failure whose message the code words freely.
    DFail(InterpreterError),
    /// A scope's binding derivations and its body's.
    DLet(Seq<DNode>, Seq<DNode>),
    /// The chosen branch's derivations.
    DIf(Seq<DNode>),
}

/// What one evaluation appended and answered.
pub struct EvalStep {
    pub tr: Seq<CallRecord>,
    pub out: Outcome,
}

/// What evaluating a binding list appended and produced.
pub struct BindStep {
    pub tr: Seq<CallRecord>,
    pub bout: BindingsOutcome,
}

/// Evaluation of one node under the given scope chain, following the
/// derivation; `None` when the derivation does not fit the node.
pub open spec fn run(e: Expression, ss: Seq<Seq<(String, ExpressionResult)>>, d: DNode) -> Option<
    EvalStep,
>
    decreases e, 0int,
{
    match e {
        Expression::Sequence { seq } => match d {
            DNode::DList(ds) => run_seq(seq@, ss, ds),
            _ => None,
        },
        Expression::Query { query } => match *query {
            DbQuery::Read(op) => match d {
                DNode::DReadOk(res) => if res matches ExpressionResult::Records(rs)
                    && rs_shape_ok(*rs, read_op_view(op)) {
                    Some(
                        EvalStep {
                            tr: seq![CallRecord::Query { op: read_op_view(op), ok: true }],
                            out: Outcome::Value(res),
                        },
                    )
                } else {
                    None
                },
                DNode::DReadErr(se) => Some(
                    EvalStep {
                        tr: seq![CallRecord::Query { op: read_op_view(op), ok: false }],
                        out: Outcome::Failed(InterpreterError::Store(se)),
                    },
                ),
                _ => None,
            },
            DbQuery::Write(op) => match resolve_op_v(ss, write_op_view(op)) {
                Some(rv) => match d {
                    DNode::DWriteOk(res) => Some(
                        EvalStep {
                            tr: seq![CallRecord::Execute { op: rv, ok: true }],
                            out: Outcome::Value(res),
                        },
                    ),
                    DNode::DWriteErr(se) => Some(
                        EvalStep {
                            tr: seq![CallRecord::Execute { op: rv, ok: false }],
                            out: Outcome::Failed(InterpreterError::Store(se)),
                        },
                    ),
                    _ => None,
                },
                None => match d {
                    DNode::DFail(err) => if !(err is Store) && !(err is UnboundBinding) {
                        Some(EvalStep { tr: Seq::empty(), out: Outcome::Failed(err) })
                    } else {
                        None
                    },
                    _ => None,
                },
            },
        },
        Expression::Let { bindings, expressions } => match d {
            DNode::DLet(bds, body_ds) => match run_bindings(bindings@, ss, bds) {
                Some(bstep) => match bstep.bout {
                    BindingsOutcome::Scope(scope) => match run_seq(
                        expressions@,
                        ss.push(scope),
                        body_ds,
                    ) {
                        Some(step2) => Some(
                            EvalStep { tr: bstep.tr + step2.tr, out: step2.out },
                        ),
                        None => None,
                    },
                    BindingsOutcome::EarlyOut(v) => Some(
                        EvalStep { tr: bstep.tr, out: Outcome::Early(v) },
                    ),
                    BindingsOutcome::FailedOut(err) => Some(
                        EvalStep { tr: bstep.tr, out: Outcome::Failed(err) },
                    ),
                },
                None => None,
            },
            _ => None,
        },
        Expression::Get { binding_name } => match d {
            DNode::DPure => Some(
                EvalStep {
                    tr: Seq::empty(),
                    out: match env_lookup(ss, binding_name@) {
                        Some(v) => Outcome::Value(v),
                        None => Outcome::Failed(InterpreterError::EnvVarNotFound(binding_name)),
                    },
                },
            ),
            _ => None,
        },
        Expression::GetFirstNonEmpty { binding_names } => match gfne_from(
            ss,
            crate::expression::names_view(binding_names@),
            0,
        ) {
            GfneOut::Found(v) => match d {
                DNode::DPure => Some(EvalStep { tr: Seq::empty(), out: Outcome::Value(v) }),
                _ => None,
            },
            GfneOut::Mismatch(nm) => match d {
                DNode::DFail(err) => if err matches InterpreterError::ShapeMismatch(m) && m@
                    == nm {
                    Some(EvalStep { tr: Seq::empty(), out: Outcome::Failed(err) })
                } else {
                    None
                },
                _ => None,
            },
            GfneOut::NotFound => match d {
                DNode::DFail(err) => if err is EnvVarNotFound {
                    Some(EvalStep { tr: Seq::empty(), out: Outcome::Failed(err) })
                } else {
                    None
                },
                _ => None,
            },
        },
        Expression::If { cond, then, else_ } => match d {
            DNode::DIf(ds) => match run_seq(
                if cond_holds(ss, cond) {
                    then@
                } else {
                    else_@
                },
                ss,
                ds,
            ) {
                Some(step) => Some(EvalStep { tr: step.tr, out: catch_early(step.out) }),
                None => None,
            },
            _ => None,
        },
        Expression::Return { result } => match d {
            DNode::DPure => Some(EvalStep { tr: Seq::empty(), out: Outcome::Early(*result) }),
            _ => None,
        },
    }
}

/// Strict left-to-right evaluation of a node list: the value is the last
/// node's; an early return or failure cuts the list off, with one
/// derivation per node actually evaluated and no records for the rest.
pub open spec fn run_seq(
    es: Seq<Expression>,
    ss: Seq<Seq<(String, ExpressionResult)>>,
    ds: Seq<DNode>,
) -> Option<EvalStep>
    decreases es, 1int,
{
    if es.len() == 0 {
        if ds.len() == 0 {
            Some(EvalStep { tr: Seq::empty(), out: Outcome::Value(ExpressionResult::Empty) })
        } else {
            None
        }
    } else if ds.len() == 0 {
        None
    } else {
        match run(es[0], ss, ds[0]) {
            Some(step1) => match step1.out {
                Outcome::Value(_) => if es.len() == 1 {
                    if ds.len() == 1 {
                        Some(step1)
                    } else {
                        None
                    }
                } else {
                    match run_seq(es.drop_first(), ss, ds.drop_first()) {
                        Some(rest) => Some(
                            EvalStep { tr: step1.tr + rest.tr, out: rest.out },
                        ),
                        None => None,
                    }
                },
                _ => if ds.len() == 1 {
                    Some(step1)
                } else {
                    None
                },
            },
            None => None,
        }
    }
}

/// Evaluation of a `Let`'s bindings, each under the enclosing scope only —
/// bindings do not see each other — collected in order into the one scope
/// the body will run under.
pub open spec fn run_bindings(
    bs: Seq<crate::expression::Binding>,
    ss: Seq<Seq<(String, ExpressionResult)>>,
    ds: Seq<DNode>,
) -> Option<BindStep>
    decreases bs, 1int,
{
    if bs.len() == 0 {
        if ds.len() == 0 {
            Some(
                BindStep {
                    tr: Seq::empty(),
                    bout: BindingsOutcome::Scope(Seq::<(String, ExpressionResult)>::empty()),
                },
            )
        } else {
            None
        }
    } else if ds.len() == 0 {
        None
    } else {
        match run(bs[0].expr, ss, ds[0]) {
            Some(step1) => match step1.out {
                Outcome::Value(v) => match run_bindings(bs.drop_first(), ss, ds.drop_first()) {
                    Some(rest) => match rest.bout {
                        BindingsOutcome::Scope(scope) => Some(
                            BindStep {
                                tr: step1.tr + rest.tr,
                                bout: BindingsOutcome::Scope(
                                    seq![(bs[0].name, v)] + scope,
                                ),
                            },
                        ),
                        _ => Some(BindStep { tr: step1.tr + rest.tr, bout: rest.bout }),
                    },
                    None => None,
                },
                Outcome::Early(v) => if ds.len() == 1 {
                    Some(BindStep { tr: step1.tr, bout: BindingsOutcome::EarlyOut(v) })
                } else {
                    None
                },
                Outcome::Failed(err) => if ds.len() == 1 {
                    Some(BindStep { tr: step1.tr, bout: BindingsOutcome::FailedOut(err) })
                } else {
                    None
                },
            },
            None => None,
        }
    }
}

} // verus!

verus! {

/// Extends an evaluated prefix that reached a value by one more node.
proof fn lemma_run_seq_snoc(
    es: Seq<Expression>,
    ss: Seq<Seq<(String, ExpressionResult)>>,
    ds: Seq<DNode>,
    e2: Expression,
    d2: DNode,
    step: EvalStep,
    step2: EvalStep,
)
    requires
        run_seq(es, ss, ds) == Some(step),
        step.out is Value,
        run(e2, ss, d2) == Some(step2),
    ensures
        run_seq(es.push(e2), ss, ds.push(d2)) == Some(
            EvalStep { tr: step.tr + step2.tr, out: step2.out },
        ),
    decreases es.len(),
{
    assert(es.push(e2).len() == es.len() + 1);
    if es.len() == 0 {
        assert(ds.len() == 0);
        assert(es.push(e2)[0] == e2);
        assert(ds.push(d2)[0] == d2);
        assert(step.tr + step2.tr =~= step2.tr);
    } else {
        let s1 = run(es[0], ss, ds[0])->0;
        assert(es.push(e2)[0] == es[0]);
        assert(ds.push(d2)[0] == ds[0]);
        if es.len() == 1 {
            assert(ds.len() == 1);
            assert(step == s1);
            assert(es.push(e2).drop_first() =~= seq![e2]);
            assert(ds.push(d2).drop_first() =~= seq![d2]);
            assert(seq![e2][0] == e2 && seq![d2][0] == d2);
            assert(run_seq(seq![e2], ss, seq![d2]) == Some(step2));
        } else {
            let rest = run_seq(es.drop_first(), ss, ds.drop_first())->0;
            assert(step.tr == s1.tr + rest.tr && step.out == rest.out);
            lemma_run_seq_snoc(es.drop_first(), ss, ds.drop_first(), e2, d2, rest, step2);
            assert(es.push(e2).drop_first() =~= es.drop_first().push(e2));
            assert(ds.push(d2).drop_first() =~= ds.drop_first().push(d2));
            assert(s1.tr + (rest.tr + step2.tr) =~= (s1.tr + rest.tr) + step2.tr);
        }
    }
}

/// An abort at position `i` decides the whole list: the nodes after it
/// contribute nothing.
proof fn lemma_run_seq_snoc_abort(
    es_full: Seq<Expression>,
    ss: Seq<Seq<(String, ExpressionResult)>>,
    ds: Seq<DNode>,
    d2: DNode,
    i: int,
    step: EvalStep,
    step2: EvalStep,
)
    requires
        0 <= i < es_full.len(),
        run_seq(es_full.subrange(0, i), ss, ds) == Some(step),
        step.out is Value,
        run(es_full[i], ss, d2) == Some(step2),
        step2.out is Early || step2.out is Failed,
    ensures
        run_seq(es_full, ss, ds.push(d2)) == Some(
            EvalStep { tr: step.tr + step2.tr, out: step2.out },
        ),
    decreases i,
{
    if i == 0 {
        assert(es_full.subrange(0, 0).len() == 0);
        assert(ds.len() == 0);
        assert(ds.push(d2)[0] == d2);
        assert(ds.push(d2).len() == 1);
        assert(step.tr + step2.tr =~= step2.tr);
        assert(es_full[0] == es_full[0]);
    } else {
        let pre = es_full.subrange(0, i);
        assert(pre[0] == es_full[0]);
        let s1 = run(pre[0], ss, ds[0])->0;
        assert(ds.push(d2)[0] == ds[0]);
        if i == 1 {
            assert(ds.len() == 1);
            assert(step == s1);
            assert(ds.push(d2).drop_first() =~= seq![d2]);
            assert(es_full.drop_first()[0] == es_full[1]);
            assert(seq![d2][0] == d2 && seq![d2].len() == 1);
            assert(run_seq(es_full.drop_first(), ss, seq![d2]) == Some(step2));
        } else {
            let prest = run_seq(pre.drop_first(), ss, ds.drop_first())->0;
            assert(step.tr == s1.tr + prest.tr && step.out == prest.out);
            assert(pre.drop_first() =~= es_full.drop_first().subrange(0, i - 1));
            assert(es_full.drop_first()[i - 1] == es_full[i]);
            lemma_run_seq_snoc_abort(
                es_full.drop_first(),
                ss,
                ds.drop_first(),
                d2,
                i - 1,
                prest,
                step2,
            );
            assert(ds.push(d2).drop_first() =~= ds.drop_first().push(d2));
            assert(s1.tr + (prest.tr + step2.tr) =~= (s1.tr + prest.tr) + step2.tr);
        }
    }
}

/// Extends an evaluated binding prefix by one more bound value.
proof fn lemma_run_bindings_snoc(
    bs: Seq<crate::expression::Binding>,
    ss: Seq<Seq<(String, ExpressionResult)>>,
    ds: Seq<DNode>,
    b2: crate::expression::Binding,
    d2: DNode,
    step: BindStep,
    step2: EvalStep,
)
    requires
        run_bindings(bs, ss, ds) == Some(step),
        step.bout is Scope,
        run(b2.expr, ss, d2) == Some(step2),
        step2.out is Value,
    ensures
        run_bindings(bs.push(b2), ss, ds.push(d2)) == Some(
            BindStep {
                tr: step.tr + step2.tr,
                bout: BindingsOutcome::Scope(
                    step.bout->Scope_0.push((b2.name, step2.out->Value_0)),
                ),
            },
        ),
    decreases bs.len(),
{
    assert(bs.push(b2).len() == bs.len() + 1);
    if bs.len() == 0 {
        assert(ds.len() == 0);
        assert(bs.push(b2)[0] == b2);
        assert(ds.push(d2)[0] == d2);
        assert(bs.push(b2).drop_first().len() == 0);
        assert(ds.push(d2).drop_first().len() == 0);
        assert(step.tr + step2.tr =~= step2.tr);
        assert(step2.tr + Seq::<CallRecord>::empty() =~= step2.tr);
        assert(step.bout->Scope_0.len() == 0);
        assert(seq![(b2.name, step2.out->Value_0)] + Seq::<(String, ExpressionResult)>::empty()
            =~= step.bout->Scope_0.push((b2.name, step2.out->Value_0)));
        assert(run_bindings(bs.push(b2).drop_first(), ss, ds.push(d2).drop_first()) == Some(
            BindStep {
                tr: Seq::<CallRecord>::empty(),
                bout: BindingsOutcome::Scope(Seq::<(String, ExpressionResult)>::empty()),
            },
        ));
    } else {
        let s1 = run(bs[0].expr, ss, ds[0])->0;
        assert(bs.push(b2)[0] == bs[0]);
        assert(ds.push(d2)[0] == ds[0]);
        let rest = run_bindings(bs.drop_first(), ss, ds.drop_first())->0;
        assert(rest.bout is Scope);
        assert(step.tr == s1.tr + rest.tr);
        assert(step.bout->Scope_0 == seq![(bs[0].name, s1.out->Value_0)] + rest.bout->Scope_0);
        lemma_run_bindings_snoc(bs.drop_first(), ss, ds.drop_first(), b2, d2, rest, step2);
        assert(bs.push(b2).drop_first() =~= bs.drop_first().push(b2));
        assert(ds.push(d2).drop_first() =~= ds.drop_first().push(d2));
        assert(s1.tr + (rest.tr + step2.tr) =~= (s1.tr + rest.tr) + step2.tr);
        assert(seq![(bs[0].name, s1.out->Value_0)] + rest.bout->Scope_0.push(
            (b2.name, step2.out->Value_0),
        ) =~= (seq![(bs[0].name, s1.out->Value_0)] + rest.bout->Scope_0).push(
            (b2.name, step2.out->Value_0),
        ));
    }
}

/// An aborting binding decides the whole binding list.
proof fn lemma_run_bindings_snoc_abort(
    bs_full: Seq<crate::expression::Binding>,
    ss: Seq<Seq<(String, ExpressionResult)>>,
    ds: Seq<DNode>,
    d2: DNode,
    i: int,
    step: BindStep,
    step2: EvalStep,
)
    requires
        0 <= i < bs_full.len(),
        run_bindings(bs_full.subrange(0, i), ss, ds) == Some(step),
        step.bout is Scope,
        run(bs_full[i].expr, ss, d2) == Some(step2),
        step2.out is Early || step2.out is Failed,
    ensures
        run_bindings(bs_full, ss, ds.push(d2)) == Some(
            BindStep {
                tr: step.tr + step2.tr,
                bout: match step2.out {
                    Outcome::Early(v) => BindingsOutcome::EarlyOut(v),
                    Outcome::Failed(err) => BindingsOutcome::FailedOut(err),
                    Outcome::Value(v) => BindingsOutcome::Scope(Seq::empty()),
                },
            },
        ),
    decreases i,
{
    if i == 0 {
        assert(bs_full.subrange(0, 0).len() == 0);
        assert(ds.len() == 0);
        assert(ds.push(d2)[0] == d2);
        assert(ds.push(d2).len() == 1);
        assert(step.tr + step2.tr =~= step2.tr);
    } else {
        let pre = bs_full.subrange(0, i);
        assert(pre[0] == bs_full[0]);
        let s1 = run(pre[0].expr, ss, ds[0])->0;
        assert(ds.push(d2)[0] == ds[0]);
        let prest = run_bindings(pre.drop_first(), ss, ds.drop_first())->0;
        assert(prest.bout is Scope);
        assert(step.tr == s1.tr + prest.tr);
        assert(pre.drop_first() =~= bs_full.drop_first().subrange(0, i - 1));
        assert(bs_full.drop_first()[i - 1] == bs_full[i]);
        lemma_run_bindings_snoc_abort(
            bs_full.drop_first(),
            ss,
            ds.drop_first(),
            d2,
            i - 1,
            prest,
            step2,
        );
        assert(ds.push(d2).drop_first() =~= ds.drop_first().push(d2));
        assert(s1.tr + (prest.tr + step2.tr) =~= (s1.tr + prest.tr) + step2.tr);
    }
}

} // verus!
