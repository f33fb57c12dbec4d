//! Execution-plan nodes: the interpreter's instruction set.
//!
//! A plan is a tree of typed nodes for strict sequencing, scoped bindings,
//! pure lookups, eager conditionals, early return, and leaf store
//! operations — the only nodes that reach the connector.

use crate::record::ExpressionResult;
use crate::schema::ModelId;
use crate::value::{arg_obj_view, ArgVal, ArgumentValue};
use vstd::prelude::*;

verus! {

/// A fully-resolved read operation: which model, which scalar fields, and
/// which nested relation reads to fold below it.
#[derive(Debug, PartialEq)]
pub struct ReadOp {
    pub model: ModelId,
    /// The result is keyed by this name in the output.
    pub name: String,
    pub alias: Option<String>,
    pub args: Vec<(String, ArgumentValue)>,
    /// Names of the scalar fields to return, in order.
    pub fields: Vec<String>,
    /// Nested relation reads, one per relation selection.
    pub nested: Vec<ReadOp>,
}

/// What a write operation does at the store.
#[derive(Clone, Copy, Debug, PartialEq, Eq, Structural)]
pub enum WriteKind {
    CreateRecord,
    UpdateRecord,
    DeleteRecord,
    /// Insert one row into a linking table.
    LinkRecords,
}

/// An argument of a write operation: a concrete value, or a value to be
/// looked up in the environment when the operation is issued.
#[derive(Debug, PartialEq)]
pub enum WriteArg {
    Value(ArgumentValue),
    /// Threaded from an enclosing binding, typically a generated id.
    Bound(String),
}

/// A fully-resolved write operation.
#[derive(Debug, PartialEq)]
pub struct WriteOp {
    pub model: ModelId,
    pub kind: WriteKind,
    /// The result is keyed by this name in the output.
    pub name: String,
    /// Name of the field under which a created record's id is reported.
    pub id_field: String,
    pub args: Vec<(String, WriteArg)>,
}

/// The one leaf that performs store I/O.
#[derive(Debug, PartialEq)]
pub enum DbQuery {
    Read(ReadOp),
    Write(WriteOp),
}

/// An already-available condition, evaluated eagerly before one branch of a
/// conditional runs.
#[derive(Debug, PartialEq)]
pub enum Condition {
    Const(bool),
    /// Whether the named binding holds a non-empty value.
    NonEmpty(String),
}

/// One node of the execution plan.
#[derive(Debug, PartialEq)]
pub enum Expression {
    /// Strict left-to-right execution; its value is its last child's.
    Sequence { seq: Vec<Expression> },
    /// A leaf store operation.
    Query { query: Box<DbQuery> },
    /// Bindings evaluated under the enclosing scope, then one new scope
    /// holding all of them over the body.
    Let { bindings: Vec<Binding>, expressions: Vec<Expression> },
    /// Pure lookup of one binding.
    Get { binding_name: String },
    /// The first named binding, in order, whose value is non-empty.
    GetFirstNonEmpty { binding_names: Vec<String> },
    /// Exactly one branch runs, picked by the eagerly-evaluated condition.
    If { cond: Condition, then: Vec<Expression>, else_: Vec<Expression> },
    /// Terminates the enclosing sequence early with the given value.
    Return { result: Box<ExpressionResult> },
}

#[derive(Debug, PartialEq)]
pub struct Binding {
    pub name: String,
    pub expr: Expression,
}

// ---------------------------------------------------------------------------
// Mathematical shapes of plans, for stating structural equality of plans.
// ---------------------------------------------------------------------------

pub struct ReadOpView {
    pub model: ModelId,
    pub name: Seq<char>,
    pub alias: Option<Seq<char>>,
    pub args: Seq<(Seq<char>, ArgVal)>,
    pub fields: Seq<Seq<char>>,
    pub nested: Seq<ReadOpView>,
}

pub struct WriteOpView {
    pub model: ModelId,
    pub kind: WriteKind,
    pub name: Seq<char>,
    pub id_field: Seq<char>,
    pub args: Seq<(Seq<char>, WriteArgView)>,
}

pub enum WriteArgView {
    Value(ArgVal),
    Bound(Seq<char>),
}

pub enum DbQueryView {
    Read(ReadOpView),
    Write(WriteOpView),
}

pub enum CondView {
    Const(bool),
    NonEmpty(Seq<char>),
}

pub enum ExprView {
    Sequence(Seq<ExprView>),
    Query(DbQueryView),
    Let(Seq<(Seq<char>, ExprView)>, Seq<ExprView>),
    Get(Seq<char>),
    GetFirstNonEmpty(Seq<Seq<char>>),
    If(CondView, Seq<ExprView>, Seq<ExprView>),
    Return(ExpressionResult),
}

/// View of a list of names.
pub open spec fn names_view(s: Seq<String>) -> Seq<Seq<char>> {
    Seq::new(s.len(), |i: int| s[i]@)
}

pub open spec fn read_op_view(op: ReadOp) -> ReadOpView
    decreases op,
{
    ReadOpView {
        model: op.model,
        name: op.name@,
        alias: match op.alias {
            Some(a) => Some(a@),
            None => None,
        },
        args: arg_obj_view(op.args@),
        fields: names_view(op.fields@),
        nested: read_seq_view(op.nested@),
    }
}

pub open spec fn read_seq_view(s: Seq<ReadOp>) -> Seq<ReadOpView>
    decreases s,
{
    if s.len() == 0 {
        Seq::empty()
    } else {
        read_seq_view(s.drop_last()).push(read_op_view(s.last()))
    }
}

pub broadcast proof fn lemma_read_seq_view(s: Seq<ReadOp>)
    ensures
        (#[trigger] read_seq_view(s)).len() == s.len(),
        forall|i: int| 0 <= i < s.len() ==> read_seq_view(s)[i] == read_op_view(#[trigger] s[i]),
    decreases s,
{
    if s.len() > 0 {
        lemma_read_seq_view(s.drop_last());
        assert forall|i: int| 0 <= i < s.len() implies read_seq_view(s)[i] == read_op_view(
            #[trigger] s[i],
        ) by {
            if i < s.len() - 1 {
                assert(s.drop_last()[i] == s[i]);
            } else {
                assert(s.last() == s[i]);
            }
        }
    }
}

pub open spec fn write_arg_view(a: WriteArg) -> WriteArgView {
    match a {
        WriteArg::Value(v) => WriteArgView::Value(crate::value::arg_view(v)),
        WriteArg::Bound(n) => WriteArgView::Bound(n@),
    }
}

pub open spec fn write_args_view(s: Seq<(String, WriteArg)>) -> Seq<(Seq<char>, WriteArgView)> {
    Seq::new(s.len(), |i: int| (s[i].0@, write_arg_view(s[i].1)))
}

pub open spec fn write_op_view(op: WriteOp) -> WriteOpView {
    WriteOpView {
        model: op.model,
        kind: op.kind,
        name: op.name@,
        id_field: op.id_field@,
        args: write_args_view(op.args@),
    }
}

pub open spec fn db_query_view(q: DbQuery) -> DbQueryView {
    match q {
        DbQuery::Read(op) => DbQueryView::Read(read_op_view(op)),
        DbQuery::Write(op) => DbQueryView::Write(write_op_view(op)),
    }
}

pub open spec fn cond_view(c: Condition) -> CondView {
    match c {
        Condition::Const(b) => CondView::Const(b),
        Condition::NonEmpty(n) => CondView::NonEmpty(n@),
    }
}

pub open spec fn expr_view(e: Expression) -> ExprView
    decreases e,
{
    match e {
        Expression::Sequence { seq } => ExprView::Sequence(expr_seq_view(seq@)),
        Expression::Query { query } => ExprView::Query(db_query_view(*query)),
        Expression::Let { bindings, expressions } => ExprView::Let(
            binding_seq_view(bindings@),
            expr_seq_view(expressions@),
        ),
        Expression::Get { binding_name } => ExprView::Get(binding_name@),
        Expression::GetFirstNonEmpty { binding_names } => ExprView::GetFirstNonEmpty(
            names_view(binding_names@),
        ),
        Expression::If { cond, then, else_ } => ExprView::If(
            cond_view(cond),
            expr_seq_view(then@),
            expr_seq_view(else_@),
        ),
        Expression::Return { result } => ExprView::Return(*result),
    }
}

pub open spec fn expr_seq_view(s: Seq<Expression>) -> Seq<ExprView>
    decreases s,
{
    if s.len() == 0 {
        Seq::empty()
    } else {
        expr_seq_view(s.drop_last()).push(expr_view(s.last()))
    }
}

pub open spec fn binding_seq_view(s: Seq<Binding>) -> Seq<(Seq<char>, ExprView)>
    decreases s,
{
    if s.len() == 0 {
        Seq::empty()
    } else {
        binding_seq_view(s.drop_last()).push((s.last().name@, expr_view(s.last().expr)))
    }
}

pub broadcast proof fn lemma_expr_seq_view(s: Seq<Expression>)
    ensures
        (#[trigger] expr_seq_view(s)).len() == s.len(),
        forall|i: int| 0 <= i < s.len() ==> expr_seq_view(s)[i] == expr_view(#[trigger] s[i]),
    decreases s,
{
    if s.len() > 0 {
        lemma_expr_seq_view(s.drop_last());
        assert forall|i: int| 0 <= i < s.len() implies expr_seq_view(s)[i] == expr_view(
            #[trigger] s[i],
        ) by {
            if i < s.len() - 1 {
                assert(s.drop_last()[i] == s[i]);
            } else {
                assert(s.last() == s[i]);
            }
        }
    }
}

pub broadcast proof fn lemma_binding_seq_view(s: Seq<Binding>)
    ensures
        (#[trigger] binding_seq_view(s)).len() == s.len(),
        forall|i: int|
            0 <= i < s.len() ==> binding_seq_view(s)[i] == ((#[trigger] s[i]).name@, expr_view(
                s[i].expr,
            )),
    decreases s,
{
    if s.len() > 0 {
        lemma_binding_seq_view(s.drop_last());
        assert forall|i: int| 0 <= i < s.len() implies binding_seq_view(s)[i] == ((
        #[trigger] s[i]).name@, expr_view(s[i].expr)) by {
            if i < s.len() - 1 {
                assert(s.drop_last()[i] == s[i]);
            } else {
                assert(s.last() == s[i]);
            }
        }
    }
}

} // verus!
