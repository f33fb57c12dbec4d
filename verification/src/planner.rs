//! The query planner: compiles one typed operation against the schema into
//! an execution plan.
//!
//! Reads compile into one join-shaped leaf read. Nested creates are
//! linearized by foreign-key direction: a child holding the foreign key is
//! created after its parent, threading the parent's generated id through a
//! binding; a parent holding the foreign key is created after the child it
//! references, threading the child's id the same way. Every threaded name
//! is introduced by an enclosing binding — the plan-well-formedness
//! invariant the interpreter checks before executing.

use crate::cursor::{model_in_range, InternalDataModel};
use crate::expression::{
    expr_view, read_op_view, Binding, DbQuery, DbQueryView, Expression, ExprView, ReadOp,
    ReadOpView, WriteArg, WriteKind, WriteOp,
};
use crate::field::{find_field_in_model, RelationField};
use crate::schema::FieldDef;
use crate::interpreter::{bound_with, plan_bound, plan_bound_bindings, plan_bound_seq};
use crate::operation::{sel_seq_view, sel_view, Operation, Selection, SelView};
use crate::query_schema::{QuerySchema, QueryTag};
use crate::schema::{FieldId, ModelId};
use crate::value::ArgumentValue;
use vstd::prelude::*;
use vstd::string::StringExecFns;

verus! {

/// A request the planner cannot compile.
#[derive(Debug, PartialEq)]
pub enum PlannerError {
    UnknownTopLevelField(String),
    UnknownField(String),
    InvalidNestedWrite(String),
    /// A write the planner does not compile yet; rejected rather than
    /// silently compiled to the wrong operation.
    UnsupportedWrite(String),
}

// ---------------------------------------------------------------------------
// Read planning.
// ---------------------------------------------------------------------------

/// The compiled read asks for exactly the selection's shape: one scalar
/// column per childless nested selection and one nested read per nested
/// selection with children, each in order, arguments carried along.
pub open spec fn read_matches_sel(opv: ReadOpView, sv: SelView) -> bool
    decreases sv, 1int,
{
    &&& opv.name == sv.name
    &&& opv.args == sv.args
    &&& opv.fields == scalar_names(sv.nested)
    &&& reads_match_rels(opv.nested, sv.nested)
}

/// Pairs the nested reads, in order, with the nested selections that have
/// children.
pub open spec fn reads_match_rels(ops: Seq<ReadOpView>, nested: Seq<SelView>) -> bool
    decreases nested, 0int,
{
    if nested.len() == 0 {
        ops.len() == 0
    } else if nested.last().nested.len() > 0 {
        ops.len() > 0 && reads_match_rels(ops.drop_last(), nested.drop_last())
            && read_matches_sel(ops.last(), nested.last())
    } else {
        reads_match_rels(ops, nested.drop_last())
    }
}

/// Names of the childless nested selections, in order.
pub open spec fn scalar_names(nested: Seq<SelView>) -> Seq<Seq<char>>
    decreases nested,
{
    if nested.len() == 0 {
        Seq::empty()
    } else {
        scalar_names(nested.drop_last()) + (
        if nested.last().nested.len() == 0 {
            seq![nested.last().name]
        } else {
            Seq::empty()
        })
    }
}

/// Clones an argument list, preserving its shape.
fn clone_arguments(args: &Vec<(String, ArgumentValue)>) -> (r: Vec<(String, ArgumentValue)>)
    ensures
        crate::value::arg_obj_view(r@) == crate::value::arg_obj_view(args@),
{
    let mut out: Vec<(String, ArgumentValue)> = Vec::new();
    let mut i: usize = 0;
    while i < args.len()
        invariant
            i <= args@.len(),
            out@.len() == i,
            forall|j: int|
                0 <= j < i ==> (#[trigger] out@[j]).0@ == args@[j].0@ && crate::value::arg_view(
                    out@[j].1,
                ) == crate::value::arg_view(args@[j].1),
        decreases args@.len() - i,
    {
        out.push((args[i].0.clone(), args[i].1.clone()));
        i += 1;
    }
    proof {
        crate::value::lemma_arg_obj_view(out@);
        crate::value::lemma_arg_obj_view(args@);
        assert forall|j: int|
            0 <= j < out@.len() implies crate::value::arg_obj_view(out@)[j]
            == crate::value::arg_obj_view(args@)[j] by {
            assert(out@[j].0@ == args@[j].0@ && crate::value::arg_view(out@[j].1)
                == crate::value::arg_view(args@[j].1));
        }
        assert(crate::value::arg_obj_view(out@) =~= crate::value::arg_obj_view(args@));
    }
    out
}

/// Compiles one read selection, joining nested relation selections below
/// their parent.
#[verifier::loop_isolation(false)]
pub fn plan_read_selection(dm: &InternalDataModel, model: ModelId, sel: &Selection) -> (r: ReadOp)
    requires
        dm.wf(),
        model_in_range(*dm, model),
    ensures
        r.model == model,
        read_matches_sel(read_op_view(r), sel_view(*sel)),
    decreases *sel,
{
    let ghost sv = sel_view(*sel);
    proof {
        crate::operation::lemma_sel_seq_view(sel.nested_selections@);
    }
    let name = sel.name.clone();
    let alias: Option<String> = match &sel.alias {
        Some(a) => Some(a.clone()),
        None => None,
    };
    let args = clone_arguments(&sel.arguments);
    let mut fields: Vec<String> = Vec::new();
    let mut nested: Vec<ReadOp> = Vec::new();
    let mut i: usize = 0;
    while i < sel.nested_selections.len()
        invariant
            i <= sel.nested_selections@.len(),
            crate::expression::names_view(fields@) == scalar_names(
                sel_seq_view(sel.nested_selections@).subrange(0, i as int),
            ),
            reads_match_rels(
                crate::expression::read_seq_view(nested@),
                sel_seq_view(sel.nested_selections@).subrange(0, i as int),
            ),
        decreases sel.nested_selections@.len() - i,
    {
        let ghost svs = sel_seq_view(sel.nested_selections@);
        proof {
            assert(svs.subrange(0, i as int + 1).drop_last() =~= svs.subrange(0, i as int));
            assert(svs.subrange(0, i as int + 1).last() == svs[i as int]);
        }
        let child = &sel.nested_selections[i];
        if child.nested_selections.len() == 0 {
            let ghost pre_fields = fields@;
            fields.push(child.name.clone());
            proof {
                assert(crate::expression::names_view(fields@) =~= crate::expression::names_view(
                    pre_fields,
                ).push(child.name@));
                assert(crate::expression::names_view(fields@) =~= scalar_names(
                    svs.subrange(0, i as int + 1),
                ));
            }
        } else {
            // A nested selection with children reads a relation; the child
            // read runs against the related model when the name resolves to
            // a relation field, and against the same model otherwise.
            let mut child_model: ModelId = model;
            match find_field_in_model(dm, model, &child.name) {
                Some(fid) => {
                    if fid.0 < dm.schema.models[model.0].fields.len() {
                        match &dm.schema.models[model.0].fields[fid.0] {
                            FieldDef::Relation(_) => {
                                let rfh = RelationField(
                                    crate::cursor::Cursor { id: (model, fid), dm: dm.clone() },
                                );
                                child_model = rfh.related_model().id;
                            },
                            FieldDef::Scalar(_) => {},
                        }
                    }
                },
                None => {},
            }
            proof {
                assert(decreases_to!(*sel => sel.nested_selections));
                assert(decreases_to!(sel.nested_selections => sel.nested_selections@));
                assert(decreases_to!(sel.nested_selections@ => sel.nested_selections@[i as int]));
                assert(decreases_to!(*sel => sel.nested_selections@[i as int]));
            }
            let ghost pre_nested = nested@;
            let sub = plan_read_selection(dm, child_model, child);
            nested.push(sub);
            proof {
                crate::expression::lemma_read_seq_view(nested@);
                crate::expression::lemma_read_seq_view(pre_nested);
                assert(nested@.drop_last() =~= pre_nested);
                assert(crate::expression::read_seq_view(nested@)
                    =~= crate::expression::read_seq_view(pre_nested).push(
                    read_op_view(nested@.last()),
                ));
                assert(crate::expression::read_seq_view(nested@).drop_last()
                    =~= crate::expression::read_seq_view(pre_nested));
            }
        }
        i += 1;
    }
    proof {
        let svs = sel_seq_view(sel.nested_selections@);
        assert(svs.subrange(0, svs.len() as int) =~= svs);
    }
    ReadOp { model, name, alias, args, fields, nested }
}

} // verus!

verus! {

// ---------------------------------------------------------------------------
// Write planning: nested creates linearized by foreign-key direction.
// ---------------------------------------------------------------------------

/// A plan bound under some names stays bound under more names.
proof fn lemma_plan_bound_mono(e: Expression, b1: Set<Seq<char>>, b2: Set<Seq<char>>)
    requires
        plan_bound(e, b1),
        b1.subset_of(b2),
    ensures
        plan_bound(e, b2),
    decreases e, 2int,
{
    match e {
        Expression::Sequence { seq } => {
            lemma_plan_bound_seq_mono(seq@, b1, b2);
        },
        Expression::Query { .. } => {},
        Expression::Let { bindings, expressions } => {
            lemma_plan_bound_bindings_mono(bindings@, b1, b2);
            assert(bound_with(b1, bindings@).subset_of(bound_with(b2, bindings@)));
            lemma_plan_bound_seq_mono(expressions@, bound_with(b1, bindings@), bound_with(b2, bindings@));
        },
        Expression::Get { .. } => {},
        Expression::GetFirstNonEmpty { .. } => {},
        Expression::If { cond, then, else_ } => {
            lemma_plan_bound_seq_mono(then@, b1, b2);
            lemma_plan_bound_seq_mono(else_@, b1, b2);
        },
        Expression::Return { .. } => {},
    }
}

proof fn lemma_plan_bound_seq_mono(s: Seq<Expression>, b1: Set<Seq<char>>, b2: Set<Seq<char>>)
    requires
        plan_bound_seq(s, b1),
        b1.subset_of(b2),
    ensures
        plan_bound_seq(s, b2),
    decreases s, 1int,
{
    if s.len() > 0 {
        lemma_plan_bound_seq_mono(s.drop_last(), b1, b2);
        lemma_plan_bound_mono(s.last(), b1, b2);
    }
}

proof fn lemma_plan_bound_bindings_mono(s: Seq<Binding>, b1: Set<Seq<char>>, b2: Set<Seq<char>>)
    requires
        plan_bound_bindings(s, b1),
        b1.subset_of(b2),
    ensures
        plan_bound_bindings(s, b2),
    decreases s, 1int,
{
    if s.len() > 0 {
        lemma_plan_bound_bindings_mono(s.drop_last(), b1, b2);
        lemma_plan_bound_mono(s.last().expr, b1, b2);
    }
}

/// The binding names a threaded argument may reference.
pub open spec fn extra_set(extra: Option<(String, String)>) -> Set<Seq<char>> {
    match extra {
        Some(p) => Set::<Seq<char>>::empty().insert(p.1@),
        None => Set::<Seq<char>>::empty(),
    }
}

/// The field name under which a created record's id is reported: the
/// single-field primary key when the model has one, the conventional name
/// otherwise.
fn primary_id_field_name(dm: &InternalDataModel, model: ModelId) -> (r: String)
    requires
        dm.wf(),
        model_in_range(*dm, model),
{
    let m = &dm.schema.models[model.0];
    let mut i: usize = 0;
    while i < m.fields.len()
        invariant
            i <= m.fields@.len(),
        decreases m.fields@.len() - i,
    {
        match &m.fields[i] {
            FieldDef::Scalar(sf) => {
                if sf.is_single_pk {
                    return sf.name.clone();
                }
            },
            FieldDef::Relation(_) => {},
        }
        i += 1;
    }
    String::from_str("id")
}

} // verus!

verus! {

// ---------------------------------------------------------------------------
// The shape of compiled creates: what the write planner promises to emit.
// ---------------------------------------------------------------------------

/// The one leaf that creates the record, threading the caller's binding
/// under the caller's foreign-key field when one is handed down.
pub open spec fn create_leaf(e: Expression, model: ModelId, extra: Option<(String, String)>) -> bool {
    e matches Expression::Query { query } && (*query matches DbQuery::Write(op) && op.model
        == model && op.kind == WriteKind::CreateRecord && (match extra {
        Some(p) => exists|j: int|
            0 <= j < op.args@.len() && #[trigger] op.args@[j] == (p.0, WriteArg::Bound(p.1)),
        None => true,
    }))
}

/// The record's own create and its dependent children: either the plain
/// leaf, or the leaf bound under one name, followed by the children that
/// reference the record — each a well-bound plan over that one name — with
/// the bound id as the overall value.
pub open spec fn create_core_shape(
    e: Expression,
    model: ModelId,
    extra: Option<(String, String)>,
) -> bool {
    ||| create_leaf(e, model, extra)
    ||| (e matches Expression::Let { bindings, expressions } && bindings@.len() == 1
        && create_leaf(bindings@[0].expr, model, extra) && expressions@.len() >= 1 && (
    expressions@.last() matches Expression::Get { binding_name } && binding_name
        == bindings@[0].name) && (forall|k: int|
        0 <= k < expressions@.len() - 1 ==> plan_bound(
            #[trigger] expressions@[k],
            Set::<Seq<char>>::empty().insert(bindings@[0].name@),
        )))
}

/// A compiled create: child-first bindings — each well bound on its own —
/// wrapped around the record's own create and its dependent children.
pub open spec fn create_plan_shape(
    e: Expression,
    model: ModelId,
    extra: Option<(String, String)>,
) -> bool {
    ||| create_core_shape(e, model, extra)
    ||| (e matches Expression::Let { bindings, expressions } && expressions@.len() == 1
        && create_core_shape(expressions@[0], model, extra) && plan_bound_bindings(
        bindings@,
        extra_set(extra),
    ))
}

/// Witness for the recursive shape of one compiled create: the model the
/// record is created on, the shapes of its child-first bindings, and — when
/// the record's id is bound for dependents — the foreign-key field and
/// shape of each dependent child.
pub struct CreateShape {
    pub model: ModelId,
    pub pre: Seq<CreateShape>,
    pub deps: Option<Seq<(String, CreateShape)>>,
}

/// A compiled create as the witness describes it: child-first bindings
/// wrapped around the record's own create and its dependents.
pub open spec fn shaped_create(e: Expression, extra: Option<(String, String)>, w: CreateShape) -> bool
    decreases e, 2int,
{
    if w.pre.len() == 0 {
        shaped_core(e, extra, w.model, w.deps)
    } else {
        e matches Expression::Let { bindings, expressions } && expressions@.len() == 1
            && shaped_core(expressions@[0], extra, w.model, w.deps) && shaped_pre(
            bindings@,
            w.pre,
        )
    }
}

/// Each child-first binding is itself a compiled create the record
/// references.
pub open spec fn shaped_pre(bs: Seq<Binding>, ws: Seq<CreateShape>) -> bool
    decreases bs, 3int,
{
    if bs.len() == 0 {
        ws.len() == 0
    } else {
        ws.len() == bs.len() && shaped_create(bs[0].expr, None, ws[0]) && shaped_pre(
            bs.drop_first(),
            ws.drop_first(),
        )
    }
}

/// The record's own create: a plain leaf, or the leaf bound under one name
/// with each dependent child threading that name under its foreign-key
/// field, and the bound id as the overall value.
pub open spec fn shaped_core(
    e: Expression,
    extra: Option<(String, String)>,
    model: ModelId,
    deps: Option<Seq<(String, CreateShape)>>,
) -> bool
    decreases e, 1int,
{
    match deps {
        None => create_leaf(e, model, extra),
        Some(ds) => e matches Expression::Let { bindings, expressions } && bindings@.len() == 1
            && create_leaf(bindings@[0].expr, model, extra) && expressions@.len() == ds.len()
            + 1 && (expressions@.last() matches Expression::Get { binding_name } && binding_name
            == bindings@[0].name) && shaped_deps(expressions@, bindings@[0].name, ds),
    }
}

/// Each dependent child, in order, is a compiled create threading the
/// record's binding under its own foreign-key field.
pub open spec fn shaped_deps(
    body: Seq<Expression>,
    pb: String,
    ds: Seq<(String, CreateShape)>,
) -> bool
    decreases body, 0int,
{
    if ds.len() == 0 {
        true
    } else {
        body.len() > 0 && shaped_create(body[0], Some((ds[0].0, pb)), ds[0].1) && shaped_deps(
            body.drop_first(),
            pb,
            ds.drop_first(),
        )
    }
}

/// Extends a shaped binding list by one more shaped binding.
proof fn lemma_shaped_pre_snoc(
    bs: Seq<Binding>,
    ws: Seq<CreateShape>,
    b2: Binding,
    w2: CreateShape,
)
    requires
        shaped_pre(bs, ws),
        shaped_create(b2.expr, None, w2),
    ensures
        shaped_pre(bs.push(b2), ws.push(w2)),
    decreases bs.len(),
{
    if bs.len() == 0 {
        assert(bs.push(b2)[0] == b2);
        assert(ws.push(w2)[0] == w2);
        assert(bs.push(b2).drop_first().len() == 0);
        assert(ws.push(w2).drop_first().len() == 0);
        assert(shaped_pre(bs.push(b2).drop_first(), ws.push(w2).drop_first()));
    } else {
        lemma_shaped_pre_snoc(bs.drop_first(), ws.drop_first(), b2, w2);
        assert(bs.push(b2)[0] == bs[0]);
        assert(ws.push(w2)[0] == ws[0]);
        assert(bs.push(b2).drop_first() =~= bs.drop_first().push(b2));
        assert(ws.push(w2).drop_first() =~= ws.drop_first().push(w2));
    }
}

/// Extends a shaped dependent list by one more shaped child.
proof fn lemma_shaped_deps_snoc(
    body: Seq<Expression>,
    pb: String,
    ds: Seq<(String, CreateShape)>,
    e2: Expression,
    f2: String,
    w2: CreateShape,
)
    requires
        body.len() == ds.len(),
        shaped_deps(body, pb, ds),
        shaped_create(e2, Some((f2, pb)), w2),
    ensures
        shaped_deps(body.push(e2), pb, ds.push((f2, w2))),
    decreases ds.len(),
{
    if ds.len() == 0 {
        assert(body.push(e2)[0] == e2);
        assert(ds.push((f2, w2))[0] == (f2, w2));
        assert(ds.push((f2, w2)).drop_first().len() == 0);
        assert(shaped_deps(body.push(e2).drop_first(), pb, ds.push((f2, w2)).drop_first()));
    } else {
        lemma_shaped_deps_snoc(body.drop_first(), pb, ds.drop_first(), e2, f2, w2);
        assert(body.push(e2)[0] == body[0]);
        assert(ds.push((f2, w2))[0] == ds[0]);
        assert(body.push(e2).drop_first() =~= body.drop_first().push(e2));
        assert(ds.push((f2, w2)).drop_first() =~= ds.drop_first().push((f2, w2)));
    }
}

/// Nodes appended after the paired dependents do not disturb the pairing.
proof fn lemma_shaped_deps_extend(
    body: Seq<Expression>,
    pb: String,
    ds: Seq<(String, CreateShape)>,
    e2: Expression,
)
    requires
        shaped_deps(body, pb, ds),
        body.len() >= ds.len(),
    ensures
        shaped_deps(body.push(e2), pb, ds),
    decreases ds.len(),
{
    if ds.len() == 0 {
    } else {
        lemma_shaped_deps_extend(body.drop_first(), pb, ds.drop_first(), e2);
        assert(body.push(e2)[0] == body[0]);
        assert(body.push(e2).drop_first() =~= body.drop_first().push(e2));
    }
}

/// A plain update or delete leaf with concrete arguments only.
pub open spec fn update_delete_leaf(e: Expression, model: ModelId, tag: QueryTag) -> bool {
    e matches Expression::Query { query } && (*query matches DbQuery::Write(op) && op.model
        == model && op.kind == (match tag {
        QueryTag::DeleteOne | QueryTag::DeleteMany => WriteKind::DeleteRecord,
        _ => WriteKind::UpdateRecord,
    }) && (forall|j: int| 0 <= j < op.args@.len() ==> !((#[trigger] op.args@[j]).1 is Bound)))
}

/// The query-schema entry a top-level name resolves to.
pub open spec fn top_field_info(
    o: crate::query_schema::ObjectType,
    name: Seq<char>,
) -> Option<crate::query_schema::QueryInfo> {
    match crate::query_schema::find_out_field_from(o, name, 0) {
        Some(i) => o.fields@[i].query_info,
        None => None,
    }
}

/// First entry of an argument object with the given key.
fn find_arg_entry(fields: &Vec<(String, ArgumentValue)>, key: &String) -> (r: Option<usize>)
    ensures
        r matches Some(i) ==> i < fields@.len() && fields@[i as int].0@ == key@,
{
    let mut i: usize = 0;
    while i < fields.len()
        invariant
            i <= fields@.len(),
        decreases fields@.len() - i,
    {
        if fields[i].0 == *key {
            return Some(i);
        }
        i += 1;
    }
    None
}

/// A bound binding list binds each of its expressions.
proof fn lemma_plan_bound_bindings_elem(s: Seq<Binding>, b: Set<Seq<char>>, j: int)
    requires
        plan_bound_bindings(s, b),
        0 <= j < s.len(),
    ensures
        plan_bound(s[j].expr, b),
    decreases s.len(),
{
    if j < s.len() - 1 {
        lemma_plan_bound_bindings_elem(s.drop_last(), b, j);
        assert(s.drop_last()[j] == s[j]);
    }
}

/// Elementwise bound plans make a bound plan list.
proof fn lemma_seq_bound_pointwise(s: Seq<Expression>, b: Set<Seq<char>>)
    requires
        forall|i: int| 0 <= i < s.len() ==> plan_bound(#[trigger] s[i], b),
    ensures
        plan_bound_seq(s, b),
    decreases s.len(),
{
    if s.len() > 0 {
        lemma_seq_bound_pointwise(s.drop_last(), b);
    }
}

/// Elementwise bound binding expressions make a bound binding list.
proof fn lemma_bindings_bound_pointwise(s: Seq<Binding>, b: Set<Seq<char>>)
    requires
        forall|i: int| 0 <= i < s.len() ==> plan_bound((#[trigger] s[i]).expr, b),
    ensures
        plan_bound_bindings(s, b),
    decreases s.len(),
{
    if s.len() > 0 {
        lemma_bindings_bound_pointwise(s.drop_last(), b);
    }
}

/// The first foreign-key field name on the far side of the relation field
/// at (model, fid), when the far side holds one.
fn opposite_fk_name(dm: &InternalDataModel, model: ModelId, fid: FieldId) -> (r: Option<String>)
    requires
        dm.wf(),
        crate::cursor::model_field_in_range(*dm, model, fid),
        crate::cursor::model_field_def_of(*dm, model, fid) is Relation,
{
    let rfh = RelationField(crate::cursor::Cursor { id: (model, fid), dm: dm.clone() });
    let other = rfh.related_field();
    let odef = match &dm.schema.models[other.0.id.0.0].fields[other.0.id.1.0] {
        FieldDef::Relation(rf) => rf,
        FieldDef::Scalar(_) => vstd::pervasive::unreached(),
    };
    if odef.fk_field_names.len() > 0 {
        Some(odef.fk_field_names[0].clone())
    } else {
        None
    }
}

/// Compiles one create with its nested creates, linearized by foreign-key
/// direction. Every name a threaded argument references is introduced by
/// an enclosing binding of the produced plan, or is the caller's own
/// threaded binding.
#[verifier::loop_isolation(false)]
pub fn plan_create_node(
    dm: &InternalDataModel,
    model: ModelId,
    data: &Vec<(String, ArgumentValue)>,
    result_name: String,
    extra: Option<(String, String)>,
) -> (r: Result<Expression, PlannerError>)
    requires
        dm.wf(),
        model_in_range(*dm, model),
    ensures
        r matches Ok(e) ==> plan_bound(e, extra_set(extra)),
        r matches Ok(e) ==> create_plan_shape(e, model, extra),
        r matches Ok(e) ==> exists|w: CreateShape|
            #![trigger shaped_create(e, extra, w)]
            w.model == model && shaped_create(e, extra, w),
    decreases *data, 1int,
{
    let ghost ebound = extra_set(extra);
    let ghost extra_g = extra;
    let create_key = String::from_str("create");
    // First pass: the binding name for this record's generated id, drawn
    // from the first relation whose far side holds the foreign key.
    let mut parent_bind: Option<String> = None;
    let mut i: usize = 0;
    while i < data.len()
        invariant
            i <= data@.len(),
        decreases data@.len() - i,
    {
        if matches!(parent_bind, None) {
            match find_field_in_model(dm, model, &data[i].0) {
                Some(fid) => {
                    if fid.0 < dm.schema.models[model.0].fields.len() {
                        match &dm.schema.models[model.0].fields[fid.0] {
                            FieldDef::Relation(rf) => {
                                if rf.fk_field_names.len() == 0 {
                                    parent_bind = opposite_fk_name(dm, model, fid);
                                }
                            },
                            FieldDef::Scalar(_) => {},
                        }
                    }
                },
                None => {},
            }
        }
        i += 1;
    }
    let ghost pbname: Seq<char> = match parent_bind {
        Some(ref p) => p@,
        None => Seq::empty(),
    };
    let ghost pbstr: String = parent_bind->0;
    // Second pass: arguments and nested creates.
    let mut args: Vec<(String, WriteArg)> = Vec::new();
    let mut pre_bindings: Vec<Binding> = Vec::new();
    let mut post_children: Vec<Expression> = Vec::new();
    let ghost mut pre_ws: Seq<CreateShape> = Seq::empty();
    let ghost mut dep_ws: Seq<(String, CreateShape)> = Seq::empty();
    let mut i: usize = 0;
    while i < data.len()
        invariant
            i <= data@.len(),
            parent_bind matches Some(p) ==> p@ == pbname && p == pbstr,
            forall|j: int|
                0 <= j < args@.len() ==> ((#[trigger] args@[j]).1 matches WriteArg::Bound(n)
                    ==> bound_with(ebound, pre_bindings@).contains(n@)),
            plan_bound_bindings(pre_bindings@, ebound),
            shaped_pre(pre_bindings@, pre_ws),
            dep_ws.len() == post_children@.len(),
            shaped_deps(post_children@, pbstr, dep_ws),
            post_children@.len() > 0 ==> parent_bind is Some,
            forall|j: int|
                0 <= j < post_children@.len() ==> plan_bound(
                    #[trigger] post_children@[j],
                    Set::<Seq<char>>::empty().insert(pbname),
                ),
        decreases data@.len() - i,
    {
        let key = data[i].0.clone();
        match find_field_in_model(dm, model, &key) {
            None => {
                return Err(PlannerError::UnknownField(key));
            },
            Some(fid) => {
                if fid.0 >= dm.schema.models[model.0].fields.len() {
                    return Err(PlannerError::UnknownField(key));
                }
                let is_scalar = matches!(
                    &dm.schema.models[model.0].fields[fid.0],
                    FieldDef::Scalar(_)
                );
                if is_scalar {
                    args.push((key, WriteArg::Value(data[i].1.clone())));
                } else {
                    let ghost pre_pre_bindings = pre_bindings@;
                    let (fk_nonempty, fk_name0) = match &dm.schema.models[model.0].fields[fid.0] {
                        FieldDef::Relation(rf) => if rf.fk_field_names.len() > 0 {
                            (true, rf.fk_field_names[0].clone())
                        } else {
                            (false, String::new())
                        },
                        FieldDef::Scalar(_) => vstd::pervasive::unreached(),
                    };
                    let rfh = RelationField(
                        crate::cursor::Cursor { id: (model, fid), dm: dm.clone() },
                    );
                    let related = rfh.related_model().id;
                    let env = match &data[i].1 {
                        ArgumentValue::Object(env) => env,
                        _ => {
                            return Err(PlannerError::InvalidNestedWrite(key));
                        },
                    };
                    let cidx = match find_arg_entry(env, &create_key) {
                        Some(ci) => ci,
                        None => {
                            return Err(PlannerError::InvalidNestedWrite(key));
                        },
                    };
                    if fk_nonempty {
                        // This record references the child: create the
                        // child first and thread its id in.
                        let child_fields = match &env[cidx].1 {
                            ArgumentValue::Object(cf) => cf,
                            ArgumentValue::List(items) => {
                                if items.len() == 0 {
                                    return Err(PlannerError::InvalidNestedWrite(key));
                                }
                                match &items[0] {
                                    ArgumentValue::Object(cf) => cf,
                                    _ => {
                                        return Err(PlannerError::InvalidNestedWrite(key));
                                    },
                                }
                            },
                            _ => {
                                return Err(PlannerError::InvalidNestedWrite(key));
                            },
                        };
                        proof {
                            assert(decreases_to!(*data => data@));
                            assert(decreases_to!(data@ => data@[i as int]));
                            assert(decreases_to!(data@[i as int] => data@[i as int].1));
                            assert(decreases_to!(*data => *child_fields));
                        }
                        let child_expr = match plan_create_node(
                            dm,
                            related,
                            child_fields,
                            key.clone(),
                            None,
                        ) {
                            Ok(e) => e,
                            Err(e) => {
                                return Err(e);
                            },
                        };
                        proof {
                            lemma_plan_bound_mono(child_expr, extra_set(None), ebound);
                        }
                        let ghost child_g = child_expr;
                        let ghost wch = choose|w: CreateShape|
                            w.model == related && shaped_create(child_g, None, w);
                        proof {
                            lemma_shaped_pre_snoc(
                                pre_pre_bindings,
                                pre_ws,
                                Binding { name: fk_name0, expr: child_g },
                                wch,
                            );
                        }
                        pre_bindings.push(
                            Binding { name: fk_name0.clone(), expr: child_expr },
                        );
                        proof {
                            pre_ws = pre_ws.push(wch);
                            assert(pre_bindings@ =~= pre_pre_bindings.push(
                                Binding { name: fk_name0, expr: child_g },
                            ));
                        }
                        proof {
                            assert forall|j: int|
                                0 <= j < pre_bindings@.len() implies plan_bound(
                                (#[trigger] pre_bindings@[j]).expr,
                                ebound,
                            ) by {
                                if j < pre_pre_bindings.len() {
                                    lemma_plan_bound_bindings_elem(
                                        pre_pre_bindings,
                                        ebound,
                                        j,
                                    );
                                    assert(pre_bindings@[j] == pre_pre_bindings[j]);
                                } else {
                                    assert(pre_bindings@[j].expr == child_g);
                                }
                            }
                            lemma_bindings_bound_pointwise(pre_bindings@, ebound);
                        }
                        args.push((fk_name0.clone(), WriteArg::Bound(fk_name0)));
                        proof {
                            assert(bound_with(ebound, pre_bindings@).contains(
                                pre_bindings@.last().name@,
                            ));
                            assert forall|n: Seq<char>|
                                bound_with(ebound, pre_pre_bindings).contains(
                                    n,
                                ) implies bound_with(ebound, pre_bindings@).contains(n) by {
                                if !ebound.contains(n) {
                                    let k = choose|k: int|
                                        0 <= k < pre_pre_bindings.len() && (
                                        #[trigger] pre_pre_bindings[k]).name@ == n;
                                    assert(pre_bindings@[k].name@ == n);
                                }
                            }
                            assert forall|j: int|
                                0 <= j < args@.len() implies ((#[trigger] args@[j]).1
                                matches WriteArg::Bound(n) ==> bound_with(
                                ebound,
                                pre_bindings@,
                            ).contains(n@)) by {}
                        }
                    } else {
                        // The child holds the foreign key: this record is
                        // created first and each child references its id.
                        let pb = match &parent_bind {
                            Some(p) => p.clone(),
                            None => {
                                return Err(PlannerError::InvalidNestedWrite(key));
                            },
                        };
                        let child_fk = match opposite_fk_name(dm, model, fid) {
                            Some(n) => n,
                            None => {
                                return Err(PlannerError::InvalidNestedWrite(key));
                            },
                        };
                        match &env[cidx].1 {
                            ArgumentValue::Object(cf) => {
                                proof {
                                    assert(decreases_to!(*data => data@));
                                    assert(decreases_to!(data@ => data@[i as int]));
                                    assert(decreases_to!(data@[i as int] => data@[i as int].1));
                                    assert(decreases_to!(*data => *cf));
                                }
                                let ghost cfk_g = child_fk;
                                let ghost post_pre = post_children@;
                                let child_expr = match plan_create_node(
                                    dm,
                                    related,
                                    cf,
                                    key.clone(),
                                    Some((child_fk, pb.clone())),
                                ) {
                                    Ok(e) => e,
                                    Err(e) => {
                                        return Err(e);
                                    },
                                };
                                let ghost child_g2 = child_expr;
                                let ghost wch = choose|w: CreateShape|
                                    w.model == related && shaped_create(
                                        child_g2,
                                        Some((cfk_g, pbstr)),
                                        w,
                                    );
                                proof {
                                    lemma_shaped_deps_snoc(
                                        post_pre,
                                        pbstr,
                                        dep_ws,
                                        child_g2,
                                        cfk_g,
                                        wch,
                                    );
                                }
                                post_children.push(child_expr);
                                proof {
                                    dep_ws = dep_ws.push((cfk_g, wch));
                                    assert(post_children@ =~= post_pre.push(child_g2));
                                }
                            },
                            ArgumentValue::List(items) => {
                                let mut j: usize = 0;
                                while j < items.len()
                                    invariant
                                        j <= items@.len(),
                                        i < data@.len(),
                                        data@[i as int].1 is Object,
                                        cidx < env@.len(),
                                        *env == data@[i as int].1->Object_0,
                                        env@[cidx as int].1 is List,
                                        *items == env@[cidx as int].1->List_0,
                                        parent_bind matches Some(p) && p@ == pbname && p
                                            == pbstr,
                                        pb@ == pbname,
                                        pb == pbstr,
                                        model_in_range(*dm, related),
                                        forall|k: int|
                                            0 <= k < post_children@.len() ==> plan_bound(
                                                #[trigger] post_children@[k],
                                                Set::<Seq<char>>::empty().insert(pbname),
                                            ),
                                        dep_ws.len() == post_children@.len(),
                                        shaped_deps(post_children@, pbstr, dep_ws),
                                    decreases items@.len() - j,
                                {
                                    let cf = match &items[j] {
                                        ArgumentValue::Object(cf) => cf,
                                        _ => {
                                            return Err(
                                                PlannerError::InvalidNestedWrite(
                                                    String::from_str("create"),
                                                ),
                                            );
                                        },
                                    };
                                    proof {
                                        assert(decreases_to!(*data => data@));
                                        assert(decreases_to!(data@ => data@[i as int]));
                                        assert(decreases_to!(data@[i as int]
                                            => data@[i as int].1));
                                        assert(decreases_to!(*data => *cf));
                                    }
                                    let child_fk_j = match opposite_fk_name(dm, model, fid) {
                                        Some(n) => n,
                                        None => {
                                            return Err(
                                                PlannerError::InvalidNestedWrite(
                                                    String::from_str("create"),
                                                ),
                                            );
                                        },
                                    };
                                    let ghost cfk_g = child_fk_j;
                                    let ghost post_pre = post_children@;
                                    let child_expr = match plan_create_node(
                                        dm,
                                        related,
                                        cf,
                                        String::from_str("create"),
                                        Some((child_fk_j, pb.clone())),
                                    ) {
                                        Ok(e) => e,
                                        Err(e) => {
                                            return Err(e);
                                        },
                                    };
                                    let ghost child_g2 = child_expr;
                                    let ghost wch = choose|w: CreateShape|
                                        w.model == related && shaped_create(
                                            child_g2,
                                            Some((cfk_g, pbstr)),
                                            w,
                                        );
                                    proof {
                                        lemma_shaped_deps_snoc(
                                            post_pre,
                                            pbstr,
                                            dep_ws,
                                            child_g2,
                                            cfk_g,
                                            wch,
                                        );
                                    }
                                    post_children.push(child_expr);
                                    proof {
                                        dep_ws = dep_ws.push((cfk_g, wch));
                                        assert(post_children@ =~= post_pre.push(child_g2));
                                    }
                                    j += 1;
                                }
                            },
                            _ => {
                                return Err(PlannerError::InvalidNestedWrite(key));
                            },
                        }
                    }
                }
            },
        }
        i += 1;
    }
    // Assembly: child-first bindings around the record's own create, the
    // record's id bound for its children, the children after it.
    let id_field = primary_id_field_name(dm, model);
    let mut wargs = args;
    match extra {
        Some(p) => {
            wargs.push((p.0, WriteArg::Bound(p.1)));
        },
        None => {},
    }
    let wop = WriteOp {
        model,
        kind: WriteKind::CreateRecord,
        name: result_name,
        id_field,
        args: wargs,
    };
    let ghost wopg = wop;
    let ghost b1 = bound_with(ebound, pre_bindings@);
    let parent_q = Expression::Query { query: Box::new(DbQuery::Write(wop)) };
    proof {
        assert(ebound.subset_of(b1));
        assert(crate::interpreter::write_bound(wopg, b1)) by {
            assert(forall|j: int|
                0 <= j < wopg.args@.len() ==> ((#[trigger] wopg.args@[j]).1
                    matches WriteArg::Bound(n) ==> b1.contains(n@)));
        }
        assert(plan_bound(parent_q, b1));
        assert(create_leaf(parent_q, model, extra_g)) by {
            match extra_g {
                Some(p) => {
                    assert(wopg.args@[wopg.args@.len() - 1] == (p.0, WriteArg::Bound(p.1)));
                },
                None => {},
            }
        }
    }
    let ghost post_g = post_children@;
    let core: Expression = match parent_bind {
        Some(pb) => {
            let mut body = post_children;
            body.push(Expression::Get { binding_name: pb.clone() });
            let mut lets_v: Vec<Binding> = Vec::new();
            lets_v.push(Binding { name: pb, expr: parent_q });
            let c = Expression::Let { bindings: lets_v, expressions: body };
            proof {
                assert(c->Let_bindings@.len() == 1);
                assert(c->Let_bindings@[0].name == pbstr);
                assert(create_leaf(c->Let_bindings@[0].expr, model, extra_g));
                assert(c->Let_expressions@.last() matches Expression::Get { binding_name }
                    && binding_name == pbstr);
                assert forall|k: int|
                    0 <= k < c->Let_expressions@.len() - 1 implies plan_bound(
                    #[trigger] c->Let_expressions@[k],
                    Set::<Seq<char>>::empty().insert(c->Let_bindings@[0].name@),
                ) by {
                    assert(c->Let_expressions@[k] == post_g[k]);
                    assert(plan_bound(post_g[k], Set::<Seq<char>>::empty().insert(pbname)));
                }
                assert(create_core_shape(c, model, extra_g));
                lemma_shaped_deps_extend(
                    post_g,
                    pbstr,
                    dep_ws,
                    c->Let_expressions@.last(),
                );
                assert(c->Let_expressions@ =~= post_g.push(c->Let_expressions@.last()));
                assert(shaped_core(c, extra_g, model, Some(dep_ws)));
            }
            c
        },
        None => {
            proof {
                assert(create_core_shape(parent_q, model, extra_g));
                assert(shaped_core(parent_q, extra_g, model, None));
            }
            parent_q
        },
    };
    let ghost core_deps: Option<Seq<(String, CreateShape)>> = if parent_bind is Some {
        Some(dep_ws)
    } else {
        None
    };
    proof {
        assert(shaped_core(core, extra_g, model, core_deps));
    }
    proof {
        if parent_bind is Some {
            let lets = core->Let_bindings@;
            let body = core->Let_expressions@;
            let b2 = bound_with(b1, lets);
            assert(plan_bound_bindings(lets, b1)) by {
                assert(plan_bound_bindings(lets.drop_last(), b1));
                assert(lets.last().expr == parent_q);
                assert(plan_bound(parent_q, b1));
            }
            assert(b2.contains(pbname));
            assert forall|k: int| 0 <= k < body.len() implies plan_bound(
                #[trigger] body[k],
                b2,
            ) by {
                if k < body.len() - 1 {
                    assert(body[k] == post_children@[k]);
                    assert(Set::<Seq<char>>::empty().insert(pbname).subset_of(b2));
                    lemma_plan_bound_mono(
                        body[k],
                        Set::<Seq<char>>::empty().insert(pbname),
                        b2,
                    );
                } else {
                    assert(body[k] matches Expression::Get { binding_name } && binding_name@
                        == pbname);
                }
            }
            lemma_seq_bound_pointwise(body, b2);
            assert(plan_bound(core, b1));
        } else {
            assert(plan_bound(core, b1));
        }
    }
    if pre_bindings.len() > 0 {
        let ghost core_g = core;
        let mut core_v: Vec<Expression> = Vec::new();
        core_v.push(core);
        let full = Expression::Let { bindings: pre_bindings, expressions: core_v };
        proof {
            assert(full->Let_expressions@.len() == 1);
            assert(full->Let_expressions@.last() == core_g);
            assert(plan_bound_seq(full->Let_expressions@, b1)) by {
                assert(plan_bound_seq(full->Let_expressions@.drop_last(), b1));
                assert(full->Let_expressions@.last() == core_g);
                assert(plan_bound(core_g, b1));
            }
            assert(plan_bound(full, ebound));
            assert(create_core_shape(full->Let_expressions@[0], model, extra_g));
            assert(plan_bound_bindings(full->Let_bindings@, extra_set(extra_g)));
            assert(create_plan_shape(full, model, extra_g));
            let w = CreateShape { model, pre: pre_ws, deps: core_deps };
            assert(shaped_pre(full->Let_bindings@, pre_ws));
            assert(shaped_create(full, extra_g, w));
        }
        Ok(full)
    } else {
        proof {
            assert(bound_with(ebound, pre_bindings@) =~= ebound);
            lemma_plan_bound_mono(core, b1, ebound);
            assert(create_plan_shape(core, model, extra_g));
            let w = CreateShape { model, pre: Seq::empty(), deps: core_deps };
            assert(shaped_create(core, extra_g, w));
        }
        Ok(core)
    }
}

} // verus!

verus! {

/// Whether a top-level name resolves to a field addressing a model of the
/// schema.
pub open spec fn top_field_resolves(
    dm: InternalDataModel,
    o: crate::query_schema::ObjectType,
    name: Seq<char>,
) -> bool {
    match crate::query_schema::find_out_field_from(o, name, 0) {
        Some(i) => match o.fields@[i].query_info {
            Some(qi) => match qi.model {
                Some(mid) => mid.0 < dm.schema.models@.len(),
                None => false,
            },
            None => false,
        },
        None => false,
    }
}

/// Compiles one typed operation into an execution plan.
///
/// Every plan the planner emits is well formed: it never reads a name that
/// no enclosing binding introduces. A compiled read is one leaf read whose
/// shape is exactly the selection's, and compiling a read succeeds exactly
/// when its top-level name resolves.
pub fn plan_operation(dm: &InternalDataModel, qs: &QuerySchema, op: &Operation) -> (r: Result<
    Expression,
    PlannerError,
>)
    requires
        dm.wf(),
        qs.wf(),
    ensures
        r matches Ok(e) ==> plan_bound(e, Set::<Seq<char>>::empty()),
        op matches Operation::Read(sel) ==> (r matches Ok(e) ==> (expr_view(e)
            matches ExprView::Query(DbQueryView::Read(opv)) && read_matches_sel(
            opv,
            sel_view(*sel),
        ))),
        op matches Operation::Read(sel) ==> (r is Ok <==> top_field_resolves(
            *dm,
            qs.object_types@[qs.query as int],
            sel.name@,
        )),
        op matches Operation::Write(sel) ==> (r matches Ok(e) ==> (match top_field_info(
            qs.object_types@[qs.mutation as int],
            sel.name@,
        ) {
            Some(qi) => match (qi.model, qi.tag) {
                (Some(m), QueryTag::CreateOne) => create_plan_shape(e, m, None) && (exists|
                    w: CreateShape,
                |
                    #![trigger shaped_create(e, None, w)]
                    w.model == m && shaped_create(e, None, w)),
                (Some(m), t) => update_delete_leaf(e, m, t),
                _ => false,
            },
            None => false,
        })),
{
    match op {
        Operation::Read(sel) => {
            let root = qs.query();
            let field = match root.find_field(&sel.name) {
                Some(f) => f,
                None => {
                    return Err(PlannerError::UnknownTopLevelField(sel.name.clone()));
                },
            };
            let mid = match &field.query_info {
                Some(qi) => match qi.model {
                    Some(mid) => mid,
                    None => {
                        return Err(PlannerError::UnknownTopLevelField(sel.name.clone()));
                    },
                },
                None => {
                    return Err(PlannerError::UnknownTopLevelField(sel.name.clone()));
                },
            };
            if mid.0 >= dm.schema.models.len() {
                return Err(PlannerError::UnknownTopLevelField(sel.name.clone()));
            }
            let rop = plan_read_selection(dm, mid, sel);
            let e = Expression::Query { query: Box::new(DbQuery::Read(rop)) };
            Ok(e)
        },
        Operation::Write(sel) => {
            let root = qs.mutation();
            let field = match root.find_field(&sel.name) {
                Some(f) => f,
                None => {
                    return Err(PlannerError::UnknownTopLevelField(sel.name.clone()));
                },
            };
            let (mid, tag) = match &field.query_info {
                Some(qi) => match qi.model {
                    Some(mid) => (mid, qi.tag),
                    None => {
                        return Err(PlannerError::UnknownTopLevelField(sel.name.clone()));
                    },
                },
                None => {
                    return Err(PlannerError::UnknownTopLevelField(sel.name.clone()));
                },
            };
            if mid.0 >= dm.schema.models.len() {
                return Err(PlannerError::UnknownTopLevelField(sel.name.clone()));
            }
            match tag {
                QueryTag::CreateOne => {
                    let data_key = String::from_str("data");
                    let data = match find_arg_entry(&sel.arguments, &data_key) {
                        Some(di) => match &sel.arguments[di].1 {
                            ArgumentValue::Object(fields) => fields,
                            _ => {
                                return Err(
                                    PlannerError::InvalidNestedWrite(String::from_str("data")),
                                );
                            },
                        },
                        None => {
                            return Err(
                                PlannerError::InvalidNestedWrite(String::from_str("data")),
                            );
                        },
                    };
                    plan_create_node(dm, mid, data, sel.name.clone(), None)
                },
                QueryTag::UpdateOne | QueryTag::UpdateMany | QueryTag::DeleteOne
                    | QueryTag::DeleteMany => {
                    // Plain updates and deletes compile to one leaf
                    // operation carrying the selection's arguments as
                    // concrete values.
                    let kind = match tag {
                        QueryTag::DeleteOne | QueryTag::DeleteMany => WriteKind::DeleteRecord,
                        _ => WriteKind::UpdateRecord,
                    };
                    let mut wargs: Vec<(String, WriteArg)> = Vec::new();
                    let mut i: usize = 0;
                    while i < sel.arguments.len()
                        invariant
                            i <= sel.arguments@.len(),
                            forall|j: int|
                                0 <= j < wargs@.len() ==> !((#[trigger] wargs@[j]).1
                                    is Bound),
                        decreases sel.arguments@.len() - i,
                    {
                        wargs.push(
                            (sel.arguments[i].0.clone(), WriteArg::Value(sel.arguments[i].1.clone())),
                        );
                        i += 1;
                    }
                    let id_field = primary_id_field_name(dm, mid);
                    let wop = WriteOp {
                        model: mid,
                        kind,
                        name: sel.name.clone(),
                        id_field,
                        args: wargs,
                    };
                    let ghost wopg = wop;
                    let e = Expression::Query { query: Box::new(DbQuery::Write(wop)) };
                    proof {
                        assert(crate::interpreter::write_bound(
                            wopg,
                            Set::<Seq<char>>::empty(),
                        ));
                        assert(plan_bound(e, Set::<Seq<char>>::empty()));
                        assert(update_delete_leaf(e, mid, tag));
                    }
                    Ok(e)
                },
                // Upserts (locating query, conditional branches joined by a
                // first-non-empty binding), bulk creates and linking-table
                // writes are not compiled yet; refusing them is better than
                // running the wrong operation.
                _ => Err(PlannerError::UnsupportedWrite(sel.name.clone())),
            }
        },
    }
}

} // verus!
