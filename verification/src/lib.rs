//! Execution core of a database-agnostic query engine.
//!
//! The crate turns a structured client request (a typed selection of fields
//! and arguments against a validated data model) into an execution plan — a
//! tree of typed nodes for sequencing, variable bindings, conditionals and
//! leaf store operations — and evaluates that plan inside one transaction
//! against an opaque connector, reassembling the store's results into the
//! nested shape the client asked for.

pub mod composite_type;
pub mod connector;
pub mod cursor;
pub mod env;
pub mod expression;
pub mod field;
pub mod internal_enum;
pub mod interpreter;
pub mod json;
pub mod json_query;
pub mod model;
pub mod operation;
pub mod parent_container;
pub mod planner;
pub mod protocol_adapter;
pub mod query_schema;
pub mod record;
pub mod relation;
pub mod schema;
pub mod serialize;
pub mod value;

use crate::connector::Connector;
use crate::cursor::InternalDataModel;
use crate::expression::{expr_view, DbQueryView, ExprView, ReadOpView};
use crate::interpreter::{execute_plan, no_commit_in, InterpreterError};
use crate::operation::{sel_view, Operation, SelView};
use crate::planner::{plan_operation, read_matches_sel, PlannerError};
use crate::query_schema::QuerySchema;
use crate::record::{ExpressionResult, RecordSet};
use vstd::prelude::*;

verus! {

/// The one structured error a caller receives per failed operation: the
/// plan was ill-formed and rejected before any store I/O, or evaluation
/// failed and the transaction was rolled back.
#[derive(Debug, PartialEq)]
pub enum CoreError {
    Plan(PlannerError),
    Interpretation(InterpreterError),
}

/// A result tree shaped like the selection that asked for it: the rows'
/// columns are the selection's childless names, one nested column per
/// nested selection with children, nested record sets shaped the same way
/// in turn — as witnessed by the compiled read both agree with.
pub open spec fn records_match_selection(rs: RecordSet, sv: SelView) -> bool {
    exists|opv: ReadOpView|
        #[trigger] read_matches_sel(opv, sv) && crate::interpreter::rs_shape_ok(rs, opv)
}

/// Evaluates one typed operation inside the given transaction.
///
/// The operation is planned, the plan is checked for well-formedness, and
/// the plan runs against the connector; the transaction is committed on
/// success and rolled back on every error — no partial writes are ever
/// committed. A successful read answers with a record set isomorphic to
/// the selection's nested shape, whatever the connector returned.
pub fn evaluate<C: Connector>(
    conn: &mut C,
    dm: &InternalDataModel,
    qs: &QuerySchema,
    op: &Operation,
) -> (r: Result<ExpressionResult, CoreError>)
    requires
        dm.wf(),
        qs.wf(),
    ensures
        final(conn).log().len() > old(conn).log().len(),
        forall|i: int|
            0 <= i < old(conn).log().len() ==> #[trigger] final(conn).log()[i] == old(
                conn,
            ).log()[i],
        r is Err ==> no_commit_in(final(conn).log(), old(conn).log().len() as int),
        r is Ok ==> final(conn).log().last() == (crate::connector::CallRecord::Commit { ok: true }),
        (op matches Operation::Read(sel) ==> (r matches Ok(res) ==> (
        res matches ExpressionResult::Records(rs) && records_match_selection(*rs, sel_view(*sel))))),
        (op is Read ==> (r matches Err(CoreError::Interpretation(e)) ==> e is Store)),
        (op matches Operation::Read(sel) ==> ((r matches Err(e) && e is Plan)
            <==> !crate::planner::top_field_resolves(
            *dm,
            qs.object_types@[qs.query as int],
            sel.name@,
        ))),
{
    match plan_operation(dm, qs, op) {
        Err(e) => {
            let _ignored = conn.rollback();
            Err(CoreError::Plan(e))
        },
        Ok(expr) => {
            match execute_plan(conn, &expr) {
                Ok(res) => {
                    proof {
                        match op {
                            Operation::Read(sel) => {
                                let opv = expr_view(expr)->Query_0->Read_0;
                                assert(read_matches_sel(opv, sel_view(*sel))
                                    && crate::interpreter::rs_shape_ok(
                                    *res->Records_0,
                                    opv,
                                ) ==> records_match_selection(*res->Records_0, sel_view(*sel)));
                            },
                            Operation::Write(_) => {},
                        }
                    }
                    Ok(res)
                },
                Err(e) => Err(CoreError::Interpretation(e)),
            }
        },
    }
}

} // verus!
