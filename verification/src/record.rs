//! Structured results: what a store operation's rows are folded into.
//!
//! A record set is tagged with its field names so later consumers and final
//! output assembly know its shape; a cell either holds a scalar or the
//! nested record set of a relation. Record sets are shared read-only once
//! built.

use crate::value::ScalarValue;
use std::sync::Arc;
use vstd::prelude::*;

verus! {

/// A set of records: field names and one row of cells per record.
#[derive(Debug, PartialEq)]
pub struct RecordSet {
    pub fields: Vec<String>,
    pub rows: Vec<Vec<Cell>>,
}

/// One cell of a row.
#[derive(Debug, PartialEq)]
pub enum Cell {
    Scalar(ScalarValue),
    /// The already-folded records of a nested relation.
    Nested(Arc<RecordSet>),
}

/// Every row has exactly one cell per field, and nested record sets are
/// well-shaped in turn.
pub open spec fn rs_wf(rs: RecordSet) -> bool
    decreases rs,
{
    forall|i: int|
        0 <= i < rs.rows@.len() ==> row_wf(#[trigger] rs.rows@[i], rs.fields@.len() as int)
}

pub open spec fn row_wf(row: Vec<Cell>, width: int) -> bool
    decreases row,
{
    row@.len() == width && forall|j: int| 0 <= j < row@.len() ==> cell_wf(#[trigger] row@[j])
}

pub open spec fn cell_wf(c: Cell) -> bool
    decreases c,
{
    match c {
        Cell::Scalar(_) => true,
        Cell::Nested(rs) => rs_wf(*rs),
    }
}

impl Clone for Cell {
    fn clone(&self) -> (r: Self)
        ensures
            r == *self,
    {
        match self {
            Cell::Scalar(v) => Cell::Scalar(v.clone()),
            Cell::Nested(rs) => Cell::Nested(rs.clone()),
        }
    }
}

/// The value one plan step produced, bound into the environment or yielded
/// as the final result: a record set, an affected-row count, or nothing.
#[derive(Debug, PartialEq)]
pub enum ExpressionResult {
    Records(Arc<RecordSet>),
    Count(u64),
    Empty,
}

impl Clone for ExpressionResult {
    fn clone(&self) -> (r: Self)
        ensures
            r == *self,
    {
        match self {
            ExpressionResult::Records(rs) => ExpressionResult::Records(rs.clone()),
            ExpressionResult::Count(n) => ExpressionResult::Count(*n),
            ExpressionResult::Empty => ExpressionResult::Empty,
        }
    }
}

/// Whether a bound value counts as empty: no value at all, or a record set
/// with no rows.
pub open spec fn result_is_empty(r: ExpressionResult) -> bool {
    match r {
        ExpressionResult::Empty => true,
        ExpressionResult::Records(rs) => rs.rows@.len() == 0,
        ExpressionResult::Count(_) => false,
    }
}

impl ExpressionResult {
    /// Emptiness as the interpreter tests it.
    pub fn is_empty(&self) -> (r: bool)
        ensures
            r == result_is_empty(*self),
    {
        match self {
            ExpressionResult::Empty => true,
            ExpressionResult::Records(rs) => rs.rows.len() == 0,
            ExpressionResult::Count(_) => false,
        }
    }
}

} // verus!
