//! The transactional store connector the interpreter drives.
//!
//! The interpreter is oblivious to the store's dialect: it sees two store
//! operations (query and execute) and two lifecycle operations (commit and
//! rollback), each fallible, and nothing else. A connector's observable
//! behaviour is its call log: every implementation promises to append
//! exactly one record per call, which is what sequencing and atomicity
//! statements are made of.

use crate::expression::{read_op_view, write_op_view, ReadOp, ReadOpView, WriteOp, WriteOpView};
use crate::record::{Cell, RecordSet};
use crate::schema::ModelId;
use crate::value::{ArgumentValue, ScalarValue};
use vstd::prelude::*;
use vstd::string::StringExecFns;

verus! {

/// A connector-reported failure, with enough structure for the caller to
/// render a user-facing message.
#[derive(Debug, PartialEq)]
pub enum StoreError {
    UniqueConstraintViolation { fields: Vec<String> },
    ForeignKeyViolation { constraint: String },
    NullConstraintViolation { fields: Vec<String> },
    TableNotFound { table: String },
    ColumnNotFound { column: String },
    Timeout,
    ConnectionClosed,
    Raw { message: String },
}

/// One observable connector call, as recorded in the log.
pub enum CallRecord {
    Query { op: ReadOpView, ok: bool },
    Execute { op: WriteOpView, ok: bool },
    Commit { ok: bool },
    Rollback { ok: bool },
}

/// What a write operation reports back: how many rows were affected, and
/// the generated id of a created record, when there is one.
#[derive(Debug, PartialEq)]
pub struct WriteOutcome {
    pub count: u64,
    pub generated_id: Option<ScalarValue>,
}

/// A call record is a store operation, not a transaction boundary.
pub open spec fn is_op_record(c: CallRecord) -> bool {
    c is Query || c is Execute
}

/// The transactional connector interface. At most one of commit and
/// rollback may take effect per transaction; the caller (the interpreter's
/// driver) guarantees it issues exactly one of them.
pub trait Connector: Sized {
    /// The observable call history of this connector.
    spec fn log(&self) -> Seq<CallRecord>;

    /// Issue a read; exactly one call record is appended, successful
    /// exactly when a record set is returned.
    fn query(&mut self, op: &ReadOp) -> (r: Result<RecordSet, StoreError>)
        ensures
            final(self).log() == old(self).log().push(
                CallRecord::Query { op: read_op_view(*op), ok: r is Ok },
            ),
    ;

    /// Issue a write; exactly one call record is appended, successful
    /// exactly when an outcome is returned.
    fn execute(&mut self, op: &WriteOp) -> (r: Result<WriteOutcome, StoreError>)
        ensures
            final(self).log() == old(self).log().push(
                CallRecord::Execute { op: write_op_view(*op), ok: r is Ok },
            ),
    ;

    fn commit(&mut self) -> (r: Result<(), StoreError>)
        ensures
            final(self).log() == old(self).log().push(CallRecord::Commit { ok: r is Ok }),
    ;

    fn rollback(&mut self) -> (r: Result<(), StoreError>)
        ensures
            final(self).log() == old(self).log().push(CallRecord::Rollback { ok: r is Ok }),
    ;
}

// ---------------------------------------------------------------------------
// The in-memory connector.
// ---------------------------------------------------------------------------

/// The kind of one connector call, kept in an executable trace so tests can
/// observe call order and transaction boundaries.
#[derive(Clone, Copy, Debug, PartialEq, Eq, Structural)]
pub enum CallKind {
    Query,
    Execute,
    Commit,
    Rollback,
}

/// One record stored by the in-memory connector.
#[derive(Debug, PartialEq)]
pub struct StoredRecord {
    pub model: ModelId,
    pub id: i64,
    pub values: Vec<(String, ArgumentValue)>,
}

/// An in-memory connector: stores created records in a table, generates
/// sequential ids, and can be scripted to fail the n-th write, which is how
/// failure atomicity is exercised.
pub struct MemoryConnector {
    pub records: Vec<StoredRecord>,
    pub next_id: i64,
    /// Fail the execute call with this zero-based ordinal, if set.
    pub fail_execute_at: Option<usize>,
    pub executes_done: usize,
    /// Executable trace of every call, in order.
    pub calls: Vec<CallKind>,
    /// The observable call history.
    pub history: Ghost<Seq<CallRecord>>,
}

impl MemoryConnector {
    pub fn new() -> (r: MemoryConnector)
        ensures
            r.log() == Seq::<CallRecord>::empty(),
    {
        MemoryConnector {
            records: Vec::new(),
            next_id: 1,
            fail_execute_at: None,
            executes_done: 0,
            calls: Vec::new(),
            history: Ghost(Seq::empty()),
        }
    }

    /// An in-memory connector whose n-th write (zero-based) fails.
    pub fn failing_at(n: usize) -> (r: MemoryConnector)
        ensures
            r.log() == Seq::<CallRecord>::empty(),
    {
        MemoryConnector {
            records: Vec::new(),
            next_id: 1,
            fail_execute_at: Some(n),
            executes_done: 0,
            calls: Vec::new(),
            history: Ghost(Seq::empty()),
        }
    }
}

impl Connector for MemoryConnector {
    open spec fn log(&self) -> Seq<CallRecord> {
        self.history@
    }

    /// Answers a read with every stored record of the asked-for model,
    /// giving each requested field the stored value, the generated id for
    /// the id field, and null where nothing was stored.
    fn query(&mut self, op: &ReadOp) -> (r: Result<RecordSet, StoreError>)
        ensures
            final(self).log() == old(self).log().push(
                CallRecord::Query { op: read_op_view(*op), ok: r is Ok },
            ),
            r is Ok,
            final(self).records@ == old(self).records@,
            final(self).next_id == old(self).next_id,
    {
        let mut fields: Vec<String> = Vec::new();
        let mut fi: usize = 0;
        while fi < op.fields.len()
            decreases op.fields@.len() - fi,
        {
            fields.push(op.fields[fi].clone());
            fi += 1;
        }
        let mut rows: Vec<Vec<Cell>> = Vec::new();
        let mut ri: usize = 0;
        while ri < self.records.len()
            decreases self.records@.len() - ri,
        {
            if self.records[ri].model.0 == op.model.0 {
                let mut row: Vec<Cell> = Vec::new();
                let mut ci: usize = 0;
                while ci < fields.len()
                    invariant
                        ri < self.records@.len(),
                        ci <= fields@.len(),
                    decreases fields@.len() - ci,
                {
                    let rec = &self.records[ri];
                    let mut cell = Cell::Scalar(ScalarValue::Null);
                    let mut vi: usize = 0;
                    while vi < rec.values.len()
                        invariant
                            ci < fields@.len(),
                            vi <= rec.values@.len(),
                        decreases rec.values@.len() - vi,
                    {
                        if rec.values[vi].0 == fields[ci] {
                            cell = Cell::Scalar(
                                match &rec.values[vi].1 {
                                    ArgumentValue::Int(n) => ScalarValue::Int(*n),
                                    ArgumentValue::String(s) => ScalarValue::String(s.clone()),
                                    ArgumentValue::Boolean(b) => ScalarValue::Boolean(*b),
                                    ArgumentValue::Float(s) => ScalarValue::Float(s.clone()),
                                    ArgumentValue::Enum(s) => ScalarValue::Enum(s.clone()),
                                    _ => ScalarValue::Null,
                                },
                            );
                        }
                        vi += 1;
                    }
                    row.push(cell);
                    ci += 1;
                }
                rows.push(row);
            }
            ri += 1;
        }
        self.calls.push(CallKind::Query);
        proof {
            self.history@ = self.history@.push(
                CallRecord::Query { op: read_op_view(*op), ok: true },
            );
        }
        Ok(RecordSet { fields, rows })
    }

    /// Performs a create by storing the concrete argument values under a
    /// freshly generated id; fails instead when scripted to.
    fn execute(&mut self, op: &WriteOp) -> (r: Result<WriteOutcome, StoreError>)
        ensures
            final(self).log() == old(self).log().push(
                CallRecord::Execute { op: write_op_view(*op), ok: r is Ok },
            ),
            r is Err <==> (old(self).fail_execute_at matches Some(n)
                && n == old(self).executes_done),
            r matches Ok(o) ==> o.count == 1 && o.generated_id == Some(
                ScalarValue::Int(old(self).next_id),
            ),
            r is Ok ==> final(self).records@.len() == old(self).records@.len() + 1
                && final(self).records@.last().model == op.model
                && final(self).records@.last().id == old(self).next_id && (forall|i: int|
                0 <= i < old(self).records@.len() ==> #[trigger] final(self).records@[i]
                    == old(self).records@[i]),
            r is Err ==> final(self).records@ == old(self).records@,
    {
        let ordinal = self.executes_done;
        if self.executes_done < usize::MAX {
            self.executes_done = self.executes_done + 1;
        }
        let fail_now = match self.fail_execute_at {
            Some(n) => n == ordinal,
            None => false,
        };
        self.calls.push(CallKind::Execute);
        if fail_now {
            proof {
                self.history@ = self.history@.push(
                    CallRecord::Execute { op: write_op_view(*op), ok: false },
                );
            }
            return Err(StoreError::Raw { message: String::from_str("scripted failure") });
        }
        let id = self.next_id;
        if self.next_id < i64::MAX {
            self.next_id = self.next_id + 1;
        }
        let mut values: Vec<(String, ArgumentValue)> = Vec::new();
        let mut i: usize = 0;
        while i < op.args.len()
            decreases op.args@.len() - i,
        {
            match &op.args[i].1 {
                crate::expression::WriteArg::Value(v) => {
                    values.push((op.args[i].0.clone(), v.clone()));
                },
                crate::expression::WriteArg::Bound(_) => {},
            }
            i += 1;
        }
        self.records.push(StoredRecord { model: op.model, id, values });
        proof {
            self.history@ = self.history@.push(
                CallRecord::Execute { op: write_op_view(*op), ok: true },
            );
        }
        Ok(WriteOutcome { count: 1, generated_id: Some(ScalarValue::Int(id)) })
    }

    fn commit(&mut self) -> (r: Result<(), StoreError>)
        ensures
            final(self).log() == old(self).log().push(CallRecord::Commit { ok: r is Ok }),
    {
        self.calls.push(CallKind::Commit);
        proof {
            self.history@ = self.history@.push(CallRecord::Commit { ok: true });
        }
        Ok(())
    }

    fn rollback(&mut self) -> (r: Result<(), StoreError>)
        ensures
            final(self).log() == old(self).log().push(CallRecord::Rollback { ok: r is Ok }),
    {
        self.calls.push(CallKind::Rollback);
        proof {
            self.history@ = self.history@.push(CallRecord::Rollback { ok: true });
        }
        Ok(())
    }
}

} // verus!
