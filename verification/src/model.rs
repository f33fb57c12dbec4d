//! Model handles: name resolution, field access and the primary identifier.

use crate::cursor::{model_def_of, model_in_range, Cursor, InternalDataModel};
use crate::field::{
    field_def_name, find_field_idx, model_field_handle, Field, ScalarField,
};
use crate::schema::{FieldDef, FieldId, ModelDef, ModelId, UniqueCriterion};
use vstd::prelude::*;

verus! {

/// Handle on one model of the schema.
pub type Model = Cursor<ModelId>;

pub type ModelRef = Model;
pub type ModelWeakRef = Model;

/// Fields of a model: the same handle, read through its field table.
pub type Fields = Model;

/// An ordered set of fields used to address records of one model.
#[derive(Debug)]
pub struct FieldSelection {
    pub fields: Vec<Field>,
}

/// The database name of a model: mapped name or client-facing name.
pub open spec fn model_db_name(m: ModelDef) -> Seq<char> {
    match m.mapped_name {
        Some(n) => n@,
        None => m.name@,
    }
}

/// Index of the first strict unique criterion.
pub open spec fn first_strict_from(cs: Seq<UniqueCriterion>, i: int) -> Option<int>
    decreases cs.len() - i,
{
    if i < 0 || i >= cs.len() {
        None
    } else if cs[i].strict {
        Some(i)
    } else {
        first_strict_from(cs, i + 1)
    }
}

pub open spec fn first_strict(cs: Seq<UniqueCriterion>) -> Option<int> {
    first_strict_from(cs, 0)
}

proof fn lemma_first_strict_exists(cs: Seq<UniqueCriterion>, i: int)
    requires
        0 <= i <= cs.len(),
        exists|k: int| i <= k < cs.len() && cs[k].strict,
    ensures
        first_strict_from(cs, i) is Some,
    decreases cs.len() - i,
{
    if cs[i].strict {
    } else {
        lemma_first_strict_exists(cs, i + 1);
    }
}

/// Whether one scalar field blocks the create operation: its type is not
/// supported by the engine, it must be given, and it has no default.
pub open spec fn blocks_create(f: FieldDef) -> bool {
    match f {
        FieldDef::Scalar(sf) => sf.field_type is Unsupported && sf.arity
            == crate::schema::FieldArity::Required && !sf.has_default,
        _ => false,
    }
}

/// Scalar-field handles for the first `n` entries of the model's field
/// table, in table order.
pub open spec fn scalar_handles_upto(dm: InternalDataModel, mid: ModelId, n: int) -> Seq<
    ScalarField,
>
    decreases n,
{
    if n <= 0 {
        Seq::empty()
    } else {
        scalar_handles_upto(dm, mid, n - 1) + (
        if model_def_of(dm, mid).fields@[n - 1] is Scalar {
            seq![ScalarField(Cursor { id: (mid, FieldId((n - 1) as usize)), dm })]
        } else {
            Seq::empty()
        })
    }
}

impl Model {
    pub open spec fn valid(self) -> bool {
        self.dm.wf() && model_in_range(self.dm, self.id)
    }

    pub open spec fn def(self) -> ModelDef {
        model_def_of(self.dm, self.id)
    }

    fn def_ref<'a>(&'a self) -> (r: &'a ModelDef)
        requires
            self.valid(),
        ensures
            *r == self.def(),
    {
        &self.dm.schema.models[self.id.0]
    }

    pub fn name(&self) -> (r: &str)
        requires
            self.valid(),
        ensures
            r@ == self.def().name@,
    {
        self.def_ref().name.as_str()
    }

    /// Contents of the schema-placement attribute, if any.
    pub fn schema_name(&self) -> (r: Option<&str>)
        requires
            self.valid(),
        ensures
            match self.def().schema_attr {
                Some(n) => r matches Some(s) && s@ == n@,
                None => r is None,
            },
    {
        match &self.def_ref().schema_attr {
            Some(s) => Some(s.as_str()),
            None => None,
        }
    }

    /// The table name of the model in the database.
    pub fn db_name(&self) -> (r: &str)
        requires
            self.valid(),
        ensures
            r@ == model_db_name(self.def()),
    {
        let d = self.def_ref();
        match &d.mapped_name {
            Some(n) => n.as_str(),
            None => d.name.as_str(),
        }
    }

    pub fn db_name_opt(&self) -> (r: Option<&str>)
        requires
            self.valid(),
        ensures
            match self.def().mapped_name {
                Some(n) => r matches Some(s) && s@ == n@,
                None => r is None,
            },
    {
        match &self.def_ref().mapped_name {
            Some(n) => Some(n.as_str()),
            None => None,
        }
    }

    pub fn fields(&self) -> (r: &Fields)
        ensures
            r == self,
    {
        self
    }

    /// The set of fields addressing one record of this model: the fields of
    /// the first strict unique criterion. A model without one is rejected at
    /// validation time, never at lookup time.
    pub fn primary_identifier(&self) -> (r: FieldSelection)
        requires
            self.valid(),
        ensures
            ({
                let k = first_strict(self.def().unique_criteria@);
                &&& k is Some
                &&& r.fields@.len() > 0
                &&& ({
                    let c = self.def().unique_criteria@[k->0];
                    &&& r.fields@.len() == c.field_indices@.len()
                    &&& forall|i: int|
                        0 <= i < r.fields@.len() ==> (#[trigger] r.fields@[i] matches Field::Scalar(
                            sf,
                        ) && sf.0.id == (self.id, FieldId(c.field_indices@[i]))
                            && sf.0.dm == self.dm)
                })
            }),
    {
        proof {
            assert(crate::schema::model_wf(self.def(), *self.dm.schema));
            lemma_first_strict_exists(self.def().unique_criteria@, 0);
        }
        let cs = &self.def_ref().unique_criteria;
        let n = cs.len();
        let mut k: usize = 0;
        while k < n && !cs[k].strict
            invariant
                self.valid(),
                *cs == self.def().unique_criteria,
                n == cs@.len(),
                k <= n,
                first_strict(cs@) == first_strict_from(cs@, k as int),
                first_strict(cs@) is Some,
            decreases n - k,
        {
            proof {
                assert(first_strict_from(cs@, k as int) == first_strict_from(cs@, k as int + 1));
            }
            k += 1;
        }
        proof {
            if k >= n {
                assert(first_strict_from(cs@, k as int) is None);
                assert(false);
            }
            assert(first_strict_from(cs@, k as int) == Some(k as int));
        }
        let c = &cs[k];
        proof {
            assert(crate::schema::criterion_wf(self.def().unique_criteria@[k as int], self.def()));
        }
        let mut fields: Vec<Field> = Vec::new();
        let mut i: usize = 0;
        while i < c.field_indices.len()
            invariant
                self.valid(),
                k < self.def().unique_criteria@.len(),
                *c == self.def().unique_criteria@[k as int],
                crate::schema::criterion_wf(*c, self.def()),
                i <= c.field_indices@.len(),
                fields@.len() == i,
                forall|j: int|
                    0 <= j < i ==> (#[trigger] fields@[j] matches Field::Scalar(sf) && sf.0.id == (
                        self.id,
                        FieldId(c.field_indices@[j]),
                    ) && sf.0.dm == self.dm),
            decreases c.field_indices@.len() - i,
        {
            let idx = c.field_indices[i];
            fields.push(Field::Scalar(ScalarField(self.refocus((self.id, FieldId(idx))))));
            i += 1;
        }
        FieldSelection { fields }
    }

    /// A model can be created unless some required, unsupported-typed scalar
    /// field without a default would have to be filled in.
    pub fn supports_create_operation(&self) -> (r: bool)
        requires
            self.valid(),
        ensures
            r == !exists|i: int|
                0 <= i < self.def().fields@.len() && blocks_create(#[trigger] self.def().fields@[i]),
    {
        let m = self.def_ref();
        let mut i: usize = 0;
        while i < m.fields.len()
            invariant
                i <= m.fields@.len(),
                *m == self.def(),
                forall|j: int| 0 <= j < i ==> !blocks_create(#[trigger] m.fields@[j]),
            decreases m.fields@.len() - i,
        {
            match &m.fields[i] {
                FieldDef::Scalar(sf) => {
                    if matches!(sf.field_type, crate::schema::ScalarFieldType::Unsupported)
                        && sf.arity.is_required() && !sf.has_default {
                        return false;
                    }
                },
                FieldDef::Relation(_) => {},
            }
            i += 1;
        }
        true
    }

    /// The first field with the given client-facing name, as a field handle.
    pub fn find_field(&self, name: &String) -> (r: Option<Field>)
        requires
            self.valid(),
        ensures
            match find_field_idx(self.def(), name@) {
                Some(i) => r matches Some(f) && f == model_field_handle(self.dm, self.id, i)
                    && f.valid() && f.spec_name() == name@,
                None => r is None,
            },
    {
        match crate::field::find_field_in_model(&self.dm, self.id, name) {
            Some(fid) => {
                proof {
                    lemma_find_field_idx_found(self.def(), name@, 0);
                }
                match &self.dm.schema.models[self.id.0].fields[fid.0] {
                    FieldDef::Scalar(_) => Some(
                        Field::Scalar(ScalarField(self.refocus((self.id, fid)))),
                    ),
                    FieldDef::Relation(_) => Some(
                        Field::Relation(crate::field::RelationField(self.refocus((self.id, fid)))),
                    ),
                }
            },
            None => None,
        }
    }
}

/// A found index is in range and its field bears the looked-up name.
proof fn lemma_find_field_idx_found(m: ModelDef, name: Seq<char>, i: int)
    ensures
        crate::field::find_field_idx_from(m, name, i) matches Some(j) ==> i <= j
            < m.fields@.len() && field_def_name(m.fields@[j]) == name,
    decreases m.fields@.len() - i,
{
    if 0 <= i < m.fields@.len() {
        lemma_find_field_idx_found(m, name, i + 1);
    }
}

impl InternalDataModel {
    /// Handles on every model of the schema, in table order.
    pub fn models(&self) -> (r: Vec<Model>)
        ensures
            r@.len() == self.schema.models@.len(),
            forall|i: int|
                0 <= i < r@.len() ==> (#[trigger] r@[i]).id == ModelId(i as usize) && r@[i].dm
                    == *self,
    {
        let mut out: Vec<Model> = Vec::new();
        let mut i: usize = 0;
        while i < self.schema.models.len()
            invariant
                i <= self.schema.models@.len(),
                out@.len() == i,
                forall|j: int|
                    0 <= j < i ==> (#[trigger] out@[j]).id == ModelId(j as usize) && out@[j].dm
                        == *self,
            decreases self.schema.models@.len() - i,
        {
            out.push(Cursor { id: ModelId(i), dm: self.clone() });
            i += 1;
        }
        out
    }
}

impl Fields {
    /// All scalar fields of the model, in field-table order.
    pub fn scalar_fields(&self) -> (r: Vec<ScalarField>)
        requires
            self.valid(),
        ensures
            r@ == scalar_handles_upto(self.dm, self.id, self.def().fields@.len() as int),
    {
        let m = &self.dm.schema.models[self.id.0];
        let mut out: Vec<ScalarField> = Vec::new();
        let mut i: usize = 0;
        while i < m.fields.len()
            invariant
                i <= m.fields@.len(),
                self.valid(),
                *m == self.def(),
                out@ == scalar_handles_upto(self.dm, self.id, i as int),
            decreases m.fields@.len() - i,
        {
            match &m.fields[i] {
                FieldDef::Scalar(_) => {
                    out.push(ScalarField(self.refocus((self.id, FieldId(i)))));
                },
                FieldDef::Relation(_) => {},
            }
            i += 1;
        }
        out
    }
}

} // verus!
