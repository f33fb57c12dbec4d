//! Shared schema handle and the generic entity cursor.
//!
//! The schema is loaded once, validated, and from then on shared read-only
//! through a reference count; every cursor borrows a clone of that shared
//! reference plus an entity id, never a pointer into a mutable structure.

use crate::schema::{
    criterion_wf, field_ref_wf, member_ref_wf, model_wf, relation_back_wf, relation_side_wf,
    relation_wf, CompositeMemberDef, CompositeMemberType, FieldDef, FieldId, ModelDef, ModelId,
    RelationLinkManifestation, RelationSide, SchemaData, ScalarFieldType, UniqueCriterion,
};
use std::sync::Arc;
use vstd::prelude::*;

verus! {

/// The validated, immutable data model shared by every handle.
#[derive(Debug)]
pub struct InternalDataModel {
    pub schema: Arc<SchemaData>,
}

pub type InternalDataModelRef = InternalDataModel;

impl Clone for InternalDataModel {
    fn clone(&self) -> (r: Self)
        ensures
            r == *self,
    {
        InternalDataModel { schema: self.schema.clone() }
    }
}

impl InternalDataModel {
    /// The shared schema is internally consistent.
    pub open spec fn wf(self) -> bool {
        self.schema.wf()
    }
}

/// A lightweight handle on one schema entity: an id plus the shared schema.
#[derive(Debug)]
pub struct Cursor<I> {
    pub id: I,
    pub dm: InternalDataModel,
}

impl<I: Copy> Clone for Cursor<I> {
    fn clone(&self) -> (r: Self)
        ensures
            r == *self,
    {
        Cursor { id: self.id, dm: self.dm.clone() }
    }
}

impl<I: Copy> Cursor<I> {
    pub fn internal_data_model(&self) -> (r: &InternalDataModel)
        ensures
            r == self.dm,
    {
        &self.dm
    }

    /// A new handle on another entity of the same schema.
    pub(crate) fn refocus<J>(&self, id: J) -> (r: Cursor<J>)
        ensures
            r.id == id,
            r.dm == self.dm,
    {
        Cursor { id, dm: self.dm.clone() }
    }
}

// ---------------------------------------------------------------------------
// Spec-level table access shared by the entity handles.
// ---------------------------------------------------------------------------

pub open spec fn model_in_range(dm: InternalDataModel, mid: ModelId) -> bool {
    mid.0 < dm.schema.models@.len()
}

pub open spec fn model_def_of(dm: InternalDataModel, mid: ModelId) -> ModelDef
    recommends
        model_in_range(dm, mid),
{
    dm.schema.models@[mid.0 as int]
}

pub open spec fn model_field_in_range(dm: InternalDataModel, mid: ModelId, fid: FieldId) -> bool {
    model_in_range(dm, mid) && fid.0 < model_def_of(dm, mid).fields@.len()
}

pub open spec fn model_field_def_of(dm: InternalDataModel, mid: ModelId, fid: FieldId) -> FieldDef
    recommends
        model_field_in_range(dm, mid, fid),
{
    model_def_of(dm, mid).fields@[fid.0 as int]
}

// ---------------------------------------------------------------------------
// Validation: the executable check that establishes `SchemaData::wf`.
// ---------------------------------------------------------------------------

fn check_criterion(c: &UniqueCriterion, m: &ModelDef) -> (r: bool)
    ensures
        r == criterion_wf(*c, *m),
{
    if c.field_indices.len() == 0 {
        return false;
    }
    let mut i: usize = 0;
    while i < c.field_indices.len()
        invariant
            i <= c.field_indices@.len(),
            forall|j: int|
                0 <= j < i ==> c.field_indices@[j] < m.fields@.len() && m.fields@[#[trigger] c.field_indices@[j] as int] is Scalar,
        decreases c.field_indices@.len() - i,
    {
        let idx = c.field_indices[i];
        if idx >= m.fields.len() {
            return false;
        }
        match &m.fields[idx] {
            FieldDef::Scalar(_) => {},
            _ => {
                return false;
            },
        }
        i += 1;
    }
    true
}

fn check_field_ref(f: &FieldDef, s: &SchemaData) -> (r: bool)
    ensures
        r == field_ref_wf(*f, *s),
{
    match f {
        FieldDef::Scalar(sf) => match sf.field_type {
            ScalarFieldType::Enum(e) => e.0 < s.enums.len(),
            _ => true,
        },
        FieldDef::Relation(rf) => rf.relation.0 < s.relations.len(),
    }
}

fn check_model(m: &ModelDef, s: &SchemaData) -> (r: bool)
    ensures
        r == model_wf(*m, *s),
{
    let mut has_strict = false;
    let mut k: usize = 0;
    while k < m.unique_criteria.len()
        invariant
            k <= m.unique_criteria@.len(),
            has_strict == exists|j: int| 0 <= j < k && m.unique_criteria@[j].strict,
            forall|j: int| 0 <= j < k ==> criterion_wf(#[trigger] m.unique_criteria@[j], *m),
        decreases m.unique_criteria@.len() - k,
    {
        let c = &m.unique_criteria[k];
        if c.strict {
            has_strict = true;
        }
        if !check_criterion(c, m) {
            return false;
        }
        k += 1;
    }
    if !has_strict {
        return false;
    }
    let mut i: usize = 0;
    while i < m.fields.len()
        invariant
            i <= m.fields@.len(),
            exists|j: int| 0 <= j < m.unique_criteria@.len() && m.unique_criteria@[j].strict,
            forall|j: int|
                0 <= j < m.unique_criteria@.len() ==> criterion_wf(
                    #[trigger] m.unique_criteria@[j],
                    *m,
                ),
            forall|j: int| 0 <= j < i ==> field_ref_wf(#[trigger] m.fields@[j], *s),
        decreases m.fields@.len() - i,
    {
        if !check_field_ref(&m.fields[i], s) {
            return false;
        }
        i += 1;
    }
    true
}

fn check_relation_back(s: &SchemaData, m: usize, i: usize) -> (b: bool)
    requires
        m < s.models@.len(),
        i < s.models@[m as int].fields@.len(),
    ensures
        b == relation_back_wf(*s, m as int, i as int),
{
    match &s.models[m].fields[i] {
        FieldDef::Relation(rf) => {
            if rf.relation.0 >= s.relations.len() {
                return false;
            }
            let rel = &s.relations[rf.relation.0];
            match rf.side {
                RelationSide::A => rel.model_a.0 == m && rel.field_a.0 == i,
                RelationSide::B => rel.model_b.0 == m && rel.field_b.0 == i,
            }
        },
        FieldDef::Scalar(_) => true,
    }
}

fn check_relation_side(s: &SchemaData, r: usize, mid: ModelId, fid: FieldId, side: RelationSide) -> (b:
    bool)
    ensures
        b == relation_side_wf(*s, r as int, mid, fid, side),
{
    if mid.0 >= s.models.len() {
        return false;
    }
    if fid.0 >= s.models[mid.0].fields.len() {
        return false;
    }
    match &s.models[mid.0].fields[fid.0] {
        FieldDef::Relation(rf) => rf.relation.0 == r && rf.side == side,
        _ => false,
    }
}

fn check_relation(s: &SchemaData, r: usize) -> (b: bool)
    requires
        r < s.relations@.len(),
    ensures
        b == relation_wf(*s, r as int),
{
    let rel = &s.relations[r];
    if !check_relation_side(s, r, rel.model_a, rel.field_a, RelationSide::A) {
        return false;
    }
    if !check_relation_side(s, r, rel.model_b, rel.field_b, RelationSide::B) {
        return false;
    }
    match &rel.manifestation {
        RelationLinkManifestation::Inline(_) => {
            let fk_a = match &s.models[rel.model_a.0].fields[rel.field_a.0] {
                FieldDef::Relation(rf) => rf.fk_field_names.len(),
                _ => 0,
            };
            let fk_b = match &s.models[rel.model_b.0].fields[rel.field_b.0] {
                FieldDef::Relation(rf) => rf.fk_field_names.len(),
                _ => 0,
            };
            fk_a > 0 || fk_b > 0
        },
        RelationLinkManifestation::RelationTable(_) => true,
    }
}

fn check_member_ref(f: &CompositeMemberDef, s: &SchemaData) -> (r: bool)
    ensures
        r == member_ref_wf(*f, *s),
{
    match f.member_type {
        CompositeMemberType::Enum(e) => e.0 < s.enums.len(),
        CompositeMemberType::Composite(c) => c.0 < s.composite_types.len(),
        CompositeMemberType::Scalar(_) => true,
    }
}

/// Whether the schema's internal references are all consistent.
pub fn validate_schema(s: &SchemaData) -> (r: bool)
    ensures
        r == s.wf(),
{
    let mut m: usize = 0;
    while m < s.models.len()
        invariant
            m <= s.models@.len(),
            forall|j: int| 0 <= j < m ==> model_wf(#[trigger] s.models@[j], *s),
        decreases s.models@.len() - m,
    {
        if !check_model(&s.models[m], s) {
            return false;
        }
        m += 1;
    }
    let mut m: usize = 0;
    while m < s.models.len()
        invariant
            m <= s.models@.len(),
            forall|j: int| 0 <= j < s.models@.len() ==> model_wf(#[trigger] s.models@[j], *s),
            forall|j: int, i: int|
                0 <= j < m && 0 <= i < s.models@[j].fields@.len() ==> relation_back_wf(*s, j, i),
        decreases s.models@.len() - m,
    {
        let fields_len = s.models[m].fields.len();
        let mut i: usize = 0;
        while i < fields_len
            invariant
                m < s.models@.len(),
                fields_len == s.models@[m as int].fields@.len(),
                i <= fields_len,
                forall|k: int| 0 <= k < i ==> relation_back_wf(*s, m as int, k),
            decreases fields_len - i,
        {
            if !check_relation_back(s, m, i) {
                return false;
            }
            i += 1;
        }
        m += 1;
    }
    let mut r: usize = 0;
    while r < s.relations.len()
        invariant
            r <= s.relations@.len(),
            forall|j: int| 0 <= j < s.models@.len() ==> model_wf(#[trigger] s.models@[j], *s),
            forall|j: int, i: int|
                0 <= j < s.models@.len() && 0 <= i < s.models@[j].fields@.len()
                    ==> relation_back_wf(*s, j, i),
            forall|j: int| 0 <= j < r ==> relation_wf(*s, j),
        decreases s.relations@.len() - r,
    {
        if !check_relation(s, r) {
            return false;
        }
        r += 1;
    }
    let mut c: usize = 0;
    while c < s.composite_types.len()
        invariant
            c <= s.composite_types@.len(),
            forall|j: int| 0 <= j < s.models@.len() ==> model_wf(#[trigger] s.models@[j], *s),
            forall|j: int, i: int|
                0 <= j < s.models@.len() && 0 <= i < s.models@[j].fields@.len()
                    ==> relation_back_wf(*s, j, i),
            forall|j: int| 0 <= j < s.relations@.len() ==> relation_wf(*s, j),
            forall|j: int, i: int|
                0 <= j < c && 0 <= i < s.composite_types@[j].fields@.len() ==> member_ref_wf(
                    #[trigger] s.composite_types@[j].fields@[i],
                    *s,
                ),
        decreases s.composite_types@.len() - c,
    {
        let ct = &s.composite_types[c];
        let mut i: usize = 0;
        while i < ct.fields.len()
            invariant
                i <= ct.fields@.len(),
                ct == s.composite_types@[c as int],
                c < s.composite_types@.len(),
                forall|k: int| 0 <= k < i ==> member_ref_wf(#[trigger] ct.fields@[k], *s),
            decreases ct.fields@.len() - i,
        {
            if !check_member_ref(&ct.fields[i], s) {
                return false;
            }
            i += 1;
        }
        c += 1;
    }
    true
}

/// Wraps a schema in the shared data-model handle after validating it; an
/// inconsistent schema is rejected rather than handed out.
pub fn convert(schema: Arc<SchemaData>) -> (r: Option<InternalDataModel>)
    ensures
        r matches Some(dm) ==> dm.wf() && dm.schema == schema,
        r is None ==> !schema.wf(),
{
    if validate_schema(&schema) {
        Some(InternalDataModel { schema })
    } else {
        None
    }
}

} // verus!
