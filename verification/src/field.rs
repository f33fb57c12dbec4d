//! Field handles: scalar, relation and composite fields, and the containers
//! they live in.
//!
//! A field handle is a cursor on (container id, field id); every derived
//! query is answered from the shared schema's tables on demand. The closed
//! field union is matched exhaustively at each call site.

use crate::cursor::{
    model_def_of, model_field_def_of, model_field_in_range, model_in_range, Cursor,
    InternalDataModel,
};
use crate::internal_enum::InternalEnum;
use crate::parent_container::ParentContainer;
use crate::schema::{
    CompositeMemberDef, CompositeTypeId, EnumId, FieldArity, FieldDef, FieldId, ModelDef, ModelId,
    RelationId, RelationSide, ScalarFieldDef, ScalarFieldType, ScalarKind, TypeIdentifier,
};
use vstd::prelude::*;

verus! {

// ---------------------------------------------------------------------------
// Name-directed lookup in a model's field table (first match wins).
// ---------------------------------------------------------------------------

/// The client-facing name of a model field definition.
pub open spec fn field_def_name(f: FieldDef) -> Seq<char> {
    match f {
        FieldDef::Scalar(sf) => sf.name@,
        FieldDef::Relation(rf) => rf.name@,
    }
}

/// Index of the first field of `m` with the given name.
pub open spec fn find_field_idx_from(m: ModelDef, name: Seq<char>, i: int) -> Option<int>
    decreases m.fields@.len() - i,
{
    if i < 0 || i >= m.fields@.len() {
        None
    } else if field_def_name(m.fields@[i]) == name {
        Some(i)
    } else {
        find_field_idx_from(m, name, i + 1)
    }
}

pub open spec fn find_field_idx(m: ModelDef, name: Seq<char>) -> Option<int> {
    find_field_idx_from(m, name, 0)
}

/// Index of the first scalar field of `m` with the given name.
pub open spec fn find_scalar_idx_from(m: ModelDef, name: Seq<char>, i: int) -> Option<int>
    decreases m.fields@.len() - i,
{
    if i < 0 || i >= m.fields@.len() {
        None
    } else if m.fields@[i] is Scalar && field_def_name(m.fields@[i]) == name {
        Some(i)
    } else {
        find_scalar_idx_from(m, name, i + 1)
    }
}

pub open spec fn find_scalar_idx(m: ModelDef, name: Seq<char>) -> Option<int> {
    find_scalar_idx_from(m, name, 0)
}

// ---------------------------------------------------------------------------
// Scalar fields.
// ---------------------------------------------------------------------------

/// Handle on one scalar field of a model.
#[derive(Debug)]
pub struct ScalarField(pub Cursor<(ModelId, FieldId)>);

pub type ScalarFieldRef = ScalarField;
pub type ScalarFieldWeak = ScalarField;

impl Clone for ScalarField {
    fn clone(&self) -> (r: Self)
        ensures
            r == *self,
    {
        ScalarField(self.0.clone())
    }
}

/// The database name of a scalar field: its mapped name when one was given,
/// its client-facing name otherwise.
pub open spec fn scalar_db_name(sf: ScalarFieldDef) -> Seq<char> {
    match sf.mapped_name {
        Some(n) => n@,
        None => sf.name@,
    }
}

/// The engine-level type identifier of a scalar field definition.
pub open spec fn spec_type_identifier(dm: InternalDataModel, sf: ScalarFieldDef) -> TypeIdentifier {
    match sf.field_type {
        ScalarFieldType::BuiltIn(k) => builtin_type_identifier(k),
        ScalarFieldType::Enum(e) => TypeIdentifier::Enum(dm.schema.enums@[e.0 as int].name),
        ScalarFieldType::Unsupported => TypeIdentifier::Unsupported,
    }
}

pub open spec fn builtin_type_identifier(k: ScalarKind) -> TypeIdentifier {
    match k {
        ScalarKind::String => TypeIdentifier::String,
        ScalarKind::Int => TypeIdentifier::Int,
        ScalarKind::BigInt => TypeIdentifier::BigInt,
        ScalarKind::Float => TypeIdentifier::Float,
        ScalarKind::Boolean => TypeIdentifier::Boolean,
        ScalarKind::DateTime => TypeIdentifier::DateTime,
        ScalarKind::Json => TypeIdentifier::Json,
        ScalarKind::Decimal => TypeIdentifier::Decimal,
        ScalarKind::Bytes => TypeIdentifier::Bytes,
    }
}

impl ScalarField {
    /// The handle addresses a scalar field of a well-formed schema.
    pub open spec fn valid(self) -> bool {
        &&& self.0.dm.wf()
        &&& model_field_in_range(self.0.dm, self.0.id.0, self.0.id.1)
        &&& model_field_def_of(self.0.dm, self.0.id.0, self.0.id.1) is Scalar
    }

    pub open spec fn def(self) -> ScalarFieldDef {
        model_field_def_of(self.0.dm, self.0.id.0, self.0.id.1)->Scalar_0
    }

    pub open spec fn model_id(self) -> ModelId {
        self.0.id.0
    }

    pub fn internal_data_model(&self) -> (r: &InternalDataModel)
        ensures
            r == self.0.dm,
    {
        self.0.internal_data_model()
    }

    /// Borrow of this field's definition row.
    fn def_ref<'a>(&'a self) -> (r: &'a ScalarFieldDef)
        requires
            self.valid(),
        ensures
            *r == self.def(),
    {
        match &self.0.dm.schema.models[self.0.id.0.0].fields[self.0.id.1.0] {
            FieldDef::Scalar(sf) => sf,
            FieldDef::Relation(_) => vstd::pervasive::unreached(),
        }
    }

    pub fn name(&self) -> (r: &str)
        requires
            self.valid(),
        ensures
            r@ == self.def().name@,
    {
        self.def_ref().name.as_str()
    }

    pub fn db_name(&self) -> (r: &str)
        requires
            self.valid(),
        ensures
            r@ == scalar_db_name(self.def()),
    {
        let d = self.def_ref();
        match &d.mapped_name {
            Some(n) => n.as_str(),
            None => d.name.as_str(),
        }
    }

    pub fn arity(&self) -> (r: FieldArity)
        requires
            self.valid(),
        ensures
            r == self.def().arity,
    {
        self.def_ref().arity
    }

    pub fn is_id(&self) -> (r: bool)
        requires
            self.valid(),
        ensures
            r == self.def().is_single_pk,
    {
        self.def_ref().is_single_pk
    }

    pub fn is_list(&self) -> (r: bool)
        requires
            self.valid(),
        ensures
            r == (self.def().arity == FieldArity::List),
    {
        self.def_ref().arity.is_list()
    }

    pub fn is_required(&self) -> (r: bool)
        requires
            self.valid(),
        ensures
            r == (self.def().arity == FieldArity::Required),
    {
        self.def_ref().arity.is_required()
    }

    pub fn unique(&self) -> (r: bool)
        requires
            self.valid(),
        ensures
            r == self.def().is_unique,
    {
        self.def_ref().is_unique
    }

    pub fn is_updated_at(&self) -> (r: bool)
        requires
            self.valid(),
        ensures
            r == self.def().is_updated_at,
    {
        self.def_ref().is_updated_at
    }

    pub fn is_autoincrement(&self) -> (r: bool)
        requires
            self.valid(),
        ensures
            r == self.def().is_autoincrement,
    {
        self.def_ref().is_autoincrement
    }

    pub fn is_auto_generated_int_id(&self) -> (r: bool)
        requires
            self.valid(),
        ensures
            r == (self.def().is_autoincrement && self.def().is_single_pk),
    {
        let d = self.def_ref();
        d.is_autoincrement && d.is_single_pk
    }

    pub fn has_default(&self) -> (r: bool)
        requires
            self.valid(),
        ensures
            r == self.def().has_default,
    {
        self.def_ref().has_default
    }

    pub fn type_identifier(&self) -> (r: TypeIdentifier)
        requires
            self.valid(),
        ensures
            r == spec_type_identifier(self.0.dm, self.def()),
    {
        proof {
            assert(crate::schema::model_wf(
                self.0.dm.schema.models@[self.0.id.0.0 as int],
                *self.0.dm.schema,
            ));
            assert(crate::schema::field_ref_wf(
                self.0.dm.schema.models@[self.0.id.0.0 as int].fields@[self.0.id.1.0 as int],
                *self.0.dm.schema,
            ));
        }
        let d = self.def_ref();
        match &d.field_type {
            ScalarFieldType::BuiltIn(k) => match k {
                ScalarKind::String => TypeIdentifier::String,
                ScalarKind::Int => TypeIdentifier::Int,
                ScalarKind::BigInt => TypeIdentifier::BigInt,
                ScalarKind::Float => TypeIdentifier::Float,
                ScalarKind::Boolean => TypeIdentifier::Boolean,
                ScalarKind::DateTime => TypeIdentifier::DateTime,
                ScalarKind::Json => TypeIdentifier::Json,
                ScalarKind::Decimal => TypeIdentifier::Decimal,
                ScalarKind::Bytes => TypeIdentifier::Bytes,
            },
            ScalarFieldType::Enum(e) => TypeIdentifier::Enum(
                self.0.dm.schema.enums[e.0].name.clone(),
            ),
            ScalarFieldType::Unsupported => TypeIdentifier::Unsupported,
        }
    }

    pub fn type_identifier_with_arity(&self) -> (r: (TypeIdentifier, FieldArity))
        requires
            self.valid(),
        ensures
            r.0 == spec_type_identifier(self.0.dm, self.def()),
            r.1 == self.def().arity,
    {
        (self.type_identifier(), self.arity())
    }

    pub fn container(&self) -> (r: ParentContainer)
        requires
            self.valid(),
        ensures
            r matches ParentContainer::Model(m) && m.id == self.0.id.0 && m.dm == self.0.dm,
    {
        ParentContainer::Model(self.0.refocus(self.0.id.0))
    }

    /// The enum this field draws its values from, if it is enum-typed.
    pub fn internal_enum(&self) -> (r: Option<InternalEnum>)
        requires
            self.valid(),
        ensures
            match self.def().field_type {
                ScalarFieldType::Enum(e) => r matches Some(en) && en.id == e && en.dm == self.0.dm,
                _ => r is None,
            },
    {
        match &self.def_ref().field_type {
            ScalarFieldType::Enum(e) => Some(self.0.refocus(*e)),
            _ => None,
        }
    }
}

// ---------------------------------------------------------------------------
// Relation fields.
// ---------------------------------------------------------------------------

/// Handle on one relation field of a model.
#[derive(Debug)]
pub struct RelationField(pub Cursor<(ModelId, FieldId)>);

pub type RelationFieldRef = RelationField;
pub type RelationFieldWeak = RelationField;

impl Clone for RelationField {
    fn clone(&self) -> (r: Self)
        ensures
            r == *self,
    {
        RelationField(self.0.clone())
    }
}

/// The scalar-field handles for the foreign-key names of a relation field,
/// in declared order; a name with no matching scalar field is passed over.
pub open spec fn resolve_fk_handles(
    dm: InternalDataModel,
    mid: ModelId,
    names: Seq<String>,
) -> Seq<ScalarField>
    decreases names.len(),
{
    if names.len() == 0 {
        Seq::empty()
    } else {
        resolve_fk_handles(dm, mid, names.drop_last()) + (
        match find_scalar_idx(model_def_of(dm, mid), names.last()@) {
            Some(i) => seq![ScalarField(Cursor { id: (mid, FieldId(i as usize)), dm })],
            None => Seq::empty(),
        })
    }
}

impl RelationField {
    /// The handle addresses a relation field of a well-formed schema.
    pub open spec fn valid(self) -> bool {
        &&& self.0.dm.wf()
        &&& model_field_in_range(self.0.dm, self.0.id.0, self.0.id.1)
        &&& model_field_def_of(self.0.dm, self.0.id.0, self.0.id.1) is Relation
    }

    pub open spec fn def(self) -> crate::schema::RelationFieldDef {
        model_field_def_of(self.0.dm, self.0.id.0, self.0.id.1)->Relation_0
    }

    pub open spec fn model_id(self) -> ModelId {
        self.0.id.0
    }

    /// The relation's table row this field takes part in.
    pub open spec fn relation_def(self) -> crate::schema::RelationDef {
        self.0.dm.schema.relations@[self.def().relation.0 as int]
    }

    /// Borrow of this field's definition row.
    fn def_ref<'a>(&'a self) -> (r: &'a crate::schema::RelationFieldDef)
        requires
            self.valid(),
        ensures
            *r == self.def(),
    {
        match &self.0.dm.schema.models[self.0.id.0.0].fields[self.0.id.1.0] {
            FieldDef::Relation(rf) => rf,
            FieldDef::Scalar(_) => vstd::pervasive::unreached(),
        }
    }

    proof fn lemma_relation_valid(self)
        requires
            self.valid(),
        ensures
            self.def().relation.0 < self.0.dm.schema.relations@.len(),
            crate::schema::relation_wf(*self.0.dm.schema, self.def().relation.0 as int),
    {
        assert(crate::schema::model_wf(
            self.0.dm.schema.models@[self.0.id.0.0 as int],
            *self.0.dm.schema,
        ));
        assert(crate::schema::field_ref_wf(
            self.0.dm.schema.models@[self.0.id.0.0 as int].fields@[self.0.id.1.0 as int],
            *self.0.dm.schema,
        ));
    }

    pub fn name(&self) -> (r: &str)
        requires
            self.valid(),
        ensures
            r@ == self.def().name@,
    {
        self.def_ref().name.as_str()
    }

    pub fn arity(&self) -> (r: FieldArity)
        requires
            self.valid(),
        ensures
            r == self.def().arity,
    {
        self.def_ref().arity
    }

    pub fn is_list(&self) -> (r: bool)
        requires
            self.valid(),
        ensures
            r == (self.def().arity == FieldArity::List),
    {
        self.def_ref().arity.is_list()
    }

    pub fn is_required(&self) -> (r: bool)
        requires
            self.valid(),
        ensures
            r == (self.def().arity == FieldArity::Required),
    {
        self.def_ref().arity.is_required()
    }

    pub fn is_optional(&self) -> (r: bool)
        requires
            self.valid(),
        ensures
            r == (self.def().arity != FieldArity::Required),
    {
        !self.is_required()
    }

    pub fn side(&self) -> (r: RelationSide)
        requires
            self.valid(),
        ensures
            r == self.def().side,
    {
        self.def_ref().side
    }

    pub fn model(&self) -> (r: crate::model::Model)
        requires
            self.valid(),
        ensures
            r.id == self.0.id.0,
            r.dm == self.0.dm,
    {
        self.0.refocus(self.0.id.0)
    }

    pub fn relation(&self) -> (r: crate::relation::Relation)
        requires
            self.valid(),
        ensures
            r.id == self.def().relation,
            r.dm == self.0.dm,
            r.id.0 < self.0.dm.schema.relations@.len(),
    {
        proof {
            self.lemma_relation_valid();
        }
        let id = self.def_ref().relation;
        self.0.refocus(id)
    }

    /// Spec-level address of the relation field on the other side of this
    /// field's relation, resolved through the shared relation table.
    pub open spec fn opposite_address(self) -> (ModelId, FieldId) {
        if self.def().side == RelationSide::A {
            (self.relation_def().model_b, self.relation_def().field_b)
        } else {
            (self.relation_def().model_a, self.relation_def().field_a)
        }
    }

    pub fn related_model(&self) -> (r: crate::model::Model)
        requires
            self.valid(),
        ensures
            r.id == self.opposite_address().0,
            r.dm == self.0.dm,
            model_in_range(self.0.dm, r.id),
    {
        proof {
            self.lemma_relation_valid();
        }
        let rel = &self.0.dm.schema.relations[self.def_ref().relation.0];
        let mid = match self.def_ref().side {
            RelationSide::A => rel.model_b,
            RelationSide::B => rel.model_a,
        };
        self.0.refocus(mid)
    }

    /// The relation field on the other side of the same relation, found by
    /// an id-based lookup through the shared schema rather than a stored
    /// pointer between the two field handles. The lookup is an involution:
    /// the other side's other side is this field again.
    pub fn related_field(&self) -> (r: RelationField)
        requires
            self.valid(),
        ensures
            r.0.dm == self.0.dm,
            r.0.id == self.opposite_address(),
            r.valid(),
            r.def().relation == self.def().relation,
            r.def().side == if self.def().side == RelationSide::A {
                RelationSide::B
            } else {
                RelationSide::A
            },
            r.opposite_address() == self.0.id,
    {
        proof {
            self.lemma_relation_valid();
            assert(crate::schema::relation_back_wf(
                *self.0.dm.schema,
                self.0.id.0.0 as int,
                self.0.id.1.0 as int,
            ));
        }
        let rel = &self.0.dm.schema.relations[self.def_ref().relation.0];
        let addr = match self.def_ref().side {
            RelationSide::A => (rel.model_b, rel.field_b),
            RelationSide::B => (rel.model_a, rel.field_a),
        };
        RelationField(self.0.refocus(addr))
    }

    /// The scalar fields on this model that hold the relation's foreign key.
    pub fn scalar_fields(&self) -> (r: Vec<ScalarField>)
        requires
            self.valid(),
        ensures
            r@ == resolve_fk_handles(self.0.dm, self.0.id.0, self.def().fk_field_names@),
    {
        let names = &self.def_ref().fk_field_names;
        let mut out: Vec<ScalarField> = Vec::new();
        let mut i: usize = 0;
        while i < names.len()
            invariant
                i <= names@.len(),
                self.valid(),
                *names == self.def().fk_field_names,
                out@ == resolve_fk_handles(self.0.dm, self.0.id.0, names@.subrange(0, i as int)),
            decreases names@.len() - i,
        {
            proof {
                assert(names@.subrange(0, i + 1).drop_last() =~= names@.subrange(0, i as int));
                assert(names@.subrange(0, i + 1).last() == names@[i as int]);
            }
            match find_scalar_in_model(&self.0.dm, self.0.id.0, &names[i]) {
                Some(fid) => {
                    out.push(ScalarField(self.0.refocus((self.0.id.0, fid))));
                },
                None => {},
            }
            i += 1;
        }
        proof {
            assert(names@.subrange(0, names@.len() as int) =~= names@);
        }
        out
    }
}

/// First scalar field of the model with the given name, as a field id.
pub fn find_scalar_in_model(dm: &InternalDataModel, mid: ModelId, name: &String) -> (r: Option<
    FieldId,
>)
    requires
        model_in_range(*dm, mid),
    ensures
        match find_scalar_idx(model_def_of(*dm, mid), name@) {
            Some(i) => r matches Some(f) && f.0 == i,
            None => r is None,
        },
{
    let m = &dm.schema.models[mid.0];
    let mut i: usize = 0;
    while i < m.fields.len()
        invariant
            i <= m.fields@.len(),
            model_in_range(*dm, mid),
            *m == model_def_of(*dm, mid),
            find_scalar_idx(*m, name@) == find_scalar_idx_from(*m, name@, i as int),
        decreases m.fields@.len() - i,
    {
        let is_match = match &m.fields[i] {
            FieldDef::Scalar(sf) => sf.name == *name,
            FieldDef::Relation(_) => false,
        };
        if is_match {
            proof {
                assert(find_scalar_idx_from(*m, name@, i as int) == Some(i as int));
            }
            return Some(FieldId(i));
        }
        proof {
            assert(find_scalar_idx_from(*m, name@, i as int) == find_scalar_idx_from(
                *m,
                name@,
                i as int + 1,
            ));
        }
        i += 1;
    }
    proof {
        assert(find_scalar_idx_from(*m, name@, i as int) is None);
    }
    None
}

// ---------------------------------------------------------------------------
// Composite fields (members of composite types).
// ---------------------------------------------------------------------------

/// Handle on one member of a composite type.
pub type CompositeField = Cursor<(CompositeTypeId, FieldId)>;

pub type CompositeFieldRef = CompositeField;
pub type CompositeFieldWeak = CompositeField;

impl CompositeField {
    pub open spec fn valid(self) -> bool {
        self.dm.wf() && crate::composite_type::member_in_range(self.dm, self.id.0, self.id.1)
    }

    pub open spec fn def(self) -> CompositeMemberDef {
        crate::composite_type::member_def_of(self.dm, self.id.0, self.id.1)
    }

    fn def_ref<'a>(&'a self) -> (r: &'a CompositeMemberDef)
        requires
            self.valid(),
        ensures
            *r == self.def(),
    {
        &self.dm.schema.composite_types[self.id.0.0].fields[self.id.1.0]
    }

    pub fn name(&self) -> (r: &str)
        requires
            self.valid(),
        ensures
            r@ == self.def().name@,
    {
        self.def_ref().name.as_str()
    }

    pub fn is_list(&self) -> (r: bool)
        requires
            self.valid(),
        ensures
            r == (self.def().arity == FieldArity::List),
    {
        self.def_ref().arity.is_list()
    }

    pub fn is_required(&self) -> (r: bool)
        requires
            self.valid(),
        ensures
            r == (self.def().arity == FieldArity::Required),
    {
        self.def_ref().arity.is_required()
    }

    pub fn is_optional(&self) -> (r: bool)
        requires
            self.valid(),
        ensures
            r == (self.def().arity == FieldArity::Optional),
    {
        self.def_ref().arity.is_optional()
    }

    pub fn db_name(&self) -> (r: &str)
        requires
            self.valid(),
        ensures
            r@ == crate::composite_type::member_db_name(self.def()),
    {
        let d = self.def_ref();
        match &d.mapped_name {
            Some(n) => n.as_str(),
            None => d.name.as_str(),
        }
    }

    /// The composite type this member belongs to.
    pub fn composite_type(&self) -> (r: crate::composite_type::CompositeType)
        requires
            self.valid(),
        ensures
            r.id == self.id.0,
            r.dm == self.dm,
    {
        self.refocus(self.id.0)
    }

    pub fn container(&self) -> (r: crate::parent_container::ParentContainer)
        requires
            self.valid(),
        ensures
            r matches crate::parent_container::ParentContainer::CompositeType(ct) && ct.id
                == self.id.0 && ct.dm == self.dm,
    {
        crate::parent_container::ParentContainer::CompositeType(self.composite_type())
    }
}

// ---------------------------------------------------------------------------
// The closed field union.
// ---------------------------------------------------------------------------

/// A field of a model or a composite type, matched exhaustively at each
/// call site.
#[derive(Debug)]
pub enum Field {
    Scalar(ScalarField),
    Relation(RelationField),
    Composite(CompositeField),
}

pub type FieldWeak = Field;

impl Clone for Field {
    fn clone(&self) -> (r: Self)
        ensures
            r == *self,
    {
        match self {
            Field::Scalar(sf) => Field::Scalar(sf.clone()),
            Field::Relation(rf) => Field::Relation(rf.clone()),
            Field::Composite(cf) => Field::Composite(cf.clone()),
        }
    }
}

/// The field handle for index `i` of a model's field table.
pub open spec fn model_field_handle(dm: InternalDataModel, mid: ModelId, i: int) -> Field {
    match model_def_of(dm, mid).fields@[i] {
        FieldDef::Scalar(_) => Field::Scalar(
            ScalarField(Cursor { id: (mid, FieldId(i as usize)), dm }),
        ),
        FieldDef::Relation(_) => Field::Relation(
            RelationField(Cursor { id: (mid, FieldId(i as usize)), dm }),
        ),
    }
}

impl Field {
    pub open spec fn valid(self) -> bool {
        match self {
            Field::Scalar(sf) => sf.valid(),
            Field::Relation(rf) => rf.valid(),
            Field::Composite(cf) => cf.valid(),
        }
    }

    /// The client-facing name of the field.
    pub open spec fn spec_name(self) -> Seq<char> {
        match self {
            Field::Scalar(sf) => sf.def().name@,
            Field::Relation(rf) => rf.def().name@,
            Field::Composite(cf) => cf.def().name@,
        }
    }

    pub fn name(&self) -> (r: &str)
        requires
            self.valid(),
        ensures
            r@ == self.spec_name(),
    {
        match self {
            Field::Scalar(sf) => sf.name(),
            Field::Relation(rf) => rf.name(),
            Field::Composite(cf) => cf.name(),
        }
    }

    /// The database name: a relation field has none of its own and answers
    /// with its client-facing name.
    pub fn db_name(&self) -> (r: &str)
        requires
            self.valid(),
        ensures
            r@ == match *self {
                Field::Scalar(sf) => scalar_db_name(sf.def()),
                Field::Relation(rf) => rf.def().name@,
                Field::Composite(cf) => crate::composite_type::member_db_name(cf.def()),
            },
    {
        match self {
            Field::Scalar(sf) => sf.db_name(),
            Field::Relation(rf) => rf.name(),
            Field::Composite(cf) => cf.db_name(),
        }
    }

    pub fn is_scalar(&self) -> (r: bool)
        ensures
            r == (*self is Scalar),
    {
        matches!(self, Field::Scalar(_))
    }

    pub fn is_relation(&self) -> (r: bool)
        ensures
            r == (*self is Relation),
    {
        matches!(self, Field::Relation(_))
    }

    pub fn is_composite(&self) -> (r: bool)
        ensures
            r == (*self is Composite),
    {
        matches!(self, Field::Composite(_))
    }

    pub fn into_scalar(self) -> (r: Option<ScalarFieldRef>)
        ensures
            match self {
                Field::Scalar(sf) => r == Some::<ScalarFieldRef>(sf),
                _ => r is None,
            },
    {
        match self {
            Field::Scalar(sf) => Some(sf),
            _ => None,
        }
    }

    pub fn try_into_scalar(self) -> (r: Option<ScalarFieldRef>)
        ensures
            match self {
                Field::Scalar(sf) => r == Some::<ScalarFieldRef>(sf),
                _ => r is None,
            },
    {
        match self {
            Field::Scalar(scalar) => Some(scalar),
            _ => None,
        }
    }

    pub fn is_id(&self) -> (r: bool)
        requires
            self.valid(),
        ensures
            r == match *self {
                Field::Scalar(sf) => sf.def().is_single_pk,
                _ => false,
            },
    {
        match self {
            Field::Scalar(sf) => sf.is_id(),
            Field::Relation(_) => false,
            Field::Composite(_) => false,
        }
    }

    pub fn is_list(&self) -> (r: bool)
        requires
            self.valid(),
        ensures
            r == match *self {
                Field::Scalar(sf) => sf.def().arity == FieldArity::List,
                Field::Relation(rf) => rf.def().arity == FieldArity::List,
                Field::Composite(cf) => cf.def().arity == FieldArity::List,
            },
    {
        match self {
            Field::Scalar(sf) => sf.is_list(),
            Field::Relation(rf) => rf.is_list(),
            Field::Composite(cf) => cf.is_list(),
        }
    }

    pub fn is_required(&self) -> (r: bool)
        requires
            self.valid(),
        ensures
            r == match *self {
                Field::Scalar(sf) => sf.def().arity == FieldArity::Required,
                Field::Relation(rf) => rf.def().arity == FieldArity::Required,
                Field::Composite(cf) => cf.def().arity == FieldArity::Required,
            },
    {
        match self {
            Field::Scalar(sf) => sf.is_required(),
            Field::Relation(rf) => rf.is_required(),
            Field::Composite(cf) => cf.is_required(),
        }
    }

    pub fn is_unique(&self) -> (r: bool)
        requires
            self.valid(),
        ensures
            r == match *self {
                Field::Scalar(sf) => sf.def().is_unique,
                _ => false,
            },
    {
        match self {
            Field::Scalar(sf) => sf.unique(),
            Field::Relation(_) => false,
            Field::Composite(_) => false,
        }
    }

    /// The container of the field, where that container is a model.
    pub fn parent(&self) -> (r: crate::parent_container::ParentContainer)
        requires
            self.valid(),
        ensures
            match *self {
                Field::Scalar(sf) => r matches crate::parent_container::ParentContainer::Model(m)
                    && m.id == sf.0.id.0 && m.dm == sf.0.dm,
                Field::Relation(rf) => r matches crate::parent_container::ParentContainer::Model(m)
                    && m.id == rf.0.id.0 && m.dm == rf.0.dm,
                Field::Composite(cf) => r matches crate::parent_container::ParentContainer::CompositeType(
                    ct,
                ) && ct.id == cf.id.0 && ct.dm == cf.dm,
            },
    {
        match self {
            Field::Scalar(s) => s.container(),
            Field::Relation(r) => crate::parent_container::ParentContainer::Model(r.model()),
            Field::Composite(c) => c.container(),
        }
    }

    pub fn model(&self) -> (r: Option<crate::model::Model>)
        requires
            self.valid(),
        ensures
            match *self {
                Field::Scalar(sf) => r matches Some(m) && m.id == sf.0.id.0 && m.dm == sf.0.dm,
                Field::Relation(rf) => r matches Some(m) && m.id == rf.0.id.0 && m.dm == rf.0.dm,
                Field::Composite(_) => r is None,
            },
    {
        match self {
            Field::Scalar(sf) => Some(sf.0.refocus(sf.0.id.0)),
            Field::Relation(rf) => Some(rf.model()),
            Field::Composite(_) => None,
        }
    }

    pub fn as_composite(&self) -> (r: Option<&CompositeFieldRef>)
        ensures
            match *self {
                Field::Composite(cf) => r matches Some(c) && *c == cf,
                _ => r is None,
            },
    {
        if let Field::Composite(v) = self {
            Some(v)
        } else {
            None
        }
    }

    pub fn as_scalar(&self) -> (r: Option<&ScalarFieldRef>)
        ensures
            match *self {
                Field::Scalar(sf) => r matches Some(s) && *s == sf,
                _ => r is None,
            },
    {
        if let Field::Scalar(v) = self {
            Some(v)
        } else {
            None
        }
    }
}

/// First field of the model (of any kind) with the given name.
pub fn find_field_in_model(dm: &InternalDataModel, mid: ModelId, name: &String) -> (r: Option<
    FieldId,
>)
    requires
        model_in_range(*dm, mid),
    ensures
        match find_field_idx(model_def_of(*dm, mid), name@) {
            Some(i) => r matches Some(f) && f.0 == i,
            None => r is None,
        },
{
    let m = &dm.schema.models[mid.0];
    let mut i: usize = 0;
    while i < m.fields.len()
        invariant
            i <= m.fields@.len(),
            model_in_range(*dm, mid),
            *m == model_def_of(*dm, mid),
            find_field_idx(*m, name@) == find_field_idx_from(*m, name@, i as int),
        decreases m.fields@.len() - i,
    {
        let matches_name = match &m.fields[i] {
            FieldDef::Scalar(sf) => sf.name == *name,
            FieldDef::Relation(rf) => rf.name == *name,
        };
        if matches_name {
            proof {
                assert(find_field_idx_from(*m, name@, i as int) == Some(i as int));
            }
            return Some(FieldId(i));
        }
        proof {
            assert(find_field_idx_from(*m, name@, i as int) == find_field_idx_from(
                *m,
                name@,
                i as int + 1,
            ));
        }
        i += 1;
    }
    proof {
        assert(find_field_idx_from(*m, name@, i as int) is None);
    }
    None
}

} // verus!

