//! Schema-addressed data model layer.
//!
//! One immutable, validated schema is shared by every handle derived from it.
//! Entities (models, fields, relations, enums, composite types) are addressed
//! through plain integer identifiers into the schema's tables; a `Cursor` is
//! a lightweight handle pairing such an identifier with a shared reference to
//! the schema. An identifier is valid only relative to the exact schema it
//! was produced from; handles are never compared across two schemas.

use vstd::prelude::*;
use vstd::string::StringExecFns;

verus! {

/// Arity of a field: exactly one value, an optional value, or a list.
#[derive(Clone, Copy, Debug, PartialEq, Eq, Structural)]
pub enum FieldArity {
    Required,
    Optional,
    List,
}

impl FieldArity {
    pub fn is_required(&self) -> (r: bool)
        ensures
            r == (*self == FieldArity::Required),
    {
        matches!(self, FieldArity::Required)
    }

    pub fn is_optional(&self) -> (r: bool)
        ensures
            r == (*self == FieldArity::Optional),
    {
        matches!(self, FieldArity::Optional)
    }

    pub fn is_list(&self) -> (r: bool)
        ensures
            r == (*self == FieldArity::List),
    {
        matches!(self, FieldArity::List)
    }
}

/// Engine-level identifier for the type of an already-decoded scalar value.
#[derive(Clone, Debug, PartialEq, Eq, Hash)]
pub enum TypeIdentifier {
    String,
    Int,
    BigInt,
    Float,
    Decimal,
    Boolean,
    Enum(String),
    UUID,
    Json,
    Xml,
    DateTime,
    Bytes,
    Unsupported,
}

/// Spec-level test for the numeric type identifiers.
pub open spec fn spec_is_numeric(t: TypeIdentifier) -> bool {
    t is Int || t is BigInt || t is Float || t is Decimal
}

impl TypeIdentifier {
    pub fn is_numeric(&self) -> (r: bool)
        ensures
            r == spec_is_numeric(*self),
    {
        matches!(
            self,
            TypeIdentifier::Int | TypeIdentifier::BigInt | TypeIdentifier::Float | TypeIdentifier::Decimal
        )
    }
}

/// The display name of a type identifier.
pub open spec fn spec_type_name(t: TypeIdentifier) -> Seq<char> {
    match t {
        TypeIdentifier::String => "String"@,
        TypeIdentifier::Int => "Int"@,
        TypeIdentifier::BigInt => "BigInt"@,
        TypeIdentifier::Float => "Float"@,
        TypeIdentifier::Decimal => "Decimal"@,
        TypeIdentifier::Boolean => "Bool"@,
        TypeIdentifier::Enum(e) => "Enum"@ + e@,
        TypeIdentifier::UUID => "UUID"@,
        TypeIdentifier::Json => "Json"@,
        TypeIdentifier::Xml => "Xml"@,
        TypeIdentifier::DateTime => "DateTime"@,
        TypeIdentifier::Bytes => "Bytes"@,
        TypeIdentifier::Unsupported => "Unsupported"@,
    }
}

impl TypeIdentifier {
    /// The identifier's display name, as the engine renders it.
    pub fn display_name(&self) -> (r: String)
        ensures
            r@ == spec_type_name(*self),
    {
        match self {
            TypeIdentifier::String => String::from_str("String"),
            TypeIdentifier::Int => String::from_str("Int"),
            TypeIdentifier::BigInt => String::from_str("BigInt"),
            TypeIdentifier::Float => String::from_str("Float"),
            TypeIdentifier::Decimal => String::from_str("Decimal"),
            TypeIdentifier::Boolean => String::from_str("Bool"),
            TypeIdentifier::Enum(e) => String::from_str("Enum").concat(e.as_str()),
            TypeIdentifier::UUID => String::from_str("UUID"),
            TypeIdentifier::Json => String::from_str("Json"),
            TypeIdentifier::Xml => String::from_str("Xml"),
            TypeIdentifier::DateTime => String::from_str("DateTime"),
            TypeIdentifier::Bytes => String::from_str("Bytes"),
            TypeIdentifier::Unsupported => String::from_str("Unsupported"),
        }
    }
}

/// Date-bearing column classification.
#[derive(Clone, Debug, PartialEq, Eq, Hash)]
pub enum DateType {
    Date,
    Time,
    DateTime,
}

/// The side of a relation a relation field stands on.
#[derive(Clone, Copy, Debug, PartialEq, Eq, Hash, Structural)]
pub enum RelationSide {
    A,
    B,
}

impl RelationSide {
    pub fn opposite(self) -> (r: RelationSide)
        ensures
            self == RelationSide::A ==> r == RelationSide::B,
            self == RelationSide::B ==> r == RelationSide::A,
    {
        match self {
            RelationSide::A => RelationSide::B,
            RelationSide::B => RelationSide::A,
        }
    }

    pub fn is_a(self) -> (r: bool)
        ensures
            r == (self == RelationSide::A),
    {
        self == RelationSide::A
    }

    pub fn is_b(self) -> (r: bool)
        ensures
            r == (self == RelationSide::B),
    {
        self == RelationSide::B
    }
}

/// Referential action resolved for a relation's on-delete / on-update policy.
#[derive(Clone, Copy, Debug, PartialEq, Eq, Structural)]
pub enum ReferentialAction {
    Cascade,
    Restrict,
    NoAction,
    SetNull,
    SetDefault,
}

/// How relations are enforced: by the engine itself, or by the database's
/// native foreign keys.
#[derive(Clone, Copy, Debug, PartialEq, Eq, Structural)]
pub enum RelationMode {
    Prisma,
    ForeignKeys,
}

/// Built-in scalar types of the data-model language.
#[derive(Clone, Copy, Debug, PartialEq, Eq, Structural)]
pub enum ScalarKind {
    String,
    Int,
    BigInt,
    Float,
    Boolean,
    DateTime,
    Json,
    Decimal,
    Bytes,
}

// ---------------------------------------------------------------------------
// Identifier newtypes. An id is an index into the owning schema's tables.
// ---------------------------------------------------------------------------

#[derive(Clone, Copy, Debug, PartialEq, Eq, Hash, Structural)]
pub struct ModelId(pub usize);

#[derive(Clone, Copy, Debug, PartialEq, Eq, Hash, Structural)]
pub struct FieldId(pub usize);

#[derive(Clone, Copy, Debug, PartialEq, Eq, Hash, Structural)]
pub struct CompositeTypeId(pub usize);

#[derive(Clone, Copy, Debug, PartialEq, Eq, Hash, Structural)]
pub struct EnumId(pub usize);

#[derive(Clone, Copy, Debug, PartialEq, Eq, Hash, Structural)]
pub struct RelationId(pub usize);

// ---------------------------------------------------------------------------
// Schema tables: plain-value definitions of every entity.
// ---------------------------------------------------------------------------

/// What a scalar field's values are: a built-in scalar, a reference into the
/// schema's enum table, or a type the engine does not support.
#[derive(Clone, Debug)]
pub enum ScalarFieldType {
    BuiltIn(ScalarKind),
    Enum(EnumId),
    Unsupported,
}

#[derive(Clone, Debug)]
pub struct ScalarFieldDef {
    pub name: String,
    /// Database name when mapped; the field name is used otherwise.
    pub mapped_name: Option<String>,
    pub arity: FieldArity,
    pub field_type: ScalarFieldType,
    /// The field alone is the model's primary key.
    pub is_single_pk: bool,
    pub is_unique: bool,
    pub is_updated_at: bool,
    pub is_autoincrement: bool,
    pub has_default: bool,
}

#[derive(Clone, Debug)]
pub struct RelationFieldDef {
    pub name: String,
    pub arity: FieldArity,
    pub relation: RelationId,
    pub side: RelationSide,
    /// Names of the referencing scalar fields on this model (the foreign
    /// key); empty on the side that holds no foreign key.
    pub fk_field_names: Vec<String>,
    /// Names of the referenced fields on the related model.
    pub referenced_field_names: Vec<String>,
    /// Referential action named in the schema text, if any.
    pub explicit_on_delete: Option<ReferentialAction>,
    pub explicit_on_update: Option<ReferentialAction>,
}

/// A field of a model: a stored scalar column or a virtual relation field.
#[derive(Clone, Debug)]
pub enum FieldDef {
    Scalar(ScalarFieldDef),
    Relation(RelationFieldDef),
}

/// What one member of a composite type holds.
#[derive(Clone, Debug)]
pub enum CompositeMemberType {
    Scalar(ScalarKind),
    Enum(EnumId),
    Composite(CompositeTypeId),
}

/// One member of a composite type.
#[derive(Clone, Debug)]
pub struct CompositeMemberDef {
    pub name: String,
    pub mapped_name: Option<String>,
    pub arity: FieldArity,
    pub member_type: CompositeMemberType,
}

/// One uniqueness constraint of a model: the indices of the fields that make
/// it up, and whether it is strict (non-nullable and fully defined), which
/// qualifies it as a primary identifier.
#[derive(Clone, Debug)]
pub struct UniqueCriterion {
    pub field_indices: Vec<usize>,
    pub strict: bool,
}

#[derive(Clone, Debug)]
pub struct ModelDef {
    pub name: String,
    pub mapped_name: Option<String>,
    /// Contents of the schema-placement attribute, if any.
    pub schema_attr: Option<String>,
    pub fields: Vec<FieldDef>,
    pub unique_criteria: Vec<UniqueCriterion>,
}

#[derive(Clone, Debug)]
pub struct EnumDef {
    pub name: String,
    pub values: Vec<String>,
}

#[derive(Clone, Debug)]
pub struct CompositeTypeDef {
    pub name: String,
    pub fields: Vec<CompositeMemberDef>,
}

/// How a relation is physically realized.
#[derive(Clone, Debug, PartialEq)]
pub enum RelationLinkManifestation {
    Inline(InlineRelation),
    RelationTable(RelationTable),
}

#[derive(Clone, Debug, PartialEq)]
pub struct InlineRelation {
    pub in_table_of_model_name: String,
}

#[derive(Clone, Debug, PartialEq)]
pub struct RelationTable {
    pub table: String,
    pub model_a_column: String,
    pub model_b_column: String,
}

#[derive(Clone, Debug)]
pub struct RelationDef {
    pub name: String,
    pub model_a: ModelId,
    pub field_a: FieldId,
    pub model_b: ModelId,
    pub field_b: FieldId,
    pub manifestation: RelationLinkManifestation,
}

/// The whole validated schema: every table, loaded once and never mutated.
#[derive(Clone, Debug)]
pub struct SchemaData {
    pub models: Vec<ModelDef>,
    pub composite_types: Vec<CompositeTypeDef>,
    pub enums: Vec<EnumDef>,
    pub relations: Vec<RelationDef>,
    pub relation_mode: RelationMode,
}

// ---------------------------------------------------------------------------
// Well-formedness.
// ---------------------------------------------------------------------------

pub open spec fn field_ref_wf(f: FieldDef, s: SchemaData) -> bool {
    match f {
        FieldDef::Scalar(sf) => match sf.field_type {
            ScalarFieldType::Enum(e) => e.0 < s.enums@.len(),
            _ => true,
        },
        FieldDef::Relation(rf) => rf.relation.0 < s.relations@.len(),
    }
}

pub open spec fn member_ref_wf(f: CompositeMemberDef, s: SchemaData) -> bool {
    match f.member_type {
        CompositeMemberType::Enum(e) => e.0 < s.enums@.len(),
        CompositeMemberType::Composite(c) => c.0 < s.composite_types@.len(),
        CompositeMemberType::Scalar(_) => true,
    }
}

/// A criterion names at least one field, each an in-range scalar field of
/// its model: an empty uniqueness constraint addresses nothing.
pub open spec fn criterion_wf(c: UniqueCriterion, m: ModelDef) -> bool {
    &&& c.field_indices@.len() > 0
    &&& forall|i: int|
        0 <= i < c.field_indices@.len() ==> c.field_indices@[i] < m.fields@.len()
            && m.fields@[c.field_indices@[i] as int] is Scalar
}

pub open spec fn model_wf(m: ModelDef, s: SchemaData) -> bool {
    &&& exists|k: int| 0 <= k < m.unique_criteria@.len() && m.unique_criteria@[k].strict
    &&& forall|k: int|
        0 <= k < m.unique_criteria@.len() ==> criterion_wf(#[trigger] m.unique_criteria@[k], m)
    &&& forall|i: int| 0 <= i < m.fields@.len() ==> field_ref_wf(#[trigger] m.fields@[i], s)
}

/// The relation's entry for one of its sides points at an in-range relation
/// field that points back at the relation with that side.
pub open spec fn relation_side_wf(
    s: SchemaData,
    r: int,
    mid: ModelId,
    fid: FieldId,
    side: RelationSide,
) -> bool {
    &&& mid.0 < s.models@.len()
    &&& fid.0 < s.models@[mid.0 as int].fields@.len()
    &&& match s.models@[mid.0 as int].fields@[fid.0 as int] {
        FieldDef::Relation(rf) => rf.relation.0 == r && rf.side == side,
        _ => false,
    }
}

pub open spec fn relation_field_def_at(s: SchemaData, mid: ModelId, fid: FieldId) -> RelationFieldDef
    recommends
        mid.0 < s.models@.len(),
        fid.0 < s.models@[mid.0 as int].fields@.len(),
        s.models@[mid.0 as int].fields@[fid.0 as int] is Relation,
{
    s.models@[mid.0 as int].fields@[fid.0 as int]->Relation_0
}

/// A relation field points at the relation-table row that points back at
/// it: the field at (m, i) is the row's entry for its own side. Without
/// this, two fields could claim one side and the back-reference lookup
/// would land on the wrong field.
pub open spec fn relation_back_wf(s: SchemaData, m: int, i: int) -> bool
    recommends
        0 <= m < s.models@.len(),
        0 <= i < s.models@[m].fields@.len(),
{
    match s.models@[m].fields@[i] {
        FieldDef::Relation(rf) => rf.relation.0 < s.relations@.len() && {
            let rel = s.relations@[rf.relation.0 as int];
            if rf.side == RelationSide::A {
                rel.model_a.0 == m && rel.field_a.0 == i
            } else {
                rel.model_b.0 == m && rel.field_b.0 == i
            }
        },
        FieldDef::Scalar(_) => true,
    }
}

pub open spec fn relation_wf(s: SchemaData, r: int) -> bool {
    let rel = s.relations@[r];
    &&& relation_side_wf(s, r, rel.model_a, rel.field_a, RelationSide::A)
    &&& relation_side_wf(s, r, rel.model_b, rel.field_b, RelationSide::B)
    &&& (rel.manifestation is Inline ==> relation_field_def_at(
        s,
        rel.model_a,
        rel.field_a,
    ).fk_field_names@.len() > 0 || relation_field_def_at(
        s,
        rel.model_b,
        rel.field_b,
    ).fk_field_names@.len() > 0)
}

impl SchemaData {
    /// Validity of the schema's internal references; established once by
    /// `convert` and relied on by every handle.
    pub open spec fn wf(self) -> bool {
        &&& forall|m: int| 0 <= m < self.models@.len() ==> model_wf(#[trigger] self.models@[m], self)
        &&& forall|m: int, i: int|
            0 <= m < self.models@.len() && 0 <= i < self.models@[m].fields@.len()
                ==> relation_back_wf(self, m, i)
        &&& forall|r: int| 0 <= r < self.relations@.len() ==> relation_wf(self, r)
        &&& forall|c: int, i: int|
            0 <= c < self.composite_types@.len() && 0 <= i
                < self.composite_types@[c].fields@.len() ==> member_ref_wf(
                #[trigger] self.composite_types@[c].fields@[i],
                self,
            )
    }
}

} // verus!
