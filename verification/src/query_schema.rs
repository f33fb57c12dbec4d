//! The request-facing schema: what top-level fields exist, what object
//! shapes they return, and what argument types they accept. Object shapes
//! reference each other through table indices, never through pointers, so
//! cyclic relations cost nothing.

use crate::cursor::InternalDataModel;
use crate::schema::{EnumId, FieldDef, ModelId, ScalarFieldType, ScalarKind};
use vstd::prelude::*;
use vstd::string::StringExecFns;

verus! {

/// Scalar types of the request protocol.
#[derive(Clone, Copy, Debug, PartialEq, Eq, Structural)]
pub enum ScalarType {
    Null,
    String,
    Int,
    BigInt,
    Float,
    Decimal,
    Boolean,
    UUID,
    Json,
    JsonList,
    Xml,
    Bytes,
    DateTime,
}

/// What a top-level field does.
#[derive(Clone, Copy, Debug, PartialEq, Eq, Structural)]
pub enum QueryTag {
    FindUnique,
    FindUniqueOrThrow,
    FindFirst,
    FindFirstOrThrow,
    FindMany,
    CreateOne,
    CreateMany,
    UpdateOne,
    UpdateMany,
    DeleteOne,
    DeleteMany,
    UpsertOne,
    Aggregate,
    GroupBy,
    ExecuteRaw,
    QueryRaw,
}

/// Which model a top-level field addresses, and what it does to it.
#[derive(Clone, Copy, Debug, PartialEq, Eq, Structural)]
pub struct QueryInfo {
    pub model: Option<ModelId>,
    pub tag: QueryTag,
}

/// The type of an output field: a scalar, an enum, or an object shape by
/// table index, possibly list-valued.
#[derive(Clone, Copy, Debug, PartialEq, Eq, Structural)]
pub enum OutputType {
    Scalar(ScalarType),
    Enum(EnumId),
    Object(usize),
    ObjectList(usize),
}

/// The type of an input value: a scalar, an enum, a list of a type, or an
/// input object by table index.
#[derive(Debug)]
pub enum InputType {
    Scalar(ScalarType),
    Enum(EnumId),
    List(Box<InputType>),
    Object(usize),
}

#[derive(Debug)]
pub struct InputField {
    pub name: String,
    pub field_types: Vec<InputType>,
    pub is_required: bool,
}

#[derive(Debug)]
pub struct OutputField {
    pub name: String,
    pub field_type: OutputType,
    pub arguments: Vec<InputField>,
    pub query_info: Option<QueryInfo>,
}

#[derive(Debug)]
pub struct ObjectType {
    pub identifier: String,
    pub fields: Vec<OutputField>,
}

#[derive(Debug)]
pub struct InputObjectType {
    pub identifier: String,
    pub fields: Vec<InputField>,
}

/// The whole request-facing schema.
#[derive(Debug)]
pub struct QuerySchema {
    pub object_types: Vec<ObjectType>,
    pub input_object_types: Vec<InputObjectType>,
    /// Index of the object type holding the read fields.
    pub query: usize,
    /// Index of the object type holding the write fields.
    pub mutation: usize,
}

// ---------------------------------------------------------------------------
// Range validity.
// ---------------------------------------------------------------------------

pub open spec fn input_type_wf(t: InputType, n_inputs: int) -> bool
    decreases t,
{
    match t {
        InputType::Scalar(_) => true,
        InputType::Enum(_) => true,
        InputType::List(inner) => input_type_wf(*inner, n_inputs),
        InputType::Object(i) => i < n_inputs,
    }
}

pub open spec fn input_field_wf(f: InputField, n_inputs: int) -> bool {
    forall|i: int| 0 <= i < f.field_types@.len() ==> input_type_wf(#[trigger] f.field_types@[i], n_inputs)
}

pub open spec fn output_field_wf(f: OutputField, n_objects: int, n_inputs: int) -> bool {
    &&& match f.field_type {
        OutputType::Object(i) => i < n_objects,
        OutputType::ObjectList(i) => i < n_objects,
        _ => true,
    }
    &&& forall|i: int| 0 <= i < f.arguments@.len() ==> input_field_wf(#[trigger] f.arguments@[i], n_inputs)
}

impl QuerySchema {
    /// Every table index held anywhere in the schema is in range.
    pub open spec fn wf(self) -> bool {
        &&& self.query < self.object_types@.len()
        &&& self.mutation < self.object_types@.len()
        &&& forall|o: int, i: int|
            0 <= o < self.object_types@.len() && 0 <= i < self.object_types@[o].fields@.len()
                ==> output_field_wf(
                #[trigger] self.object_types@[o].fields@[i],
                self.object_types@.len() as int,
                self.input_object_types@.len() as int,
            )
        &&& forall|o: int, i: int|
            0 <= o < self.input_object_types@.len() && 0 <= i
                < self.input_object_types@[o].fields@.len() ==> input_field_wf(
                #[trigger] self.input_object_types@[o].fields@[i],
                self.input_object_types@.len() as int,
            )
    }

    /// The object type holding the read fields.
    pub fn query(&self) -> (r: &ObjectType)
        requires
            self.wf(),
        ensures
            *r == self.object_types@[self.query as int],
    {
        &self.object_types[self.query]
    }

    /// The object type holding the write fields.
    pub fn mutation(&self) -> (r: &ObjectType)
        requires
            self.wf(),
        ensures
            *r == self.object_types@[self.mutation as int],
    {
        &self.object_types[self.mutation]
    }
}

/// Index of the first field of the object type with the given name.
pub open spec fn find_out_field_from(o: ObjectType, name: Seq<char>, i: int) -> Option<int>
    decreases o.fields@.len() - i,
{
    if i < 0 || i >= o.fields@.len() {
        None
    } else if o.fields@[i].name@ == name {
        Some(i)
    } else {
        find_out_field_from(o, name, i + 1)
    }
}

impl ObjectType {
    pub fn get_fields(&self) -> (r: &Vec<OutputField>)
        ensures
            *r == self.fields,
    {
        &self.fields
    }

    /// The first field with the given name.
    pub fn find_field(&self, name: &String) -> (r: Option<&OutputField>)
        ensures
            match find_out_field_from(*self, name@, 0) {
                Some(i) => r matches Some(f) && *f == self.fields@[i],
                None => r is None,
            },
    {
        let mut i: usize = 0;
        while i < self.fields.len()
            invariant
                i <= self.fields@.len(),
                find_out_field_from(*self, name@, 0) == find_out_field_from(*self, name@, i as int),
            decreases self.fields@.len() - i,
        {
            if self.fields[i].name == *name {
                proof {
                    assert(find_out_field_from(*self, name@, i as int) == Some(i as int));
                }
                return Some(&self.fields[i]);
            }
            proof {
                assert(find_out_field_from(*self, name@, i as int) == find_out_field_from(
                    *self,
                    name@,
                    i as int + 1,
                ));
            }
            i += 1;
        }
        proof {
            assert(find_out_field_from(*self, name@, i as int) is None);
        }
        None
    }
}

impl InputObjectType {
    pub fn get_fields(&self) -> (r: &Vec<InputField>)
        ensures
            *r == self.fields,
    {
        &self.fields
    }
}

impl OutputField {
    pub fn get_arguments(&self) -> (r: &Vec<InputField>)
        ensures
            *r == self.arguments,
    {
        &self.arguments
    }

    /// The object-type index this field's type points at, list or not.
    pub fn as_object_type(&self) -> (r: Option<usize>)
        ensures
            match self.field_type {
                OutputType::Object(i) => r == Some(i),
                OutputType::ObjectList(i) => r == Some(i),
                _ => r is None,
            },
    {
        match self.field_type {
            OutputType::Object(i) => Some(i),
            OutputType::ObjectList(i) => Some(i),
            _ => None,
        }
    }

    pub fn is_scalar(&self) -> (r: bool)
        ensures
            r == (self.field_type is Scalar || self.field_type is Enum),
    {
        matches!(self.field_type, OutputType::Scalar(_) | OutputType::Enum(_))
    }
}

} // verus!

verus! {

/// The protocol scalar type of a built-in data-model scalar.
pub open spec fn spec_scalar_type_of(k: ScalarKind) -> ScalarType {
    match k {
        ScalarKind::String => ScalarType::String,
        ScalarKind::Int => ScalarType::Int,
        ScalarKind::BigInt => ScalarType::BigInt,
        ScalarKind::Float => ScalarType::Float,
        ScalarKind::Boolean => ScalarType::Boolean,
        ScalarKind::DateTime => ScalarType::DateTime,
        ScalarKind::Json => ScalarType::Json,
        ScalarKind::Decimal => ScalarType::Decimal,
        ScalarKind::Bytes => ScalarType::Bytes,
    }
}

fn scalar_type_of(k: ScalarKind) -> (r: ScalarType)
    ensures
        r == spec_scalar_type_of(k),
{
    match k {
        ScalarKind::String => ScalarType::String,
        ScalarKind::Int => ScalarType::Int,
        ScalarKind::BigInt => ScalarType::BigInt,
        ScalarKind::Float => ScalarType::Float,
        ScalarKind::Boolean => ScalarType::Boolean,
        ScalarKind::DateTime => ScalarType::DateTime,
        ScalarKind::Json => ScalarType::Json,
        ScalarKind::Decimal => ScalarType::Decimal,
        ScalarKind::Bytes => ScalarType::Bytes,
    }
}

/// The naming prefix of a top-level field for the given tag.
fn tag_prefix(tag: QueryTag) -> &'static str {
    match tag {
        QueryTag::FindUnique => "findUnique",
        QueryTag::FindUniqueOrThrow => "findUniqueOrThrow",
        QueryTag::FindFirst => "findFirst",
        QueryTag::FindFirstOrThrow => "findFirstOrThrow",
        QueryTag::FindMany => "findMany",
        QueryTag::CreateOne => "createOne",
        QueryTag::CreateMany => "createMany",
        QueryTag::UpdateOne => "updateOne",
        QueryTag::UpdateMany => "updateMany",
        QueryTag::DeleteOne => "deleteOne",
        QueryTag::DeleteMany => "deleteMany",
        QueryTag::UpsertOne => "upsertOne",
        QueryTag::Aggregate => "aggregate",
        QueryTag::GroupBy => "groupBy",
        QueryTag::ExecuteRaw => "executeRaw",
        QueryTag::QueryRaw => "queryRaw",
    }
}

/// The object-type index of the model on the far side of a relation field.
fn related_model_index(dm: &InternalDataModel, mid: ModelId, rf: &crate::schema::RelationFieldDef) -> (r:
    usize)
    requires
        dm.wf(),
        rf.relation.0 < dm.schema.relations@.len(),
    ensures
        r < dm.schema.models@.len(),
{
    proof {
        assert(crate::schema::relation_wf(*dm.schema, rf.relation.0 as int));
    }
    let rel = &dm.schema.relations[rf.relation.0];
    match rf.side {
        crate::schema::RelationSide::A => rel.model_b.0,
        crate::schema::RelationSide::B => rel.model_a.0,
    }
}

/// Every top-level field of an object addresses some model of the schema.
pub open spec fn fields_resolve(o: ObjectType, n_models: int) -> bool {
    forall|i: int|
        0 <= i < o.fields@.len() ==> ((#[trigger] o.fields@[i]).query_info matches Some(qi) && (
        qi.model matches Some(m) && m.0 < n_models))
}

/// Builds the request-facing schema over the data model: one object shape,
/// one filter input and one create input per model, and the top-level read
/// and write fields for every model and tag.
#[verifier::loop_isolation(false)]
pub fn build_query_schema(dm: &InternalDataModel) -> (r: QuerySchema)
    requires
        dm.wf(),
        3 * dm.schema.models@.len() + 2 <= usize::MAX,
    ensures
        r.wf(),
        fields_resolve(r.object_types@[r.query as int], dm.schema.models@.len() as int),
        fields_resolve(r.object_types@[r.mutation as int], dm.schema.models@.len() as int),
{
    let n = dm.schema.models.len();
    let ghost n_obj = n + 2int;
    let ghost n_inp = 3int * n as int;
    let mut object_types: Vec<ObjectType> = Vec::new();
    let mut input_object_types: Vec<InputObjectType> = Vec::new();
    // Model object shapes, filter inputs and create inputs.
    let mut m: usize = 0;
    while m < n
        invariant
            m <= n,
            n == dm.schema.models@.len(),
            object_types@.len() == m,
            input_object_types@.len() == m,
            forall|o: int, i: int|
                0 <= o < object_types@.len() && 0 <= i < object_types@[o].fields@.len()
                    ==> output_field_wf(#[trigger] object_types@[o].fields@[i], n_obj, n_inp),
            forall|o: int, i: int|
                0 <= o < input_object_types@.len() && 0 <= i
                    < input_object_types@[o].fields@.len() ==> input_field_wf(
                    #[trigger] input_object_types@[o].fields@[i],
                    n_inp,
                ),
        decreases n - m,
    {
        proof {
            assert(crate::schema::model_wf(dm.schema.models@[m as int], *dm.schema));
        }
        let model = &dm.schema.models[m];
        let mut out_fields: Vec<OutputField> = Vec::new();
        let mut where_fields: Vec<InputField> = Vec::new();
        let mut i: usize = 0;
        while i < model.fields.len()
            invariant
                i <= model.fields@.len(),
                m < n,
                *model == dm.schema.models@[m as int],
                forall|j: int|
                    0 <= j < out_fields@.len() ==> output_field_wf(
                        #[trigger] out_fields@[j],
                        n_obj,
                        n_inp,
                    ),
                forall|j: int|
                    0 <= j < where_fields@.len() ==> input_field_wf(
                        #[trigger] where_fields@[j],
                        n_inp,
                    ),
            decreases model.fields@.len() - i,
        {
            proof {
                assert(crate::schema::field_ref_wf(model.fields@[i as int], *dm.schema));
            }
            match &model.fields[i] {
                FieldDef::Scalar(sf) => {
                    let out_type = match &sf.field_type {
                        ScalarFieldType::BuiltIn(k) => OutputType::Scalar(scalar_type_of(*k)),
                        ScalarFieldType::Enum(e) => OutputType::Enum(*e),
                        ScalarFieldType::Unsupported => OutputType::Scalar(ScalarType::Json),
                    };
                    out_fields.push(
                        OutputField {
                            name: sf.name.clone(),
                            field_type: out_type,
                            arguments: Vec::new(),
                            query_info: None,
                        },
                    );
                    let in_type = match &sf.field_type {
                        ScalarFieldType::BuiltIn(k) => InputType::Scalar(scalar_type_of(*k)),
                        ScalarFieldType::Enum(e) => InputType::Enum(*e),
                        ScalarFieldType::Unsupported => InputType::Scalar(ScalarType::Json),
                    };
                    let mut tys: Vec<InputType> = Vec::new();
                    tys.push(in_type);
                    where_fields.push(
                        InputField { name: sf.name.clone(), field_types: tys, is_required: false },
                    );
                },
                FieldDef::Relation(rf) => {
                    let rel_idx = related_model_index(dm, ModelId(m), rf);
                    let out_type = if rf.arity.is_list() {
                        OutputType::ObjectList(rel_idx)
                    } else {
                        OutputType::Object(rel_idx)
                    };
                    let mut where_tys: Vec<InputType> = Vec::new();
                    where_tys.push(InputType::Object(rel_idx));
                    let mut rel_args: Vec<InputField> = Vec::new();
                    rel_args.push(
                        InputField {
                            name: String::from_str("where"),
                            field_types: where_tys,
                            is_required: false,
                        },
                    );
                    out_fields.push(
                        OutputField {
                            name: rf.name.clone(),
                            field_type: out_type,
                            arguments: rel_args,
                            query_info: None,
                        },
                    );
                },
            }
            i += 1;
        }
        object_types.push(ObjectType { identifier: model.name.clone(), fields: out_fields });
        input_object_types.push(
            InputObjectType {
                identifier: String::from_str("WhereInput").concat(model.name.as_str()),
                fields: where_fields,
            },
        );
        m += 1;
    }
    // Create inputs, one per model.
    let mut m: usize = 0;
    while m < n
        invariant
            m <= n,
            n == dm.schema.models@.len(),
            object_types@.len() == n,
            input_object_types@.len() == n + m,
            forall|o: int, i: int|
                0 <= o < object_types@.len() && 0 <= i < object_types@[o].fields@.len()
                    ==> output_field_wf(#[trigger] object_types@[o].fields@[i], n_obj, n_inp),
            forall|o: int, i: int|
                0 <= o < input_object_types@.len() && 0 <= i
                    < input_object_types@[o].fields@.len() ==> input_field_wf(
                    #[trigger] input_object_types@[o].fields@[i],
                    n_inp,
                ),
        decreases n - m,
    {
        proof {
            assert(crate::schema::model_wf(dm.schema.models@[m as int], *dm.schema));
        }
        let model = &dm.schema.models[m];
        let mut create_fields: Vec<InputField> = Vec::new();
        let mut i: usize = 0;
        while i < model.fields.len()
            invariant
                i <= model.fields@.len(),
                m < n,
                *model == dm.schema.models@[m as int],
                forall|j: int|
                    0 <= j < create_fields@.len() ==> input_field_wf(
                        #[trigger] create_fields@[j],
                        n_inp,
                    ),
            decreases model.fields@.len() - i,
        {
            proof {
                assert(crate::schema::field_ref_wf(model.fields@[i as int], *dm.schema));
            }
            match &model.fields[i] {
                FieldDef::Scalar(sf) => {
                    let in_type = match &sf.field_type {
                        ScalarFieldType::BuiltIn(k) => InputType::Scalar(scalar_type_of(*k)),
                        ScalarFieldType::Enum(e) => InputType::Enum(*e),
                        ScalarFieldType::Unsupported => InputType::Scalar(ScalarType::Json),
                    };
                    let mut tys: Vec<InputType> = Vec::new();
                    tys.push(in_type);
                    let required = sf.arity.is_required() && !sf.has_default
                        && !sf.is_autoincrement;
                    create_fields.push(
                        InputField { name: sf.name.clone(), field_types: tys, is_required: required },
                    );
                },
                FieldDef::Relation(rf) => {
                    let rel_idx = related_model_index(dm, ModelId(m), rf);
                    let mut tys: Vec<InputType> = Vec::new();
                    tys.push(InputType::Object(2 * n + rel_idx));
                    create_fields.push(
                        InputField { name: rf.name.clone(), field_types: tys, is_required: false },
                    );
                },
            }
            i += 1;
        }
        input_object_types.push(
            InputObjectType {
                identifier: String::from_str("CreateInput").concat(model.name.as_str()),
                fields: create_fields,
            },
        );
        m += 1;
    }
    // Create envelopes, one per model: the `create` wrapper around a single
    // or a list of create inputs.
    let mut m: usize = 0;
    while m < n
        invariant
            m <= n,
            n == dm.schema.models@.len(),
            object_types@.len() == n,
            input_object_types@.len() == 2 * n + m,
            forall|o: int, i: int|
                0 <= o < object_types@.len() && 0 <= i < object_types@[o].fields@.len()
                    ==> output_field_wf(#[trigger] object_types@[o].fields@[i], n_obj, n_inp),
            forall|o: int, i: int|
                0 <= o < input_object_types@.len() && 0 <= i
                    < input_object_types@[o].fields@.len() ==> input_field_wf(
                    #[trigger] input_object_types@[o].fields@[i],
                    n_inp,
                ),
        decreases n - m,
    {
        let mut tys: Vec<InputType> = Vec::new();
        tys.push(InputType::Object(n + m));
        tys.push(InputType::List(Box::new(InputType::Object(n + m))));
        let mut env_fields: Vec<InputField> = Vec::new();
        env_fields.push(
            InputField { name: String::from_str("create"), field_types: tys, is_required: false },
        );
        proof {
            assert forall|i: int| 0 <= i < env_fields@.len() implies input_field_wf(
                #[trigger] env_fields@[i],
                n_inp,
            ) by {
                let f = env_fields@[0];
                assert forall|k: int| 0 <= k < f.field_types@.len() implies input_type_wf(
                    #[trigger] f.field_types@[k],
                    n_inp,
                ) by {
                    if k == 1 {
                        assert(f.field_types@[1] matches InputType::List(inner) && input_type_wf(
                            *inner,
                            n_inp,
                        ));
                    }
                }
            }
        }
        input_object_types.push(
            InputObjectType {
                identifier: String::from_str("CreateEnvelope").concat(
                    dm.schema.models[m].name.as_str(),
                ),
                fields: env_fields,
            },
        );
        m += 1;
    }
    // Top-level read and write fields.
    let read_tags: [QueryTag; 7] = [
        QueryTag::FindUnique,
        QueryTag::FindUniqueOrThrow,
        QueryTag::FindFirst,
        QueryTag::FindFirstOrThrow,
        QueryTag::FindMany,
        QueryTag::Aggregate,
        QueryTag::GroupBy,
    ];
    let write_tags: [QueryTag; 7] = [
        QueryTag::CreateOne,
        QueryTag::CreateMany,
        QueryTag::UpdateOne,
        QueryTag::UpdateMany,
        QueryTag::DeleteOne,
        QueryTag::DeleteMany,
        QueryTag::UpsertOne,
    ];
    let mut query_fields: Vec<OutputField> = Vec::new();
    let mut mutation_fields: Vec<OutputField> = Vec::new();
    let mut m: usize = 0;
    while m < n
        invariant
            m <= n,
            n == dm.schema.models@.len(),
            object_types@.len() == n,
            input_object_types@.len() == 3 * n,
            forall|o: int, i: int|
                0 <= o < object_types@.len() && 0 <= i < object_types@[o].fields@.len()
                    ==> output_field_wf(#[trigger] object_types@[o].fields@[i], n_obj, n_inp),
            forall|o: int, i: int|
                0 <= o < input_object_types@.len() && 0 <= i
                    < input_object_types@[o].fields@.len() ==> input_field_wf(
                    #[trigger] input_object_types@[o].fields@[i],
                    n_inp,
                ),
            forall|j: int|
                0 <= j < query_fields@.len() ==> output_field_wf(
                    #[trigger] query_fields@[j],
                    n_obj,
                    n_inp,
                ),
            forall|j: int|
                0 <= j < mutation_fields@.len() ==> output_field_wf(
                    #[trigger] mutation_fields@[j],
                    n_obj,
                    n_inp,
                ),
            forall|j: int|
                0 <= j < query_fields@.len() ==> ((#[trigger] query_fields@[j]).query_info
                    matches Some(qi) && (qi.model matches Some(mm) && mm.0 < n)),
            forall|j: int|
                0 <= j < mutation_fields@.len() ==> ((#[trigger] mutation_fields@[j]).query_info
                    matches Some(qi) && (qi.model matches Some(mm) && mm.0 < n)),
        decreases n - m,
    {
        let model_name = &dm.schema.models[m].name;
        let mut t: usize = 0;
        while t < 7
            invariant
                t <= 7,
                m < n,
                forall|j: int|
                    0 <= j < query_fields@.len() ==> output_field_wf(
                        #[trigger] query_fields@[j],
                        n_obj,
                        n_inp,
                    ),
                forall|j: int|
                    0 <= j < query_fields@.len() ==> ((#[trigger] query_fields@[j]).query_info
                        matches Some(qi) && (qi.model matches Some(mm) && mm.0 < n)),
            decreases 7 - t,
        {
            let tag = read_tags[t];
            let mut where_tys: Vec<InputType> = Vec::new();
            where_tys.push(InputType::Object(m));
            let mut args: Vec<InputField> = Vec::new();
            args.push(
                InputField {
                    name: String::from_str("where"),
                    field_types: where_tys,
                    is_required: false,
                },
            );
            let field_type = if matches!(tag, QueryTag::FindMany) {
                OutputType::ObjectList(m)
            } else {
                OutputType::Object(m)
            };
            query_fields.push(
                OutputField {
                    name: String::from_str(tag_prefix(tag)).concat(model_name.as_str()),
                    field_type,
                    arguments: args,
                    query_info: Some(QueryInfo { model: Some(ModelId(m)), tag }),
                },
            );
            t += 1;
        }
        let mut t: usize = 0;
        while t < 7
            invariant
                t <= 7,
                m < n,
                forall|j: int|
                    0 <= j < mutation_fields@.len() ==> output_field_wf(
                        #[trigger] mutation_fields@[j],
                        n_obj,
                        n_inp,
                    ),
                forall|j: int|
                    0 <= j < mutation_fields@.len() ==> ((#[trigger] mutation_fields@[j]).query_info
                        matches Some(qi) && (qi.model matches Some(mm) && mm.0 < n)),
            decreases 7 - t,
        {
            let tag = write_tags[t];
            let mut args: Vec<InputField> = Vec::new();
            if matches!(tag, QueryTag::CreateOne | QueryTag::CreateMany | QueryTag::UpdateOne
                | QueryTag::UpdateMany | QueryTag::UpsertOne) {
                let mut data_tys: Vec<InputType> = Vec::new();
                data_tys.push(InputType::Object(n + m));
                args.push(
                    InputField {
                        name: String::from_str("data"),
                        field_types: data_tys,
                        is_required: false,
                    },
                );
            }
            if matches!(tag, QueryTag::UpdateOne | QueryTag::UpdateMany | QueryTag::DeleteOne
                | QueryTag::DeleteMany | QueryTag::UpsertOne) {
                let mut where_tys: Vec<InputType> = Vec::new();
                where_tys.push(InputType::Object(m));
                args.push(
                    InputField {
                        name: String::from_str("where"),
                        field_types: where_tys,
                        is_required: false,
                    },
                );
            }
            mutation_fields.push(
                OutputField {
                    name: String::from_str(tag_prefix(tag)).concat(model_name.as_str()),
                    field_type: OutputType::Object(m),
                    arguments: args,
                    query_info: Some(QueryInfo { model: Some(ModelId(m)), tag }),
                },
            );
            t += 1;
        }
        m += 1;
    }
    let query = object_types.len();
    object_types.push(ObjectType { identifier: String::from_str("Query"), fields: query_fields });
    let mutation = object_types.len();
    object_types.push(
        ObjectType { identifier: String::from_str("Mutation"), fields: mutation_fields },
    );
    QuerySchema { object_types, input_object_types, query, mutation }
}

} // verus!
