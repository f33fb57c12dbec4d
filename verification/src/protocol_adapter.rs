//! The protocol adapter: turns one decoded request into one typed
//! operation against the request-facing schema.

use crate::json::{
    json_obj_view, json_object_get, json_view, lemma_json_obj_view, obj_lookup, obj_lookup_from,
    JsonVal, JsonValue,
};
use crate::json_query::{
    jq_view, jqf_view, lemma_so_map_view, so_map_view, so_view, JqfView, JqView, JsonQuery,
    JsonQueryField, Selection, SelectionOption, SoView, TopLevelAction,
};
use crate::query_schema::{
    find_out_field_from, InputField, InputObjectType, InputType, ObjectType, OutputField,
    OutputType, QuerySchema, QueryTag, ScalarType,
};
use crate::operation::{lemma_sel_seq_view, op_view, sel_seq_view, sel_view, OpView, Operation, SelView};
use crate::value::ArgVal;
use vstd::prelude::*;
use vstd::string::StringExecFns;

verus! {

// ---------------------------------------------------------------------------
// A height measure on decoded documents, for recursion over members.
// ---------------------------------------------------------------------------

pub open spec fn jh(v: JsonVal) -> nat
    decreases v,
{
    match v {
        JsonVal::Arr(xs) => 1 + jh_seq(xs),
        JsonVal::Obj(fs) => 1 + jh_obj(fs),
        _ => 0,
    }
}

pub open spec fn jh_seq(xs: Seq<JsonVal>) -> nat
    decreases xs,
{
    if xs.len() == 0 {
        0
    } else {
        let h1 = jh_seq(xs.drop_last());
        let h2 = jh(xs.last());
        if h1 > h2 {
            h1
        } else {
            h2
        }
    }
}

pub open spec fn jh_obj(fs: Seq<(Seq<char>, JsonVal)>) -> nat
    decreases fs,
{
    if fs.len() == 0 {
        0
    } else {
        let h1 = jh_obj(fs.drop_last());
        let h2 = jh(fs.last().1);
        if h1 > h2 {
            h1
        } else {
            h2
        }
    }
}

pub broadcast proof fn lemma_jh_seq_member(xs: Seq<JsonVal>, i: int)
    requires
        0 <= i < xs.len(),
    ensures
        jh(#[trigger] xs[i]) <= jh_seq(xs),
    decreases xs,
{
    if xs.len() > 0 {
        if i < xs.len() - 1 {
            lemma_jh_seq_member(xs.drop_last(), i);
            assert(xs.drop_last()[i] == xs[i]);
        } else {
            assert(xs.last() == xs[i]);
        }
    }
}

pub broadcast proof fn lemma_jh_obj_member(fs: Seq<(Seq<char>, JsonVal)>, i: int)
    requires
        0 <= i < fs.len(),
    ensures
        jh((#[trigger] fs[i]).1) <= jh_obj(fs),
    decreases fs,
{
    if fs.len() > 0 {
        if i < fs.len() - 1 {
            lemma_jh_obj_member(fs.drop_last(), i);
            assert(fs.drop_last()[i] == fs[i]);
        } else {
            assert(fs.last() == fs[i]);
        }
    }
}

pub proof fn lemma_jh_obj_lookup(fs: Seq<(Seq<char>, JsonVal)>, key: Seq<char>, i: int)
    requires
        obj_lookup_from(fs, key, i) is Some,
    ensures
        jh(obj_lookup_from(fs, key, i)->0) <= jh_obj(fs),
    decreases fs.len() - i,
{
    if 0 <= i < fs.len() {
        if fs[i].0 == key {
            lemma_jh_obj_member(fs, i);
        } else {
            lemma_jh_obj_lookup(fs, key, i + 1);
        }
    }
}

// ---------------------------------------------------------------------------
// Decoding the request document into the typed request.
// ---------------------------------------------------------------------------

/// The action named by its client-visible camel-case name.
pub open spec fn spec_parse_action(s: Seq<char>) -> Option<TopLevelAction> {
    if s == "findUnique"@ {
        Some(TopLevelAction::FindUnique)
    } else if s == "findUniqueOrThrow"@ {
        Some(TopLevelAction::FindUniqueOrThrow)
    } else if s == "findFirst"@ {
        Some(TopLevelAction::FindFirst)
    } else if s == "findFirstOrThrow"@ {
        Some(TopLevelAction::FindFirstOrThrow)
    } else if s == "findMany"@ {
        Some(TopLevelAction::FindMany)
    } else if s == "create"@ {
        Some(TopLevelAction::Create)
    } else if s == "createMany"@ {
        Some(TopLevelAction::CreateMany)
    } else if s == "update"@ {
        Some(TopLevelAction::Update)
    } else if s == "updateMany"@ {
        Some(TopLevelAction::UpdateMany)
    } else if s == "delete"@ {
        Some(TopLevelAction::Delete)
    } else if s == "deleteMany"@ {
        Some(TopLevelAction::DeleteMany)
    } else if s == "upsert"@ {
        Some(TopLevelAction::Upsert)
    } else if s == "aggregate"@ {
        Some(TopLevelAction::Aggregate)
    } else if s == "groupBy"@ {
        Some(TopLevelAction::GroupBy)
    } else if s == "executeRaw"@ {
        Some(TopLevelAction::ExecuteRaw)
    } else if s == "queryRaw"@ {
        Some(TopLevelAction::QueryRaw)
    } else {
        None
    }
}

fn parse_action(s: &String) -> (r: Option<TopLevelAction>)
    ensures
        r == spec_parse_action(s@),
{
    if *s == String::from_str("findUnique") {
        Some(TopLevelAction::FindUnique)
    } else if *s == String::from_str("findUniqueOrThrow") {
        Some(TopLevelAction::FindUniqueOrThrow)
    } else if *s == String::from_str("findFirst") {
        Some(TopLevelAction::FindFirst)
    } else if *s == String::from_str("findFirstOrThrow") {
        Some(TopLevelAction::FindFirstOrThrow)
    } else if *s == String::from_str("findMany") {
        Some(TopLevelAction::FindMany)
    } else if *s == String::from_str("create") {
        Some(TopLevelAction::Create)
    } else if *s == String::from_str("createMany") {
        Some(TopLevelAction::CreateMany)
    } else if *s == String::from_str("update") {
        Some(TopLevelAction::Update)
    } else if *s == String::from_str("updateMany") {
        Some(TopLevelAction::UpdateMany)
    } else if *s == String::from_str("delete") {
        Some(TopLevelAction::Delete)
    } else if *s == String::from_str("deleteMany") {
        Some(TopLevelAction::DeleteMany)
    } else if *s == String::from_str("upsert") {
        Some(TopLevelAction::Upsert)
    } else if *s == String::from_str("aggregate") {
        Some(TopLevelAction::Aggregate)
    } else if *s == String::from_str("groupBy") {
        Some(TopLevelAction::GroupBy)
    } else if *s == String::from_str("executeRaw") {
        Some(TopLevelAction::ExecuteRaw)
    } else if *s == String::from_str("queryRaw") {
        Some(TopLevelAction::QueryRaw)
    } else {
        None
    }
}

/// The key under which nested shapes are switched on wholesale.
pub open spec fn included_key() -> Seq<char> {
    "includ"@ + "e"@
}

fn included_key_string() -> (r: String)
    ensures
        r@ == included_key(),
{
    String::from_str("includ").concat("e")
}

/// Whether a top-level member is one of the specially-decoded keys rather
/// than an argument. The wire protocol's envelope field is tolerated and
/// carries nothing of its own.
pub open spec fn is_reserved_key(k: Seq<char>, top: bool) -> bool {
    ||| k == "select"@
    ||| k == included_key()
    ||| (top && (k == "modelName"@ || k == "action"@ || k == "query"@))
}

/// The argument members: every member that is not specially decoded, in
/// declared order.
pub open spec fn args_of(fs: Seq<(Seq<char>, JsonVal)>, top: bool) -> Seq<(Seq<char>, JsonVal)>
    decreases fs,
{
    if fs.len() == 0 {
        Seq::empty()
    } else {
        args_of(fs.drop_last(), top) + (
        if is_reserved_key(fs.last().0, top) {
            Seq::empty()
        } else {
            seq![fs.last()]
        })
    }
}

/// Decoding of a select or include map: each member is a switch or a
/// nested subquery object.
pub open spec fn spec_parse_so_map(fs: Seq<(Seq<char>, JsonVal)>) -> Result<
    Seq<(Seq<char>, SoView)>,
    (),
>
    decreases jh_obj(fs), fs.len() + 1nat,
    via spec_parse_so_map_dec
{
    if fs.len() == 0 {
        Ok(Seq::empty())
    } else {
        match spec_parse_so_map_entry(fs.last().1) {
            Ok(so) => match spec_parse_so_map(fs.drop_last()) {
                Ok(rest) => Ok(rest.push((fs.last().0, so))),
                Err(e) => Err(e),
            },
            Err(e) => Err(e),
        }
    }
}

#[via_fn]
proof fn spec_parse_so_map_dec(fs: Seq<(Seq<char>, JsonVal)>) {
    if fs.len() > 0 {
        lemma_jh_obj_member(fs, fs.len() - 1);
    }
}

pub open spec fn spec_parse_so_map_entry(v: JsonVal) -> Result<SoView, ()>
    decreases jh(v), 0nat,
{
    match v {
        JsonVal::Bool(b) => Ok(SoView::Bool(b)),
        JsonVal::Obj(fs) => match spec_parse_jqf(fs, false) {
            Ok(f) => Ok(SoView::SubQuery(f)),
            Err(e) => Err(e),
        },
        _ => Err(()),
    }
}

/// Decoding of one request node's members: the select and include maps,
/// and the remaining members as arguments.
pub open spec fn spec_parse_jqf(fs: Seq<(Seq<char>, JsonVal)>, top: bool) -> Result<JqfView, ()>
    decreases jh_obj(fs), 0nat,
    via spec_parse_jqf_dec
{
    let select_parsed: Result<Option<Seq<(Seq<char>, SoView)>>, ()> = match obj_lookup(
        fs,
        "select"@,
    ) {
        Some(v) => match v {
            JsonVal::Obj(sfs) => match spec_parse_so_map(sfs) {
                Ok(m) => Ok(Some(m)),
                Err(e) => Err(e),
            },
            _ => Err(()),
        },
        None => Ok(None),
    };
    let inc_parsed: Result<Option<Seq<(Seq<char>, SoView)>>, ()> = match obj_lookup(
        fs,
        included_key(),
    ) {
        Some(v) => match v {
            JsonVal::Obj(sfs) => match spec_parse_so_map(sfs) {
                Ok(m) => Ok(Some(m)),
                Err(e) => Err(e),
            },
            _ => Err(()),
        },
        None => Ok(None),
    };
    match (select_parsed, inc_parsed) {
        (Ok(s), Ok(i)) => Ok(JqfView { select: s, included: i, arguments: args_of(fs, top) }),
        _ => Err(()),
    }
}

#[via_fn]
proof fn spec_parse_jqf_dec(fs: Seq<(Seq<char>, JsonVal)>, top: bool) {
    if obj_lookup(fs, "select"@) is Some {
        lemma_jh_obj_lookup(fs, "select"@, 0);
    }
    if obj_lookup(fs, included_key()) is Some {
        lemma_jh_obj_lookup(fs, included_key(), 0);
    }
}

/// Decoding of a whole request: a model name, an action, and the node.
pub open spec fn spec_parse_jq(v: JsonVal) -> Result<JqView, ()> {
    match v {
        JsonVal::Obj(fs) => {
            let mn = obj_lookup(fs, "modelName"@);
            let ac = obj_lookup(fs, "action"@);
            match (mn, ac) {
                (Some(JsonVal::Text(model_name)), Some(JsonVal::Text(action_name))) => match (
                spec_parse_action(action_name),
                spec_parse_jqf(fs, true),
                ) {
                    (Some(action), Ok(f)) => Ok(JqView { model_name, action, query: f }),
                    _ => Err(()),
                },
                _ => Err(()),
            }
        },
        _ => Err(()),
    }
}

} // verus!

verus! {

/// A request that cannot be converted, with a message for the caller.
#[derive(Debug, PartialEq)]
pub enum HandlerError {
    QueryConversion(String),
}

fn conversion_error(msg: &'static str) -> (r: HandlerError) {
    HandlerError::QueryConversion(String::from_str(msg))
}

/// A failed member fails the whole select map.
proof fn lemma_so_map_err(fs: Seq<(Seq<char>, JsonVal)>, j: int)
    requires
        0 <= j < fs.len(),
        spec_parse_so_map_entry(fs[j].1) is Err,
    ensures
        spec_parse_so_map(fs) is Err,
    decreases fs.len(),
{
    if j == fs.len() - 1 {
    } else {
        lemma_so_map_err(fs.drop_last(), j);
    }
}

/// Decodes a select or include map.
#[verifier::loop_isolation(false)]
fn parse_so_map(sfs: &Vec<(String, JsonValue)>) -> (r: Result<
    Vec<(String, SelectionOption)>,
    HandlerError,
>)
    ensures
        match spec_parse_so_map(json_obj_view(sfs@)) {
            Ok(m) => r matches Ok(v) && so_map_view(v@) == m,
            Err(_) => r is Err,
        },
    decreases jh_obj(json_obj_view(sfs@)), sfs@.len() + 1int,
{
    let ghost fsv = json_obj_view(sfs@);
    proof {
        lemma_json_obj_view(sfs@);
    }
    let mut out: Vec<(String, SelectionOption)> = Vec::new();
    let mut i: usize = 0;
    while i < sfs.len()
        invariant
            i <= sfs@.len(),
            spec_parse_so_map(fsv.subrange(0, i as int)) matches Ok(m) && so_map_view(out@) == m,
        decreases sfs@.len() - i,
    {
        let key = sfs[i].0.clone();
        let ghost pre_out = out@;
        match &sfs[i].1 {
            JsonValue::Bool(b) => {
                out.push((key, SelectionOption::Bool(*b)));
            },
            JsonValue::Object(sub) => {
                proof {
                    lemma_jh_obj_member(fsv, i as int);
                    assert(fsv[i as int].1 == json_view(sfs@[i as int].1));
                    assert(jh(JsonVal::Obj(json_obj_view(sub@))) <= jh_obj(fsv));
                }
                match parse_jqf(sub, false) {
                    Ok(f) => {
                        out.push((key, SelectionOption::SubQuery(f)));
                    },
                    Err(e) => {
                        proof {
                            lemma_so_map_err(fsv, i as int);
                        }
                        return Err(e);
                    },
                }
            },
            _ => {
                proof {
                    lemma_so_map_err(fsv, i as int);
                }
                return Err(conversion_error("selection entries must be switches or subqueries"));
            },
        }
        proof {
            lemma_so_map_view(out@);
            lemma_so_map_view(pre_out);
            assert(out@.drop_last() =~= pre_out);
            assert(fsv.subrange(0, i as int + 1).drop_last() =~= fsv.subrange(0, i as int));
            assert(fsv.subrange(0, i as int + 1).last() == fsv[i as int]);
            assert(so_map_view(out@) =~= so_map_view(pre_out).push(
                (out@.last().0@, so_view(out@.last().1)),
            ));
        }
        i += 1;
    }
    proof {
        assert(fsv.subrange(0, fsv.len() as int) =~= fsv);
    }
    Ok(out)
}

/// Decodes one request node: the select and include maps and the remaining
/// members as arguments, in declared order.
#[verifier::loop_isolation(false)]
fn parse_jqf(fs: &Vec<(String, JsonValue)>, top: bool) -> (r: Result<JsonQueryField, HandlerError>)
    ensures
        match spec_parse_jqf(json_obj_view(fs@), top) {
            Ok(f) => r matches Ok(q) && jqf_view(q) == f,
            Err(_) => r is Err,
        },
    decreases jh_obj(json_obj_view(fs@)), 0int,
{
    let ghost fsv = json_obj_view(fs@);
    proof {
        lemma_json_obj_view(fs@);
    }
    let select_key = String::from_str("select");
    let inc_key = included_key_string();
    let select: Option<Vec<(String, SelectionOption)>> = match json_object_get(fs, &select_key) {
        Some(val) => match val {
            JsonValue::Object(sub) => {
                proof {
                    lemma_jh_obj_lookup(fsv, "select"@, 0);
                }
                match parse_so_map(sub) {
                    Ok(m) => Some(m),
                    Err(e) => {
                        return Err(e);
                    },
                }
            },
            _ => {
                return Err(conversion_error("select must be an object"));
            },
        },
        None => None,
    };
    let included: Option<Vec<(String, SelectionOption)>> = match json_object_get(fs, &inc_key) {
        Some(val) => match val {
            JsonValue::Object(sub) => {
                proof {
                    lemma_jh_obj_lookup(fsv, included_key(), 0);
                }
                match parse_so_map(sub) {
                    Ok(m) => Some(m),
                    Err(e) => {
                        return Err(e);
                    },
                }
            },
            _ => {
                return Err(conversion_error("included relations must be an object"));
            },
        },
        None => None,
    };
    let model_key = String::from_str("modelName");
    let action_key = String::from_str("action");
    let query_key = String::from_str("query");
    let mut arguments: Vec<(String, JsonValue)> = Vec::new();
    let mut i: usize = 0;
    while i < fs.len()
        invariant
            i <= fs@.len(),
            json_obj_view(arguments@) == args_of(fsv.subrange(0, i as int), top),
        decreases fs@.len() - i,
    {
        let key = &fs[i].0;
        let reserved = *key == select_key || *key == inc_key || (top && (*key == model_key || *key
            == action_key || *key == query_key));
        let ghost pre_args = arguments@;
        if !reserved {
            arguments.push((key.clone(), fs[i].1.clone()));
        }
        proof {
            lemma_json_obj_view(arguments@);
            lemma_json_obj_view(pre_args);
            assert(fsv.subrange(0, i as int + 1).drop_last() =~= fsv.subrange(0, i as int));
            assert(fsv.subrange(0, i as int + 1).last() == fsv[i as int]);
            assert(reserved == is_reserved_key(fsv[i as int].0, top));
            if !reserved {
                assert(arguments@.drop_last() =~= pre_args);
                assert(json_obj_view(arguments@) =~= json_obj_view(pre_args).push(
                    (fsv[i as int].0, fsv[i as int].1),
                ));
                assert(json_obj_view(arguments@) =~= args_of(fsv.subrange(0, i as int + 1), top));
            } else {
                assert(args_of(fsv.subrange(0, i as int + 1), top) =~= args_of(
                    fsv.subrange(0, i as int),
                    top,
                ));
            }
        }
        i += 1;
    }
    proof {
        assert(fsv.subrange(0, fsv.len() as int) =~= fsv);
    }
    Ok(JsonQueryField { selection: Selection { select, included }, arguments })
}

/// Decodes a whole request document into the typed request.
pub fn parse_json_query(v: &JsonValue) -> (r: Result<JsonQuery, HandlerError>)
    ensures
        match spec_parse_jq(json_view(*v)) {
            Ok(q) => r matches Ok(jq) && jq_view(jq) == q,
            Err(_) => r is Err,
        },
{
    match v {
        JsonValue::Object(fs) => {
            let model_name: String = match json_object_get(fs, &String::from_str("modelName")) {
                Some(val) => match val {
                    JsonValue::String(s) => s.clone(),
                    _ => {
                        return Err(conversion_error("modelName must be a string"));
                    },
                },
                None => {
                    return Err(conversion_error("modelName is missing"));
                },
            };
            let action: TopLevelAction = match json_object_get(fs, &String::from_str("action")) {
                Some(val) => match val {
                    JsonValue::String(s) => match parse_action(s) {
                        Some(a) => a,
                        None => {
                            return Err(conversion_error("unknown action"));
                        },
                    },
                    _ => {
                        return Err(conversion_error("action must be a string"));
                    },
                },
                None => {
                    return Err(conversion_error("action is missing"));
                },
            };
            match parse_jqf(fs, true) {
                Ok(query) => Ok(JsonQuery { model_name, action, query }),
                Err(e) => Err(e),
            }
        },
        _ => Err(conversion_error("the request must be an object")),
    }
}

} // verus!

verus! {

// ---------------------------------------------------------------------------
// Argument conversion against the schema's input types.
// ---------------------------------------------------------------------------

/// Conversion of one document value against one input type.
pub open spec fn spec_arg_from_type(qs: QuerySchema, t: InputType, v: JsonVal) -> Result<
    ArgVal,
    (),
>
    decreases jh(v), 0nat, 0nat,
    via spec_arg_from_type_dec
{
    match t {
        InputType::Scalar(st) => match st {
            ScalarType::Null => if v is Null {
                Ok(ArgVal::Null)
            } else {
                Err(())
            },
            ScalarType::Int => match v {
                JsonVal::Int(n) => Ok(ArgVal::Int(n)),
                _ => Err(()),
            },
            ScalarType::Float => match v {
                JsonVal::Float(s) => Ok(ArgVal::Float(s)),
                JsonVal::Int(n) => Ok(ArgVal::Int(n)),
                _ => Err(()),
            },
            ScalarType::Boolean => match v {
                JsonVal::Bool(b) => Ok(ArgVal::Bool(b)),
                _ => Err(()),
            },
            ScalarType::Json => Ok(ArgVal::Json(v)),
            ScalarType::JsonList => Ok(ArgVal::Json(v)),
            _ => match v {
                JsonVal::Text(s) => Ok(ArgVal::Text(s)),
                _ => Err(()),
            },
        },
        InputType::Enum(_) => match v {
            JsonVal::Text(s) => Ok(ArgVal::EnumVal(s)),
            _ => Err(()),
        },
        InputType::List(inner) => match v {
            JsonVal::Arr(xs) => match spec_arg_list(qs, *inner, xs) {
                Ok(items) => Ok(ArgVal::List(items)),
                Err(e) => Err(e),
            },
            _ => Err(()),
        },
        InputType::Object(oid) => match v {
            JsonVal::Obj(fs) => if oid < qs.input_object_types@.len() {
                match spec_arg_object(qs, qs.input_object_types@[oid as int], fs) {
                    Ok(members) => Ok(ArgVal::Obj(members)),
                    Err(e) => Err(e),
                }
            } else {
                Err(())
            },
            _ => Err(()),
        },
    }
}

#[via_fn]
proof fn spec_arg_from_type_dec(qs: QuerySchema, t: InputType, v: JsonVal) {
}

pub open spec fn spec_arg_list(qs: QuerySchema, t: InputType, xs: Seq<JsonVal>) -> Result<
    Seq<ArgVal>,
    (),
>
    decreases jh_seq(xs), 3nat, xs.len(),
    via spec_arg_list_dec
{
    if xs.len() == 0 {
        Ok(Seq::empty())
    } else {
        match spec_arg_from_type(qs, t, xs.last()) {
            Ok(a) => match spec_arg_list(qs, t, xs.drop_last()) {
                Ok(rest) => Ok(rest.push(a)),
                Err(e) => Err(e),
            },
            Err(e) => Err(e),
        }
    }
}

#[via_fn]
proof fn spec_arg_list_dec(qs: QuerySchema, t: InputType, xs: Seq<JsonVal>) {
    if xs.len() > 0 {
        lemma_jh_seq_member(xs, xs.len() - 1);
    }
}

pub open spec fn spec_arg_object(
    qs: QuerySchema,
    o: InputObjectType,
    fs: Seq<(Seq<char>, JsonVal)>,
) -> Result<Seq<(Seq<char>, ArgVal)>, ()>
    decreases jh_obj(fs), 3nat, fs.len(),
    via spec_arg_object_dec
{
    if fs.len() == 0 {
        Ok(Seq::empty())
    } else {
        match spec_find_input_field(o.fields@, fs.last().0, 0) {
            Some(k) => match spec_arg_from_field(qs, o.fields@[k], fs.last().1) {
                Ok(a) => match spec_arg_object(qs, o, fs.drop_last()) {
                    Ok(rest) => Ok(rest.push((fs.last().0, a))),
                    Err(e) => Err(e),
                },
                Err(e) => Err(e),
            },
            None => Err(()),
        }
    }
}

#[via_fn]
proof fn spec_arg_object_dec(qs: QuerySchema, o: InputObjectType, fs: Seq<(Seq<char>, JsonVal)>) {
    if fs.len() > 0 {
        lemma_jh_obj_member(fs, fs.len() - 1);
    }
}

/// Index of the first input field with the given name.
pub open spec fn spec_find_input_field(fields: Seq<InputField>, name: Seq<char>, i: int) -> Option<
    int,
>
    decreases fields.len() - i,
{
    if i < 0 || i >= fields.len() {
        None
    } else if fields[i].name@ == name {
        Some(i)
    } else {
        spec_find_input_field(fields, name, i + 1)
    }
}

/// Conversion of one document value against one input field: a null value
/// for a required field is rejected; otherwise the first of the field's
/// types that accepts the value decides.
pub open spec fn spec_arg_from_field(qs: QuerySchema, f: InputField, v: JsonVal) -> Result<
    ArgVal,
    (),
>
    decreases jh(v), 2nat, 0nat,
{
    if v is Null && f.is_required {
        Err(())
    } else {
        spec_try_types(qs, f.field_types@, v)
    }
}

pub open spec fn spec_try_types(qs: QuerySchema, ts: Seq<InputType>, v: JsonVal) -> Result<
    ArgVal,
    (),
>
    decreases jh(v), 1nat, ts.len(),
{
    if ts.len() == 0 {
        Err(())
    } else {
        match spec_arg_from_type(qs, ts[0], v) {
            Ok(a) => Ok(a),
            Err(_) => spec_try_types(qs, ts.drop_first(), v),
        }
    }
}

// ---------------------------------------------------------------------------
// Selection building.
// ---------------------------------------------------------------------------

/// Index of the first top-level field addressing the named model with the
/// given tag.
pub open spec fn spec_find_field_by_model_and_tag(
    dm: crate::cursor::InternalDataModel,
    o: ObjectType,
    model_name: Seq<char>,
    tag: QueryTag,
    i: int,
) -> Option<int>
    decreases o.fields@.len() - i,
{
    if i < 0 || i >= o.fields@.len() {
        None
    } else if match o.fields@[i].query_info {
        Some(qi) => match qi.model {
            Some(mid) => mid.0 < dm.schema.models@.len() && crate::cursor::model_def_of(
                dm,
                mid,
            ).name@ == model_name && qi.tag == tag,
            None => false,
        },
        None => false,
    } {
        Some(i)
    } else {
        spec_find_field_by_model_and_tag(dm, o, model_name, tag, i + 1)
    }
}

/// The default nested shape of an object type: one childless selection per
/// scalar field, in field order.
pub open spec fn spec_default_nested(fields: Seq<OutputField>) -> Seq<SelView>
    decreases fields,
{
    if fields.len() == 0 {
        Seq::empty()
    } else {
        spec_default_nested(fields.drop_last()) + (
        if fields.last().field_type is Scalar || fields.last().field_type is Enum {
            seq![
                SelView {
                    name: fields.last().name@,
                    alias: None,
                    args: Seq::empty(),
                    nested: Seq::empty(),
                },
            ]
        } else {
            Seq::empty()
        })
    }
}

/// The default selection of one output field: its name, and for an
/// object-shaped field the default nested shape of its object type.
pub open spec fn spec_build_default_selection(qs: QuerySchema, field: OutputField) -> SelView {
    SelView {
        name: field.name@,
        alias: None,
        args: Seq::empty(),
        nested: match field.field_type {
            OutputType::Object(oid) => if oid < qs.object_types@.len() {
                spec_default_nested(qs.object_types@[oid as int].fields@)
            } else {
                Seq::empty()
            },
            OutputType::ObjectList(oid) => if oid < qs.object_types@.len() {
                spec_default_nested(qs.object_types@[oid as int].fields@)
            } else {
                Seq::empty()
            },
            _ => Seq::empty(),
        },
    }
}

/// The arguments of a selection, converted in declared order against the
/// top-level field's argument types.
pub open spec fn spec_add_arguments(
    qs: QuerySchema,
    field: OutputField,
    args: Seq<(Seq<char>, JsonVal)>,
) -> Result<Seq<(Seq<char>, ArgVal)>, ()>
    decreases args.len(),
{
    if args.len() == 0 {
        Ok(Seq::empty())
    } else {
        match spec_add_arguments(qs, field, args.drop_last()) {
            Ok(rest) => match spec_find_input_field(field.arguments@, args.last().0, 0) {
                Some(k) => match spec_arg_from_field(
                    qs,
                    field.arguments@[k],
                    args.last().1,
                ) {
                    Ok(a) => Ok(rest.push((args.last().0, a))),
                    Err(e) => Err(e),
                },
                None => Err(()),
            },
            Err(e) => Err(e),
        }
    }
}

/// One node of the requested shape, converted against the schema.
///
/// A node naming both a select and an include map is rejected. An explicit
/// select map decides the nested shape alone; otherwise the default shape
/// is taken and an include map appends to it.
pub open spec fn spec_build_selection(
    dm: crate::cursor::InternalDataModel,
    qs: QuerySchema,
    name: Seq<char>,
    field: OutputField,
    qf: JqfView,
) -> Result<SelView, ()>
    decreases qf, 1int,
{
    if qf.select is Some && qf.included is Some {
        Err(())
    } else {
        match field.field_type {
            OutputType::Object(oid) | OutputType::ObjectList(oid) => if oid
                < qs.object_types@.len() {
                let o = qs.object_types@[oid as int];
                let base = SelView { name: name, alias: None, args: Seq::empty(), nested: Seq::empty() };
                let shaped: Result<SelView, ()> = match qf.select {
                    Some(entries) => spec_add_selection_fields(dm, qs, base, o, entries),
                    None => {
                        let with_defaults = SelView { nested: spec_default_nested(o.fields@), ..base };
                        match qf.included {
                            Some(entries) => spec_add_selection_fields(
                                dm,
                                qs,
                                with_defaults,
                                o,
                                entries,
                            ),
                            None => Ok(with_defaults),
                        }
                    },
                };
                match shaped {
                    Ok(sel) => match spec_add_arguments(qs, field, qf.arguments) {
                        Ok(args) => Ok(SelView { args: args, ..sel }),
                        Err(e) => Err(e),
                    },
                    Err(e) => Err(e),
                }
            } else {
                Err(())
            },
            _ => Err(()),
        }
    }
}

/// Appends one converted selection per map entry: a switched-on field adds
/// its default selection, a subquery adds its converted selection, and a
/// switched-off field adds nothing.
pub open spec fn spec_add_selection_fields(
    dm: crate::cursor::InternalDataModel,
    qs: QuerySchema,
    sel: SelView,
    o: ObjectType,
    entries: Seq<(Seq<char>, SoView)>,
) -> Result<SelView, ()>
    decreases entries, 2int,
{
    if entries.len() == 0 {
        Ok(sel)
    } else {
        match spec_add_selection_fields(dm, qs, sel, o, entries.drop_last()) {
            Ok(acc) => match find_out_field_from(o, entries.last().0, 0) {
                Some(k) => match entries.last().1 {
                    SoView::Bool(b) => if b {
                        Ok(
                            SelView {
                                nested: acc.nested.push(
                                    spec_build_default_selection(qs, o.fields@[k]),
                                ),
                                ..acc
                            },
                        )
                    } else {
                        Ok(acc)
                    },
                    SoView::SubQuery(sub) => match spec_build_selection(
                        dm,
                        qs,
                        entries.last().0,
                        o.fields@[k],
                        sub,
                    ) {
                        Ok(nested_sel) => Ok(
                            SelView { nested: acc.nested.push(nested_sel), ..acc },
                        ),
                        Err(e) => Err(e),
                    },
                },
                None => Err(()),
            },
            Err(e) => Err(e),
        }
    }
}

/// One whole request, converted into a typed operation.
pub open spec fn spec_convert(
    dm: crate::cursor::InternalDataModel,
    qs: QuerySchema,
    q: JqView,
) -> Result<crate::operation::OpView, ()> {
    let kind = crate::json_query::spec_action_kind(q.action);
    let tag = crate::json_query::spec_action_tag(q.action);
    let root = if kind is Read {
        qs.object_types@[qs.query as int]
    } else {
        qs.object_types@[qs.mutation as int]
    };
    match spec_find_field_by_model_and_tag(dm, root, q.model_name, tag, 0) {
        Some(i) => {
            let field = root.fields@[i];
            match spec_build_selection(dm, qs, field.name@, field, q.query) {
                Ok(sel) => if kind is Read {
                    Ok(crate::operation::OpView::Read(sel))
                } else {
                    Ok(crate::operation::OpView::Write(sel))
                },
                Err(e) => Err(e),
            }
        },
        None => Err(()),
    }
}

} // verus!

verus! {

/// First input field with the given name.
fn find_input_field<'a>(fields: &'a Vec<InputField>, name: &String) -> (r: Option<&'a InputField>)
    ensures
        match spec_find_input_field(fields@, name@, 0) {
            Some(i) => r matches Some(f) && *f == fields@[i],
            None => r is None,
        },
{
    let mut i: usize = 0;
    while i < fields.len()
        invariant
            i <= fields@.len(),
            spec_find_input_field(fields@, name@, 0) == spec_find_input_field(
                fields@,
                name@,
                i as int,
            ),
        decreases fields@.len() - i,
    {
        if fields[i].name == *name {
            proof {
                assert(spec_find_input_field(fields@, name@, i as int) == Some(i as int));
            }
            return Some(&fields[i]);
        }
        proof {
            assert(spec_find_input_field(fields@, name@, i as int) == spec_find_input_field(
                fields@,
                name@,
                i as int + 1,
            ));
        }
        i += 1;
    }
    proof {
        assert(spec_find_input_field(fields@, name@, i as int) is None);
    }
    None
}

/// Converts one document value against one input type.
#[verifier::loop_isolation(false)]
fn build_argument_from_type(qs: &QuerySchema, t: &InputType, v: &JsonValue) -> (r: Result<
    crate::value::ArgumentValue,
    HandlerError,
>)
    ensures
        match spec_arg_from_type(*qs, *t, json_view(*v)) {
            Ok(a) => r matches Ok(av) && crate::value::arg_view(av) == a,
            Err(_) => r is Err,
        },
    decreases jh(json_view(*v)), 0int, 0int,
{
    let ghost vv = json_view(*v);
    match t {
        InputType::Scalar(st) => match st {
            ScalarType::Null => match v {
                JsonValue::Null => Ok(crate::value::ArgumentValue::Null),
                _ => Err(conversion_error("null value expected")),
            },
            ScalarType::Int => match v {
                JsonValue::Int(n) => Ok(crate::value::ArgumentValue::Int(*n)),
                _ => Err(conversion_error("invalid value for an integer input")),
            },
            ScalarType::Float => match v {
                JsonValue::Float(s) => Ok(crate::value::ArgumentValue::Float(s.clone())),
                JsonValue::Int(n) => Ok(crate::value::ArgumentValue::Int(*n)),
                _ => Err(conversion_error("invalid value for a float input")),
            },
            ScalarType::Boolean => match v {
                JsonValue::Bool(b) => Ok(crate::value::ArgumentValue::Boolean(*b)),
                _ => Err(conversion_error("invalid value for a boolean input")),
            },
            ScalarType::Json => Ok(crate::value::ArgumentValue::Json(v.clone())),
            ScalarType::JsonList => Ok(crate::value::ArgumentValue::Json(v.clone())),
            _ => match v {
                JsonValue::String(s) => Ok(crate::value::ArgumentValue::String(s.clone())),
                _ => Err(conversion_error("invalid value for a string-like input")),
            },
        },
        InputType::Enum(_) => match v {
            JsonValue::String(s) => Ok(crate::value::ArgumentValue::Enum(s.clone())),
            _ => Err(conversion_error("invalid value for an enum input")),
        },
        InputType::List(inner) => match v {
            JsonValue::Array(xs) => {
                proof {
                    crate::json::lemma_json_seq_view(xs@);
                }
                let ghost xsv = crate::json::json_seq_view(xs@);
                let mut out: Vec<crate::value::ArgumentValue> = Vec::new();
                let mut i: usize = 0;
                while i < xs.len()
                    invariant
                        i <= xs@.len(),
                        *v is Array,
                        *xs == v->Array_0,
                        spec_arg_list(*qs, **inner, xsv.subrange(0, i as int)) matches Ok(m)
                            && crate::value::arg_seq_view(out@) == m,
                    decreases xs@.len() - i,
                {
                    proof {
                        lemma_jh_seq_member(xsv, i as int);
                        assert(xsv[i as int] == json_view(xs@[i as int]));
                    }
                    let ghost pre_out = out@;
                    match build_argument_from_type(qs, inner, &xs[i]) {
                        Ok(a) => {
                            out.push(a);
                        },
                        Err(e) => {
                            proof {
                                lemma_arg_list_err(*qs, **inner, xsv, i as int);
                            }
                            return Err(e);
                        },
                    }
                    proof {
                        crate::value::lemma_arg_seq_view(out@);
                        crate::value::lemma_arg_seq_view(pre_out);
                        assert(out@.drop_last() =~= pre_out);
                        assert(xsv.subrange(0, i as int + 1).drop_last() =~= xsv.subrange(
                            0,
                            i as int,
                        ));
                        assert(xsv.subrange(0, i as int + 1).last() == xsv[i as int]);
                        assert(crate::value::arg_seq_view(out@) =~= crate::value::arg_seq_view(
                            pre_out,
                        ).push(crate::value::arg_view(out@.last())));
                    }
                    i += 1;
                }
                proof {
                    assert(xsv.subrange(0, xsv.len() as int) =~= xsv);
                }
                Ok(crate::value::ArgumentValue::List(out))
            },
            _ => Err(conversion_error("not an array")),
        },
        InputType::Object(oid) => match v {
            JsonValue::Object(fs) => {
                if *oid >= qs.input_object_types.len() {
                    return Err(conversion_error("unknown input object type"));
                }
                proof {
                    lemma_json_obj_view(fs@);
                }
                let ghost fsv = json_obj_view(fs@);
                let o = &qs.input_object_types[*oid];
                let mut out: Vec<(String, crate::value::ArgumentValue)> = Vec::new();
                let mut i: usize = 0;
                while i < fs.len()
                    invariant
                        i <= fs@.len(),
                        *v is Object,
                        *fs == v->Object_0,
                        *o == qs.input_object_types@[*oid as int],
                        *oid < qs.input_object_types@.len(),
                        spec_arg_object(*qs, *o, fsv.subrange(0, i as int)) matches Ok(m)
                            && crate::value::arg_obj_view(out@) == m,
                    decreases fs@.len() - i,
                {
                    proof {
                        lemma_jh_obj_member(fsv, i as int);
                        assert(fsv[i as int] == (fs@[i as int].0@, json_view(fs@[i as int].1)));
                    }
                    let ghost pre_out = out@;
                    let key = fs[i].0.clone();
                    match find_input_field(&o.fields, &key) {
                        Some(f) => {
                            match build_argument_from_field(qs, f, &fs[i].1) {
                                Ok(a) => {
                                    out.push((key, a));
                                },
                                Err(e) => {
                                    proof {
                                        lemma_arg_object_err(*qs, *o, fsv, i as int);
                                    }
                                    return Err(e);
                                },
                            }
                        },
                        None => {
                            proof {
                                lemma_arg_object_err(*qs, *o, fsv, i as int);
                            }
                            return Err(conversion_error("input field not found"));
                        },
                    }
                    proof {
                        crate::value::lemma_arg_obj_view(out@);
                        crate::value::lemma_arg_obj_view(pre_out);
                        assert(out@.drop_last() =~= pre_out);
                        assert(fsv.subrange(0, i as int + 1).drop_last() =~= fsv.subrange(
                            0,
                            i as int,
                        ));
                        assert(fsv.subrange(0, i as int + 1).last() == fsv[i as int]);
                        assert(crate::value::arg_obj_view(out@) =~= crate::value::arg_obj_view(
                            pre_out,
                        ).push((out@.last().0@, crate::value::arg_view(out@.last().1))));
                    }
                    i += 1;
                }
                proof {
                    assert(fsv.subrange(0, fsv.len() as int) =~= fsv);
                }
                Ok(crate::value::ArgumentValue::Object(out))
            },
            _ => Err(conversion_error("not an object")),
        },
    }
}

/// A failed element fails the whole list conversion.
proof fn lemma_arg_list_err(qs: QuerySchema, t: InputType, xs: Seq<JsonVal>, j: int)
    requires
        0 <= j < xs.len(),
        spec_arg_from_type(qs, t, xs[j]) is Err,
    ensures
        spec_arg_list(qs, t, xs) is Err,
    decreases xs.len(),
{
    if j == xs.len() - 1 {
    } else {
        lemma_arg_list_err(qs, t, xs.drop_last(), j);
    }
}

/// A failed member fails the whole object conversion.
proof fn lemma_arg_object_err(
    qs: QuerySchema,
    o: InputObjectType,
    fs: Seq<(Seq<char>, JsonVal)>,
    j: int,
)
    requires
        0 <= j < fs.len(),
        match spec_find_input_field(o.fields@, fs[j].0, 0) {
            Some(k) => spec_arg_from_field(qs, o.fields@[k], fs[j].1) is Err,
            None => true,
        },
    ensures
        spec_arg_object(qs, o, fs) is Err,
    decreases fs.len(),
{
    if j == fs.len() - 1 {
    } else {
        lemma_arg_object_err(qs, o, fs.drop_last(), j);
    }
}

/// Converts one document value against one input field.
#[verifier::loop_isolation(false)]
fn build_argument_from_field(qs: &QuerySchema, f: &InputField, v: &JsonValue) -> (r: Result<
    crate::value::ArgumentValue,
    HandlerError,
>)
    ensures
        match spec_arg_from_field(*qs, *f, json_view(*v)) {
            Ok(a) => r matches Ok(av) && crate::value::arg_view(av) == a,
            Err(_) => r is Err,
        },
    decreases jh(json_view(*v)), 2int, 0int,
{
    let is_null = matches!(v, JsonValue::Null);
    if is_null && f.is_required {
        return Err(conversion_error("a required input is null"));
    }
    let ghost vv = json_view(*v);
    proof {
        assert(f.field_types@.skip(0) =~= f.field_types@);
    }
    let mut i: usize = 0;
    while i < f.field_types.len()
        invariant
            i <= f.field_types@.len(),
            spec_try_types(*qs, f.field_types@, vv) == spec_try_types(
                *qs,
                f.field_types@.skip(i as int),
                vv,
            ),
        decreases f.field_types@.len() - i,
    {
        proof {
            assert(f.field_types@.skip(i as int)[0] == f.field_types@[i as int]);
        }
        match build_argument_from_type(qs, &f.field_types[i], v) {
            Ok(a) => {
                return Ok(a);
            },
            Err(_) => {},
        }
        proof {
            assert(f.field_types@.skip(i as int).drop_first() =~= f.field_types@.skip(
                i as int + 1,
            ));
        }
        i += 1;
    }
    proof {
        assert(f.field_types@.skip(i as int).len() == 0);
    }
    Err(conversion_error("the value does not match any input type"))
}

} // verus!

verus! {

/// First top-level field addressing the named model with the given tag.
fn find_field_by_model_and_tag<'a>(
    dm: &crate::cursor::InternalDataModel,
    object_type: &'a ObjectType,
    model_name: &String,
    tag: QueryTag,
) -> (r: Option<&'a OutputField>)
    ensures
        match spec_find_field_by_model_and_tag(*dm, *object_type, model_name@, tag, 0) {
            Some(i) => r matches Some(f) && *f == object_type.fields@[i],
            None => r is None,
        },
{
    let mut i: usize = 0;
    while i < object_type.fields.len()
        invariant
            i <= object_type.fields@.len(),
            spec_find_field_by_model_and_tag(*dm, *object_type, model_name@, tag, 0)
                == spec_find_field_by_model_and_tag(*dm, *object_type, model_name@, tag, i as int),
        decreases object_type.fields@.len() - i,
    {
        let f = &object_type.fields[i];
        let matches_field = match &f.query_info {
            Some(qi) => match qi.model {
                Some(mid) => mid.0 < dm.schema.models.len() && dm.schema.models[mid.0].name
                    == *model_name && qi.tag == tag,
                None => false,
            },
            None => false,
        };
        if matches_field {
            proof {
                assert(spec_find_field_by_model_and_tag(
                    *dm,
                    *object_type,
                    model_name@,
                    tag,
                    i as int,
                ) == Some(i as int));
            }
            return Some(f);
        }
        proof {
            assert(spec_find_field_by_model_and_tag(*dm, *object_type, model_name@, tag, i as int)
                == spec_find_field_by_model_and_tag(
                *dm,
                *object_type,
                model_name@,
                tag,
                i as int + 1,
            ));
        }
        i += 1;
    }
    proof {
        assert(spec_find_field_by_model_and_tag(*dm, *object_type, model_name@, tag, i as int)
            is None);
    }
    None
}

/// Appends the default selection of every scalar field of the object
/// type: the nested shape a node gets when no explicit select map names
/// one.
#[verifier::loop_isolation(false)]
pub fn add_default_selections(selection: &mut crate::operation::Selection, field_type: &ObjectType)
    ensures
        sel_view(*final(selection)) == (SelView {
            nested: sel_view(*old(selection)).nested + spec_default_nested(field_type.fields@),
            ..sel_view(*old(selection))
        }),
{
    let ghost base = sel_view(*selection);
    let mut i: usize = 0;
    while i < field_type.fields.len()
        invariant
            i <= field_type.fields@.len(),
            sel_view(*selection) == (SelView {
                nested: base.nested + spec_default_nested(field_type.fields@.subrange(0, i as int)),
                ..base
            }),
        decreases field_type.fields@.len() - i,
    {
        let ghost pre = sel_view(*selection);
        let f = &field_type.fields[i];
        if f.is_scalar() {
            selection.push_nested_selection(crate::operation::Selection::with_name(f.name.clone()));
        }
        proof {
            assert(field_type.fields@.subrange(0, i as int + 1).drop_last() =~= field_type.fields@.subrange(
                0,
                i as int,
            ));
            assert(field_type.fields@.subrange(0, i as int + 1).last() == field_type.fields@[
                i as int
            ]);
            if field_type.fields@[i as int].field_type is Scalar || field_type.fields@[
                i as int
            ].field_type is Enum {
                assert(base.nested + spec_default_nested(
                    field_type.fields@.subrange(0, i as int + 1),
                ) =~= (base.nested + spec_default_nested(field_type.fields@.subrange(0, i as int))).push(
                    SelView {
                        name: field_type.fields@[i as int].name@,
                        alias: None,
                        args: Seq::empty(),
                        nested: Seq::empty(),
                    },
                ));
            } else {
                assert(base.nested + spec_default_nested(
                    field_type.fields@.subrange(0, i as int + 1),
                ) =~= base.nested + spec_default_nested(field_type.fields@.subrange(0, i as int)));
            }
        }
        i += 1;
    }
    proof {
        assert(field_type.fields@.subrange(0, field_type.fields@.len() as int) =~= field_type.fields@);
    }
}

/// The default selection of one output field: its name and, for an
/// object-shaped field, the default nested shape of its object type.
pub fn build_default_selection(qs: &QuerySchema, field: &OutputField) -> (r: Result<
    crate::operation::Selection,
    HandlerError,
>)
    ensures
        r matches Ok(sel) && sel_view(sel) == spec_build_default_selection(*qs, *field),
{
    let mut selection = crate::operation::Selection::with_name(field.name.clone());
    match field.as_object_type() {
        Some(oid) => {
            if oid < qs.object_types.len() {
                add_default_selections(&mut selection, &qs.object_types[oid]);
            }
        },
        None => {},
    }
    proof {
        assert(Seq::<SelView>::empty() + spec_default_nested(Seq::<OutputField>::empty())
            =~= Seq::<SelView>::empty());
        assert(sel_view(selection).args =~= Seq::<(Seq<char>, ArgVal)>::empty());
    }
    Ok(selection)
}

} // verus!

verus! {

/// An entry that cannot be converted fails the whole map, whatever was
/// accumulated before it.
proof fn lemma_add_sel_err(
    dm: crate::cursor::InternalDataModel,
    qs: QuerySchema,
    sel: SelView,
    o: ObjectType,
    entries: Seq<(Seq<char>, SoView)>,
    j: int,
)
    requires
        0 <= j < entries.len(),
        match find_out_field_from(o, entries[j].0, 0) {
            Some(k) => entries[j].1 matches SoView::SubQuery(sub) && spec_build_selection(
                dm,
                qs,
                entries[j].0,
                o.fields@[k],
                sub,
            ) is Err,
            None => true,
        },
    ensures
        spec_add_selection_fields(dm, qs, sel, o, entries) is Err,
    decreases entries.len(),
{
    if j < entries.len() - 1 {
        lemma_add_sel_err(dm, qs, sel, o, entries.drop_last(), j);
    }
}

/// A failed argument fails the whole argument list.
proof fn lemma_add_args_err(
    qs: QuerySchema,
    field: OutputField,
    args: Seq<(Seq<char>, JsonVal)>,
    j: int,
)
    requires
        0 <= j < args.len(),
        match spec_find_input_field(field.arguments@, args[j].0, 0) {
            Some(k) => spec_arg_from_field(qs, field.arguments@[k], args[j].1) is Err,
            None => true,
        },
    ensures
        spec_add_arguments(qs, field, args) is Err,
    decreases args.len(),
{
    if j < args.len() - 1 {
        lemma_add_args_err(qs, field, args.drop_last(), j);
    }
}

/// Converts and appends one nested selection per select or include map
/// entry.
#[verifier::loop_isolation(false)]
pub fn add_selection_fields(
    dm: &crate::cursor::InternalDataModel,
    qs: &QuerySchema,
    selection: &mut crate::operation::Selection,
    field_type: &ObjectType,
    fields_map: &Vec<(String, SelectionOption)>,
) -> (r: Result<(), HandlerError>)
    ensures
        match spec_add_selection_fields(
            *dm,
            *qs,
            sel_view(*old(selection)),
            *field_type,
            so_map_view(fields_map@),
        ) {
            Ok(s) => r is Ok && sel_view(*final(selection)) == s,
            Err(_) => r is Err,
        },
    decreases *fields_map, 2int,
{
    let ghost entries = so_map_view(fields_map@);
    let ghost base = sel_view(*selection);
    proof {
        lemma_so_map_view(fields_map@);
    }
    let mut i: usize = 0;
    while i < fields_map.len()
        invariant
            i <= fields_map@.len(),
            spec_add_selection_fields(*dm, *qs, base, *field_type, entries.subrange(0, i as int))
                matches Ok(s) && sel_view(*selection) == s,
        decreases fields_map@.len() - i,
    {
        proof {
            assert(entries.subrange(0, i as int + 1).drop_last() =~= entries.subrange(0, i as int));
            assert(entries.subrange(0, i as int + 1).last() == entries[i as int]);
        }
        let name = fields_map[i].0.clone();
        match field_type.find_field(&name) {
            Some(sub_field) => {
                match &fields_map[i].1 {
                    SelectionOption::Bool(b) => {
                        if *b {
                            match build_default_selection(qs, sub_field) {
                                Ok(s) => {
                                    selection.push_nested_selection(s);
                                },
                                Err(e) => {
                                    return Err(e);
                                },
                            }
                        }
                    },
                    SelectionOption::SubQuery(query_field) => {
                        proof {
                            assert(decreases_to!(*fields_map => fields_map@));
                            assert(decreases_to!(fields_map@ => fields_map@[i as int]));
                            assert(decreases_to!(fields_map@[i as int] => fields_map@[i as int].1));
                            assert(decreases_to!(fields_map@[i as int].1 => fields_map@[i as int].1->SubQuery_0));
                            assert(decreases_to!(*fields_map => fields_map@[i as int].1->SubQuery_0));
                        }
                        match build_selection(dm, qs, name, sub_field, query_field) {
                            Ok(s) => {
                                selection.push_nested_selection(s);
                            },
                            Err(e) => {
                                proof {
                                    lemma_add_sel_err(
                                        *dm,
                                        *qs,
                                        base,
                                        *field_type,
                                        entries,
                                        i as int,
                                    );
                                }
                                return Err(e);
                            },
                        }
                    },
                }
            },
            None => {
                proof {
                    lemma_add_sel_err(*dm, *qs, base, *field_type, entries, i as int);
                }
                return Err(conversion_error("cannot find the selected field"));
            },
        }
        i += 1;
    }
    proof {
        assert(entries.subrange(0, entries.len() as int) =~= entries);
    }
    Ok(())
}

/// Converts the arguments of one request node in declared order against
/// the top-level field's argument types and appends them to the selection.
#[verifier::loop_isolation(false)]
pub fn add_arguments(
    qs: &QuerySchema,
    selection: &mut crate::operation::Selection,
    field: &OutputField,
    arguments: &Vec<(String, JsonValue)>,
) -> (r: Result<(), HandlerError>)
    ensures
        match spec_add_arguments(*qs, *field, json_obj_view(arguments@)) {
            Ok(args) => r is Ok && sel_view(*final(selection)) == (SelView {
                args: sel_view(*old(selection)).args + args,
                ..sel_view(*old(selection))
            }),
            Err(_) => r is Err,
        },
{
    let ghost argsv = json_obj_view(arguments@);
    let ghost base = sel_view(*selection);
    proof {
        lemma_json_obj_view(arguments@);
    }
    let mut i: usize = 0;
    while i < arguments.len()
        invariant
            i <= arguments@.len(),
            spec_add_arguments(*qs, *field, argsv.subrange(0, i as int)) matches Ok(a)
                && sel_view(*selection) == (SelView { args: base.args + a, ..base }),
        decreases arguments@.len() - i,
    {
        proof {
            assert(argsv.subrange(0, i as int + 1).drop_last() =~= argsv.subrange(0, i as int));
            assert(argsv.subrange(0, i as int + 1).last() == argsv[i as int]);
        }
        let key = arguments[i].0.clone();
        match find_input_field(&field.arguments, &key) {
            Some(input_field) => {
                match build_argument_from_field(qs, input_field, &arguments[i].1) {
                    Ok(a) => {
                        let ghost pre = sel_view(*selection);
                        selection.push_argument(key, a);
                        proof {
                            assert(sel_view(*selection).args =~= base.args + spec_add_arguments(
                                *qs,
                                *field,
                                argsv.subrange(0, i as int + 1),
                            )->Ok_0);
                        }
                    },
                    Err(e) => {
                        proof {
                            lemma_add_args_err(*qs, *field, argsv, i as int);
                        }
                        return Err(e);
                    },
                }
            },
            None => {
                proof {
                    lemma_add_args_err(*qs, *field, argsv, i as int);
                }
                return Err(conversion_error("unknown argument"));
            },
        }
        i += 1;
    }
    proof {
        assert(argsv.subrange(0, argsv.len() as int) =~= argsv);
    }
    Ok(())
}

/// Converting map entries changes only the nested shape: the name, alias
/// and arguments ride through.
proof fn lemma_add_sel_preserves(
    dm: crate::cursor::InternalDataModel,
    qs: QuerySchema,
    sel: SelView,
    o: ObjectType,
    entries: Seq<(Seq<char>, SoView)>,
)
    ensures
        spec_add_selection_fields(dm, qs, sel, o, entries) matches Ok(s) ==> s.args == sel.args
            && s.name == sel.name && s.alias == sel.alias,
    decreases entries.len(),
{
    if entries.len() > 0 {
        lemma_add_sel_preserves(dm, qs, sel, o, entries.drop_last());
    }
}

/// Converts one request node against its top-level field.
#[verifier::loop_isolation(false)]
pub fn build_selection(
    dm: &crate::cursor::InternalDataModel,
    qs: &QuerySchema,
    name: String,
    field: &OutputField,
    query_field: &JsonQueryField,
) -> (r: Result<crate::operation::Selection, HandlerError>)
    ensures
        match spec_build_selection(*dm, *qs, name@, *field, jqf_view(*query_field)) {
            Ok(s) => r matches Ok(sel) && sel_view(sel) == s,
            Err(_) => r is Err,
        },
    decreases *query_field, 1int,
{
    if query_field.selection.select.is_some() && query_field.selection.included.is_some() {
        return Err(conversion_error("both select and the include map are set on one node"));
    }
    let oid = match field.as_object_type() {
        Some(oid) => oid,
        None => {
            return Err(conversion_error("expected an object type"));
        },
    };
    if oid >= qs.object_types.len() {
        return Err(conversion_error("unknown object type"));
    }
    let object_type = &qs.object_types[oid];
    let mut selection = crate::operation::Selection::with_name(name);
    match &query_field.selection.select {
        Some(entries) => {
            proof {
                assert(decreases_to!(*query_field => query_field.selection));
                assert(decreases_to!(query_field.selection => query_field.selection.select));
                assert(decreases_to!(query_field.selection.select => *entries));
                assert(decreases_to!(*query_field => *entries));
            }
            match add_selection_fields(dm, qs, &mut selection, object_type, entries) {
                Ok(_u) => {},
                Err(e) => {
                    return Err(e);
                },
            }
        },
        None => {
            add_default_selections(&mut selection, object_type);
            match &query_field.selection.included {
                Some(entries) => {
                    proof {
                        assert(decreases_to!(*query_field => query_field.selection));
                        assert(decreases_to!(query_field.selection
                            => query_field.selection.included));
                        assert(decreases_to!(query_field.selection.included => *entries));
                        assert(decreases_to!(*query_field => *entries));
                    }
                    match add_selection_fields(dm, qs, &mut selection, object_type, entries) {
                        Ok(_u) => {},
                        Err(e) => {
                            return Err(e);
                        },
                    }
                },
                None => {},
            }
        },
    }
    match add_arguments(qs, &mut selection, field, &query_field.arguments) {
        Ok(_u) => {},
        Err(e) => {
            return Err(e);
        },
    }
    proof {
        let qfv = jqf_view(*query_field);
        let o = qs.object_types@[oid as int];
        let base = SelView {
            name: name@,
            alias: None,
            args: Seq::<(Seq<char>, ArgVal)>::empty(),
            nested: Seq::<SelView>::empty(),
        };
        match qfv.select {
            Some(entries) => {
                lemma_add_sel_preserves(*dm, *qs, base, o, entries);
            },
            None => {
                match qfv.included {
                    Some(entries) => {
                        lemma_add_sel_preserves(
                            *dm,
                            *qs,
                            SelView { nested: spec_default_nested(o.fields@), ..base },
                            o,
                            entries,
                        );
                    },
                    None => {},
                }
            },
        }
        assert(Seq::<(Seq<char>, ArgVal)>::empty() + spec_add_arguments(
            *qs,
            *field,
            qfv.arguments,
        )->Ok_0 =~= spec_add_arguments(*qs, *field, qfv.arguments)->Ok_0);
    }
    Ok(selection)
}

/// Converts a read request.
pub fn build_read_operation(
    query: JsonQuery,
    schema: &QuerySchema,
    dm: &crate::cursor::InternalDataModel,
) -> (r: Result<Operation, HandlerError>)
    requires
        schema.wf(),
        crate::json_query::spec_action_kind(query.action) is Read,
    ensures
        match spec_convert(*dm, *schema, jq_view(query)) {
            Ok(opv) => r matches Ok(op) && op_view(op) == opv,
            Err(_) => r is Err,
        },
{
    let tag = QueryTag::from(query.action);
    let field = match find_field_by_model_and_tag(dm, schema.query(), &query.model_name, tag) {
        Some(f) => f,
        None => {
            return Err(conversion_error("no matching top-level query field found"));
        },
    };
    match build_selection(dm, schema, field.name.clone(), field, &query.query) {
        Ok(selection) => Ok(Operation::Read(selection)),
        Err(e) => Err(e),
    }
}

/// Converts a write request.
pub fn build_write_operation(
    query: JsonQuery,
    schema: &QuerySchema,
    dm: &crate::cursor::InternalDataModel,
) -> (r: Result<Operation, HandlerError>)
    requires
        schema.wf(),
        crate::json_query::spec_action_kind(query.action) is Write,
    ensures
        match spec_convert(*dm, *schema, jq_view(query)) {
            Ok(opv) => r matches Ok(op) && op_view(op) == opv,
            Err(_) => r is Err,
        },
{
    let tag = QueryTag::from(query.action);
    let field = match find_field_by_model_and_tag(dm, schema.mutation(), &query.model_name, tag) {
        Some(f) => f,
        None => {
            return Err(conversion_error("no matching top-level query field found"));
        },
    };
    match build_selection(dm, schema, field.name.clone(), field, &query.query) {
        Ok(selection) => Ok(Operation::Write(selection)),
        Err(e) => Err(e),
    }
}

/// Converts one whole decoded request into a typed operation.
pub fn convert_json_query_to_operation(
    query: JsonQuery,
    schema: &QuerySchema,
    dm: &crate::cursor::InternalDataModel,
) -> (r: Result<Operation, HandlerError>)
    requires
        schema.wf(),
    ensures
        match spec_convert(*dm, *schema, jq_view(query)) {
            Ok(opv) => r matches Ok(op) && op_view(op) == opv,
            Err(_) => r is Err,
        },
{
    let kind = query.action.kind();
    match kind {
        crate::json_query::TopLevelActionKind::Read => build_read_operation(query, schema, dm),
        crate::json_query::TopLevelActionKind::Write => build_write_operation(query, schema, dm),
    }
}

} // verus!
