//! Serialization of a typed operation back into the wire document shape,
//! with an explicit select map — the inverse direction of the protocol
//! adapter, used to hand a request on or to replay it.

use crate::json::{JsonVal, JsonValue};
use crate::operation::{sel_seq_view, sel_view, SelView, Selection};
use crate::value::{arg_obj_view, arg_seq_view, arg_view, ArgVal, ArgumentValue};
use vstd::prelude::*;
use vstd::string::StringExecFns;

verus! {

// ---------------------------------------------------------------------------
// The serialized shapes.
// ---------------------------------------------------------------------------

pub open spec fn ser_arg(a: ArgVal) -> JsonVal
    decreases a,
{
    match a {
        ArgVal::Null => JsonVal::Null,
        ArgVal::Int(n) => JsonVal::Int(n),
        ArgVal::Float(s) => JsonVal::Float(s),
        ArgVal::Bool(b) => JsonVal::Bool(b),
        ArgVal::Text(s) => JsonVal::Text(s),
        ArgVal::EnumVal(s) => JsonVal::Text(s),
        ArgVal::Json(j) => j,
        ArgVal::List(xs) => JsonVal::Arr(ser_arg_seq(xs)),
        ArgVal::Obj(fs) => JsonVal::Obj(ser_arg_obj(fs)),
    }
}

pub open spec fn ser_arg_seq(s: Seq<ArgVal>) -> Seq<JsonVal>
    decreases s,
{
    if s.len() == 0 {
        Seq::empty()
    } else {
        ser_arg_seq(s.drop_last()).push(ser_arg(s.last()))
    }
}

pub open spec fn ser_arg_obj(s: Seq<(Seq<char>, ArgVal)>) -> Seq<(Seq<char>, JsonVal)>
    decreases s,
{
    if s.len() == 0 {
        Seq::empty()
    } else {
        ser_arg_obj(s.drop_last()).push((s.last().0, ser_arg(s.last().1)))
    }
}

/// One select-map entry: a childless selection is switched on, one with
/// children becomes a subquery with its own select map and arguments.
pub open spec fn ser_sel_entry(sv: SelView) -> JsonVal
    decreases sv, 1int,
{
    if sv.nested.len() == 0 {
        JsonVal::Bool(true)
    } else {
        JsonVal::Obj(
            seq![(("select"@), JsonVal::Obj(ser_sel_entries(sv.nested)))] + ser_arg_obj(sv.args),
        )
    }
}

pub open spec fn ser_sel_entries(nested: Seq<SelView>) -> Seq<(Seq<char>, JsonVal)>
    decreases nested, 0int,
{
    if nested.len() == 0 {
        Seq::empty()
    } else {
        ser_sel_entries(nested.drop_last()).push(
            (nested.last().name, ser_sel_entry(nested.last())),
        )
    }
}

/// The whole serialized request: the model name and action, an explicit
/// select map for the selection's shape, and the selection's arguments.
pub open spec fn ser_request(model_name: Seq<char>, action: Seq<char>, sv: SelView) -> JsonVal {
    JsonVal::Obj(
        seq![
            (("modelName"@), JsonVal::Text(model_name)),
            (("action"@), JsonVal::Text(action)),
            (("select"@), JsonVal::Obj(ser_sel_entries(sv.nested))),
        ] + ser_arg_obj(sv.args),
    )
}

// ---------------------------------------------------------------------------
// The serializer.
// ---------------------------------------------------------------------------

fn serialize_argument(a: &ArgumentValue) -> (r: JsonValue)
    ensures
        crate::json::json_view(r) == ser_arg(arg_view(*a)),
    decreases *a,
{
    match a {
        ArgumentValue::Null => JsonValue::Null,
        ArgumentValue::Int(n) => JsonValue::Int(*n),
        ArgumentValue::Float(s) => JsonValue::Float(s.clone()),
        ArgumentValue::Boolean(b) => JsonValue::Bool(*b),
        ArgumentValue::String(s) => JsonValue::String(s.clone()),
        ArgumentValue::Enum(s) => JsonValue::String(s.clone()),
        ArgumentValue::Json(j) => j.clone(),
        ArgumentValue::List(xs) => {
            proof {
                crate::value::lemma_arg_seq_view(xs@);
            }
            let mut out: Vec<JsonValue> = Vec::new();
            let mut i: usize = 0;
            while i < xs.len()
                invariant
                    i <= xs@.len(),
                    *a is List,
                    *xs == a->List_0,
                    out@.len() == i,
                    forall|j: int|
                        0 <= j < i ==> crate::json::json_view(#[trigger] out@[j]) == ser_arg(
                            arg_view(xs@[j]),
                        ),
                decreases xs@.len() - i,
            {
                proof {
                    assert(decreases_to!(*a => *xs));
                    assert(decreases_to!(*xs => xs@));
                    assert(decreases_to!(xs@ => xs@[i as int]));
                    assert(decreases_to!(*a => xs@[i as int]));
                }
                let e = serialize_argument(&xs[i]);
                out.push(e);
                i += 1;
            }
            proof {
                crate::json::lemma_json_seq_view(out@);
                lemma_ser_arg_seq(arg_seq_view(xs@));
                crate::value::lemma_arg_seq_view(xs@);
                assert forall|j: int|
                    0 <= j < out@.len() implies crate::json::json_seq_view(out@)[j] == ser_arg_seq(
                    arg_seq_view(xs@),
                )[j] by {
                    assert(crate::json::json_view(out@[j]) == ser_arg(arg_view(xs@[j])));
                    assert(ser_arg_seq(arg_seq_view(xs@))[j] == ser_arg(arg_seq_view(xs@)[j]));
                }
                assert(crate::json::json_seq_view(out@) =~= ser_arg_seq(arg_seq_view(xs@)));
            }
            JsonValue::Array(out)
        },
        ArgumentValue::Object(fs) => {
            proof {
                crate::value::lemma_arg_obj_view(fs@);
            }
            let mut out: Vec<(String, JsonValue)> = Vec::new();
            let mut i: usize = 0;
            while i < fs.len()
                invariant
                    i <= fs@.len(),
                    *a is Object,
                    *fs == a->Object_0,
                    out@.len() == i,
                    forall|j: int|
                        0 <= j < i ==> (#[trigger] out@[j]).0@ == fs@[j].0@
                            && crate::json::json_view(out@[j].1) == ser_arg(arg_view(fs@[j].1)),
                decreases fs@.len() - i,
            {
                proof {
                    assert(decreases_to!(*a => *fs));
                    assert(decreases_to!(*fs => fs@));
                    assert(decreases_to!(fs@ => fs@[i as int]));
                    assert(decreases_to!(fs@[i as int] => fs@[i as int].1));
                    assert(decreases_to!(*a => fs@[i as int].1));
                }
                let e = serialize_argument(&fs[i].1);
                out.push((fs[i].0.clone(), e));
                i += 1;
            }
            proof {
                crate::json::lemma_json_obj_view(out@);
                lemma_ser_arg_obj(arg_obj_view(fs@));
                crate::value::lemma_arg_obj_view(fs@);
                assert forall|j: int|
                    0 <= j < out@.len() implies crate::json::json_obj_view(out@)[j] == ser_arg_obj(
                    arg_obj_view(fs@),
                )[j] by {
                    assert(crate::json::json_obj_view(out@)[j] == (out@[j].0@,
                    crate::json::json_view(out@[j].1)));
                    assert(ser_arg_obj(arg_obj_view(fs@))[j] == (arg_obj_view(fs@)[j].0, ser_arg(
                        arg_obj_view(fs@)[j].1,
                    )));
                }
                assert(crate::json::json_obj_view(out@) =~= ser_arg_obj(arg_obj_view(fs@)));
            }
            JsonValue::Object(out)
        },
    }
}

pub broadcast proof fn lemma_ser_arg_seq(s: Seq<ArgVal>)
    ensures
        (#[trigger] ser_arg_seq(s)).len() == s.len(),
        forall|i: int| 0 <= i < s.len() ==> ser_arg_seq(s)[i] == ser_arg(#[trigger] s[i]),
    decreases s,
{
    if s.len() > 0 {
        lemma_ser_arg_seq(s.drop_last());
        assert forall|i: int| 0 <= i < s.len() implies ser_arg_seq(s)[i] == ser_arg(
            #[trigger] s[i],
        ) by {
            if i < s.len() - 1 {
                assert(s.drop_last()[i] == s[i]);
            } else {
                assert(s.last() == s[i]);
            }
        }
    }
}

pub broadcast proof fn lemma_ser_arg_obj(s: Seq<(Seq<char>, ArgVal)>)
    ensures
        (#[trigger] ser_arg_obj(s)).len() == s.len(),
        forall|i: int|
            0 <= i < s.len() ==> ser_arg_obj(s)[i] == ((#[trigger] s[i]).0, ser_arg(s[i].1)),
    decreases s,
{
    if s.len() > 0 {
        lemma_ser_arg_obj(s.drop_last());
        assert forall|i: int| 0 <= i < s.len() implies ser_arg_obj(s)[i] == ((#[trigger] s[i]).0,
        ser_arg(s[i].1)) by {
            if i < s.len() - 1 {
                assert(s.drop_last()[i] == s[i]);
            } else {
                assert(s.last() == s[i]);
            }
        }
    }
}

/// Serializes the arguments of one selection, appended to the given member
/// list.
fn serialize_arguments_into(
    out: &mut Vec<(String, JsonValue)>,
    args: &Vec<(String, ArgumentValue)>,
)
    ensures
        crate::json::json_obj_view(final(out)@) == crate::json::json_obj_view(old(out)@)
            + ser_arg_obj(arg_obj_view(args@)),
{
    let ghost base = crate::json::json_obj_view(out@);
    proof {
        crate::value::lemma_arg_obj_view(args@);
        lemma_ser_arg_obj(arg_obj_view(args@));
    }
    let mut i: usize = 0;
    while i < args.len()
        invariant
            i <= args@.len(),
            base == crate::json::json_obj_view(old(out)@),
            arg_obj_view(args@).len() == args@.len(),
            forall|j: int|
                0 <= j < args@.len() ==> arg_obj_view(args@)[j] == ((#[trigger] args@[j]).0@,
                arg_view(args@[j].1)),
            crate::json::json_obj_view(out@) == base + ser_arg_obj(
                arg_obj_view(args@).subrange(0, i as int),
            ),
        decreases args@.len() - i,
    {
        let ghost pre = out@;
        let v = serialize_argument(&args[i].1);
        out.push((args[i].0.clone(), v));
        proof {
            crate::json::lemma_json_obj_view(out@);
            crate::json::lemma_json_obj_view(pre);
            assert(out@.drop_last() =~= pre);
            let av = arg_obj_view(args@);
            assert(av.subrange(0, i as int + 1).drop_last() =~= av.subrange(0, i as int));
            assert(av.subrange(0, i as int + 1).last() == av[i as int]);
            assert(crate::json::json_obj_view(out@) =~= crate::json::json_obj_view(pre).push(
                (out@.last().0@, crate::json::json_view(out@.last().1)),
            ));
            assert(base + ser_arg_obj(av.subrange(0, i as int + 1)) =~= (base + ser_arg_obj(
                av.subrange(0, i as int),
            )).push((av[i as int].0, ser_arg(av[i as int].1))));
        }
        i += 1;
    }
    proof {
        assert(arg_obj_view(args@).subrange(0, args@.len() as int) =~= arg_obj_view(args@));
    }
}

/// Serializes the select map of one selection's nested shape.
fn serialize_select_map(nested: &Vec<Selection>) -> (r: Vec<(String, JsonValue)>)
    ensures
        crate::json::json_obj_view(r@) == ser_sel_entries(sel_seq_view(nested@)),
    decreases *nested, 0int,
{
    proof {
        crate::operation::lemma_sel_seq_view(nested@);
    }
    let mut out: Vec<(String, JsonValue)> = Vec::new();
    let mut i: usize = 0;
    while i < nested.len()
        invariant
            i <= nested@.len(),
            sel_seq_view(nested@).len() == nested@.len(),
            forall|j: int|
                0 <= j < nested@.len() ==> sel_seq_view(nested@)[j] == sel_view(
                    #[trigger] nested@[j],
                ),
            crate::json::json_obj_view(out@) == ser_sel_entries(
                sel_seq_view(nested@).subrange(0, i as int),
            ),
        decreases nested@.len() - i,
    {
        proof {
            assert(decreases_to!(*nested => nested@));
            assert(decreases_to!(nested@ => nested@[i as int]));
            assert(decreases_to!(*nested => nested@[i as int]));
        }
        let ghost pre = out@;
        let child = &nested[i];
        let entry = serialize_selection_entry(child);
        out.push((child.name.clone(), entry));
        proof {
            crate::json::lemma_json_obj_view(out@);
            crate::json::lemma_json_obj_view(pre);
            assert(out@.drop_last() =~= pre);
            let sv = sel_seq_view(nested@);
            assert(sv.subrange(0, i as int + 1).drop_last() =~= sv.subrange(0, i as int));
            assert(sv.subrange(0, i as int + 1).last() == sv[i as int]);
            assert(crate::json::json_obj_view(out@) =~= crate::json::json_obj_view(pre).push(
                (out@.last().0@, crate::json::json_view(out@.last().1)),
            ));
        }
        i += 1;
    }
    proof {
        let sv = sel_seq_view(nested@);
        assert(sv.subrange(0, sv.len() as int) =~= sv);
    }
    out
}

/// Serializes one nested selection as a select-map entry.
fn serialize_selection_entry(sel: &Selection) -> (r: JsonValue)
    ensures
        crate::json::json_view(r) == ser_sel_entry(sel_view(*sel)),
    decreases *sel, 1int,
{
    if sel.nested_selections.len() == 0 {
        proof {
            crate::operation::lemma_sel_seq_view(sel.nested_selections@);
        }
        JsonValue::Bool(true)
    } else {
        proof {
            assert(decreases_to!(*sel => sel.nested_selections));
        }
        let inner = serialize_select_map(&sel.nested_selections);
        let mut members: Vec<(String, JsonValue)> = Vec::new();
        members.push((String::from_str("select"), JsonValue::Object(inner)));
        proof {
            crate::json::lemma_json_obj_view(members@);
        }
        serialize_arguments_into(&mut members, &sel.arguments);
        proof {
            crate::operation::lemma_sel_seq_view(sel.nested_selections@);
            let entries = ser_sel_entries(sel_seq_view(sel.nested_selections@));
            assert(crate::json::json_obj_view(members@) =~= seq![
                (("select"@), JsonVal::Obj(entries)),
            ] + ser_arg_obj(sel_view(*sel).args));
        }
        JsonValue::Object(members)
    }
}

/// Serializes one selection as a whole request document, with the given
/// model name and action and an explicit select map.
pub fn serialize_request(model_name: String, action: String, sel: &Selection) -> (r: JsonValue)
    ensures
        crate::json::json_view(r) == ser_request(model_name@, action@, sel_view(*sel)),
{
    let select_map = serialize_select_map(&sel.nested_selections);
    let ghost mn = model_name@;
    let ghost ac = action@;
    let ghost smv = crate::json::json_obj_view(select_map@);
    let mut members: Vec<(String, JsonValue)> = Vec::new();
    members.push((String::from_str("modelName"), JsonValue::String(model_name)));
    members.push((String::from_str("action"), JsonValue::String(action)));
    members.push((String::from_str("select"), JsonValue::Object(select_map)));
    let ghost pre = members@;
    serialize_arguments_into(&mut members, &sel.arguments);
    proof {
        crate::json::lemma_json_obj_view(pre);
        let entries = ser_sel_entries(sel_view(*sel).nested);
        assert(pre.len() == 3);
        assert(crate::json::json_obj_view(pre).len() == 3);
        assert(crate::json::json_obj_view(pre)[0] == ((pre[0].0@), crate::json::json_view(
            pre[0].1,
        )));
        assert(pre[0].0@ == "modelName"@ && crate::json::json_view(pre[0].1) == JsonVal::Text(mn));
        assert(pre[1].0@ == "action"@ && crate::json::json_view(pre[1].1) == JsonVal::Text(ac));
        assert(pre[2].0@ == "select"@ && crate::json::json_view(pre[2].1) == JsonVal::Obj(entries));
        assert(crate::json::json_obj_view(pre) =~= seq![
            (("modelName"@), JsonVal::Text(mn)),
            (("action"@), JsonVal::Text(ac)),
            (("select"@), JsonVal::Obj(entries)),
        ]);
        assert(crate::json::json_obj_view(members@) =~= seq![
            (("modelName"@), JsonVal::Text(mn)),
            (("action"@), JsonVal::Text(ac)),
            (("select"@), JsonVal::Obj(entries)),
        ] + ser_arg_obj(sel_view(*sel).args));
    }
    JsonValue::Object(members)
}

} // verus!
