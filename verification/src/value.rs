//! Engine-level values.
//!
//! The core only ever sees already-decoded scalar values tagged with an
//! engine-level type; store-native marshalling is the connector's job.
//! Decimal-like quantities are carried as decimal text, never as floating
//! point.

use crate::json::{json_view, JsonVal, JsonValue};
use std::sync::Arc;
use vstd::prelude::*;

verus! {

/// One already-decoded scalar cell value.
#[derive(Debug, PartialEq)]
pub enum ScalarValue {
    Null,
    Int(i64),
    BigInt(i64),
    /// Decimal text of a non-integral number.
    Float(String),
    Decimal(String),
    Boolean(bool),
    String(String),
    Enum(String),
    Uuid(String),
    DateTime(String),
    Json(String),
    Xml(String),
    Bytes(Arc<Vec<u8>>),
}

impl Clone for ScalarValue {
    fn clone(&self) -> (r: Self)
        ensures
            r == *self,
    {
        match self {
            ScalarValue::Null => ScalarValue::Null,
            ScalarValue::Int(i) => ScalarValue::Int(*i),
            ScalarValue::BigInt(i) => ScalarValue::BigInt(*i),
            ScalarValue::Float(s) => ScalarValue::Float(s.clone()),
            ScalarValue::Decimal(s) => ScalarValue::Decimal(s.clone()),
            ScalarValue::Boolean(b) => ScalarValue::Boolean(*b),
            ScalarValue::String(s) => ScalarValue::String(s.clone()),
            ScalarValue::Enum(s) => ScalarValue::Enum(s.clone()),
            ScalarValue::Uuid(s) => ScalarValue::Uuid(s.clone()),
            ScalarValue::DateTime(s) => ScalarValue::DateTime(s.clone()),
            ScalarValue::Json(s) => ScalarValue::Json(s.clone()),
            ScalarValue::Xml(s) => ScalarValue::Xml(s.clone()),
            ScalarValue::Bytes(b) => ScalarValue::Bytes(b.clone()),
        }
    }
}

/// An argument value handed to a store operation, as the adapter built it
/// from the request document against the schema's input types.
#[derive(Debug, PartialEq)]
pub enum ArgumentValue {
    Null,
    Int(i64),
    /// Decimal text of a non-integral number.
    Float(String),
    Boolean(bool),
    String(String),
    Enum(String),
    /// A raw request-document subtree for a json-typed input.
    Json(JsonValue),
    List(Vec<ArgumentValue>),
    Object(Vec<(String, ArgumentValue)>),
}

/// The mathematical shape of an argument value.
pub enum ArgVal {
    Null,
    Int(int),
    Float(Seq<char>),
    Bool(bool),
    Text(Seq<char>),
    EnumVal(Seq<char>),
    Json(JsonVal),
    List(Seq<ArgVal>),
    Obj(Seq<(Seq<char>, ArgVal)>),
}

pub open spec fn arg_view(v: ArgumentValue) -> ArgVal
    decreases v,
{
    match v {
        ArgumentValue::Null => ArgVal::Null,
        ArgumentValue::Int(i) => ArgVal::Int(i as int),
        ArgumentValue::Float(s) => ArgVal::Float(s@),
        ArgumentValue::Boolean(b) => ArgVal::Bool(b),
        ArgumentValue::String(s) => ArgVal::Text(s@),
        ArgumentValue::Enum(s) => ArgVal::EnumVal(s@),
        ArgumentValue::Json(j) => ArgVal::Json(json_view(j)),
        ArgumentValue::List(xs) => ArgVal::List(arg_seq_view(xs@)),
        ArgumentValue::Object(fs) => ArgVal::Obj(arg_obj_view(fs@)),
    }
}

pub open spec fn arg_seq_view(s: Seq<ArgumentValue>) -> Seq<ArgVal>
    decreases s,
{
    if s.len() == 0 {
        Seq::empty()
    } else {
        arg_seq_view(s.drop_last()).push(arg_view(s.last()))
    }
}

pub open spec fn arg_obj_view(s: Seq<(String, ArgumentValue)>) -> Seq<(Seq<char>, ArgVal)>
    decreases s,
{
    if s.len() == 0 {
        Seq::empty()
    } else {
        arg_obj_view(s.drop_last()).push((s.last().0@, arg_view(s.last().1)))
    }
}

pub broadcast proof fn lemma_arg_seq_view(s: Seq<ArgumentValue>)
    ensures
        (#[trigger] arg_seq_view(s)).len() == s.len(),
        forall|i: int| 0 <= i < s.len() ==> arg_seq_view(s)[i] == arg_view(#[trigger] s[i]),
    decreases s,
{
    if s.len() > 0 {
        lemma_arg_seq_view(s.drop_last());
        assert forall|i: int| 0 <= i < s.len() implies arg_seq_view(s)[i] == arg_view(
            #[trigger] s[i],
        ) by {
            if i < s.len() - 1 {
                assert(s.drop_last()[i] == s[i]);
            } else {
                assert(s.last() == s[i]);
            }
        }
    }
}

pub broadcast proof fn lemma_arg_obj_view(s: Seq<(String, ArgumentValue)>)
    ensures
        (#[trigger] arg_obj_view(s)).len() == s.len(),
        forall|i: int|
            0 <= i < s.len() ==> arg_obj_view(s)[i] == ((#[trigger] s[i]).0@, arg_view(s[i].1)),
    decreases s,
{
    if s.len() > 0 {
        lemma_arg_obj_view(s.drop_last());
        assert forall|i: int| 0 <= i < s.len() implies arg_obj_view(s)[i] == ((#[trigger] s[i]).0@,
        arg_view(s[i].1)) by {
            if i < s.len() - 1 {
                assert(s.drop_last()[i] == s[i]);
            } else {
                assert(s.last() == s[i]);
            }
        }
    }
}

impl Clone for ArgumentValue {
    fn clone(&self) -> (r: Self)
        ensures
            arg_view(r) == arg_view(*self),
        decreases *self,
    {
        match self {
            ArgumentValue::Null => ArgumentValue::Null,
            ArgumentValue::Int(i) => ArgumentValue::Int(*i),
            ArgumentValue::Float(s) => ArgumentValue::Float(s.clone()),
            ArgumentValue::Boolean(b) => ArgumentValue::Boolean(*b),
            ArgumentValue::String(s) => ArgumentValue::String(s.clone()),
            ArgumentValue::Enum(s) => ArgumentValue::Enum(s.clone()),
            ArgumentValue::Json(j) => ArgumentValue::Json(j.clone()),
            ArgumentValue::List(xs) => {
                let mut out: Vec<ArgumentValue> = Vec::new();
                let mut i: usize = 0;
                while i < xs.len()
                    invariant
                        *self is List,
                        *xs == self->List_0,
                        i <= xs@.len(),
                        out@.len() == i,
                        forall|j: int|
                            0 <= j < i ==> arg_view(#[trigger] out@[j]) == arg_view(xs@[j]),
                    decreases xs@.len() - i,
                {
                    proof {
                        assert(decreases_to!(*self => *xs));
                        assert(decreases_to!(*xs => xs@));
                        assert(decreases_to!(xs@ => xs@[i as int]));
                        assert(decreases_to!(*self => xs@[i as int]));
                    }
                    let c = xs[i].clone();
                    out.push(c);
                    i += 1;
                }
                proof {
                    lemma_arg_seq_view(out@);
                    lemma_arg_seq_view(xs@);
                    assert forall|j: int|
                        0 <= j < out@.len() implies arg_seq_view(out@)[j] == arg_seq_view(
                        xs@,
                    )[j] by {
                        assert(arg_view(out@[j]) == arg_view(xs@[j]));
                    }
                    assert(arg_seq_view(out@) =~= arg_seq_view(xs@));
                }
                ArgumentValue::List(out)
            },
            ArgumentValue::Object(fs) => {
                let mut out: Vec<(String, ArgumentValue)> = Vec::new();
                let mut i: usize = 0;
                while i < fs.len()
                    invariant
                        *self is Object,
                        *fs == self->Object_0,
                        i <= fs@.len(),
                        out@.len() == i,
                        forall|j: int|
                            0 <= j < i ==> (#[trigger] out@[j]).0@ == fs@[j].0@ && arg_view(
                                out@[j].1,
                            ) == arg_view(fs@[j].1),
                    decreases fs@.len() - i,
                {
                    proof {
                        assert(decreases_to!(*self => *fs));
                        assert(decreases_to!(*fs => fs@));
                        assert(decreases_to!(fs@ => fs@[i as int]));
                        assert(decreases_to!(fs@[i as int] => fs@[i as int].1));
                        assert(decreases_to!(*self => fs@[i as int].1));
                    }
                    let k = fs[i].0.clone();
                    let v = fs[i].1.clone();
                    out.push((k, v));
                    i += 1;
                }
                proof {
                    lemma_arg_obj_view(out@);
                    lemma_arg_obj_view(fs@);
                    assert forall|j: int|
                        0 <= j < out@.len() implies arg_obj_view(out@)[j] == arg_obj_view(
                        fs@,
                    )[j] by {
                        assert(out@[j].0@ == fs@[j].0@ && arg_view(out@[j].1) == arg_view(
                            fs@[j].1,
                        ));
                    }
                    assert(arg_obj_view(out@) =~= arg_obj_view(fs@));
                }
                ArgumentValue::Object(out)
            },
        }
    }
}

} // verus!
