//! The already-decoded wire value tree the protocol adapter consumes.
//!
//! Parsing the textual wire protocol is the host's job; the core receives
//! the decoded tree as plain values. A number that is not an integer is
//! carried as its decimal text, so the core never touches floating point.

use vstd::prelude::*;

verus! {

/// One node of a decoded request document.
#[derive(Debug, PartialEq)]
pub enum JsonValue {
    Null,
    Bool(bool),
    Int(i64),
    /// A non-integral number, as its decimal text.
    Float(String),
    String(String),
    Array(Vec<JsonValue>),
    Object(Vec<(String, JsonValue)>),
}

/// The mathematical shape of a request document node.
pub enum JsonVal {
    Null,
    Bool(bool),
    Int(int),
    Float(Seq<char>),
    Text(Seq<char>),
    Arr(Seq<JsonVal>),
    Obj(Seq<(Seq<char>, JsonVal)>),
}

pub open spec fn json_view(v: JsonValue) -> JsonVal
    decreases v,
{
    match v {
        JsonValue::Null => JsonVal::Null,
        JsonValue::Bool(b) => JsonVal::Bool(b),
        JsonValue::Int(i) => JsonVal::Int(i as int),
        JsonValue::Float(s) => JsonVal::Float(s@),
        JsonValue::String(s) => JsonVal::Text(s@),
        JsonValue::Array(xs) => JsonVal::Arr(json_seq_view(xs@)),
        JsonValue::Object(fs) => JsonVal::Obj(json_obj_view(fs@)),
    }
}

pub open spec fn json_seq_view(s: Seq<JsonValue>) -> Seq<JsonVal>
    decreases s,
{
    if s.len() == 0 {
        Seq::empty()
    } else {
        json_seq_view(s.drop_last()).push(json_view(s.last()))
    }
}

pub open spec fn json_obj_view(s: Seq<(String, JsonValue)>) -> Seq<(Seq<char>, JsonVal)>
    decreases s,
{
    if s.len() == 0 {
        Seq::empty()
    } else {
        json_obj_view(s.drop_last()).push((s.last().0@, json_view(s.last().1)))
    }
}

pub broadcast proof fn lemma_json_seq_view(s: Seq<JsonValue>)
    ensures
        (#[trigger] json_seq_view(s)).len() == s.len(),
        forall|i: int| 0 <= i < s.len() ==> json_seq_view(s)[i] == json_view(#[trigger] s[i]),
    decreases s,
{
    if s.len() > 0 {
        lemma_json_seq_view(s.drop_last());
        assert forall|i: int| 0 <= i < s.len() implies json_seq_view(s)[i] == json_view(
            #[trigger] s[i],
        ) by {
            if i < s.len() - 1 {
                assert(s.drop_last()[i] == s[i]);
            } else {
                assert(s.last() == s[i]);
            }
        }
    }
}

pub broadcast proof fn lemma_json_obj_view(s: Seq<(String, JsonValue)>)
    ensures
        (#[trigger] json_obj_view(s)).len() == s.len(),
        forall|i: int|
            0 <= i < s.len() ==> json_obj_view(s)[i] == ((#[trigger] s[i]).0@, json_view(s[i].1)),
    decreases s,
{
    if s.len() > 0 {
        lemma_json_obj_view(s.drop_last());
        assert forall|i: int| 0 <= i < s.len() implies json_obj_view(s)[i] == ((#[trigger] s[i]).0@,
        json_view(s[i].1)) by {
            if i < s.len() - 1 {
                assert(s.drop_last()[i] == s[i]);
            } else {
                assert(s.last() == s[i]);
            }
        }
    }
}

/// The value of the first object member with the given key.
pub open spec fn obj_lookup_from(fs: Seq<(Seq<char>, JsonVal)>, key: Seq<char>, i: int) -> Option<
    JsonVal,
>
    decreases fs.len() - i,
{
    if i < 0 || i >= fs.len() {
        None
    } else if fs[i].0 == key {
        Some(fs[i].1)
    } else {
        obj_lookup_from(fs, key, i + 1)
    }
}

pub open spec fn obj_lookup(fs: Seq<(Seq<char>, JsonVal)>, key: Seq<char>) -> Option<JsonVal> {
    obj_lookup_from(fs, key, 0)
}

/// First member of an object with the given key, as a borrow.
pub fn json_object_get<'a>(fs: &'a Vec<(String, JsonValue)>, key: &String) -> (r: Option<
    &'a JsonValue,
>)
    ensures
        match obj_lookup(json_obj_view(fs@), key@) {
            Some(v) => r matches Some(x) && json_view(*x) == v,
            None => r is None,
        },
{
    proof {
        lemma_json_obj_view(fs@);
    }
    let mut i: usize = 0;
    while i < fs.len()
        invariant
            i <= fs@.len(),
            json_obj_view(fs@).len() == fs@.len(),
            forall|j: int|
                0 <= j < fs@.len() ==> json_obj_view(fs@)[j] == ((#[trigger] fs@[j]).0@, json_view(
                    fs@[j].1,
                )),
            obj_lookup(json_obj_view(fs@), key@) == obj_lookup_from(
                json_obj_view(fs@),
                key@,
                i as int,
            ),
        decreases fs@.len() - i,
    {
        if fs[i].0 == *key {
            proof {
                assert(obj_lookup_from(json_obj_view(fs@), key@, i as int) == Some(
                    json_view(fs@[i as int].1),
                ));
            }
            return Some(&fs[i].1);
        }
        proof {
            assert(obj_lookup_from(json_obj_view(fs@), key@, i as int) == obj_lookup_from(
                json_obj_view(fs@),
                key@,
                i as int + 1,
            ));
        }
        i += 1;
    }
    proof {
        assert(obj_lookup_from(json_obj_view(fs@), key@, i as int) is None);
    }
    None
}

impl Clone for JsonValue {
    fn clone(&self) -> (r: Self)
        ensures
            json_view(r) == json_view(*self),
        decreases *self,
    {
        match self {
            JsonValue::Null => JsonValue::Null,
            JsonValue::Bool(b) => JsonValue::Bool(*b),
            JsonValue::Int(i) => JsonValue::Int(*i),
            JsonValue::Float(s) => JsonValue::Float(s.clone()),
            JsonValue::String(s) => JsonValue::String(s.clone()),
            JsonValue::Array(xs) => {
                let mut out: Vec<JsonValue> = Vec::new();
                let mut i: usize = 0;
                while i < xs.len()
                    invariant
                        *self is Array,
                        *xs == self->Array_0,
                        i <= xs@.len(),
                        out@.len() == i,
                        forall|j: int|
                            0 <= j < i ==> json_view(#[trigger] out@[j]) == json_view(xs@[j]),
                    decreases xs@.len() - i,
                {
                    proof {
                        assert(decreases_to!(*self => *xs));
                        assert(decreases_to!(*xs => xs@));
                        assert(decreases_to!(xs@ => xs@[i as int]));
                        assert(decreases_to!(*self => xs@[i as int]));
                    }
                    let c = xs[i].clone();
                    out.push(c);
                    i += 1;
                }
                proof {
                    lemma_json_seq_view(out@);
                    lemma_json_seq_view(xs@);
                    assert forall|j: int|
                        0 <= j < out@.len() implies json_seq_view(out@)[j] == json_seq_view(
                        xs@,
                    )[j] by {
                        assert(json_view(out@[j]) == json_view(xs@[j]));
                    }
                    assert(json_seq_view(out@) =~= json_seq_view(xs@));
                }
                JsonValue::Array(out)
            },
            JsonValue::Object(fs) => {
                let mut out: Vec<(String, JsonValue)> = Vec::new();
                let mut i: usize = 0;
                while i < fs.len()
                    invariant
                        *self is Object,
                        *fs == self->Object_0,
                        i <= fs@.len(),
                        out@.len() == i,
                        forall|j: int|
                            0 <= j < i ==> (#[trigger] out@[j]).0@ == fs@[j].0@ && json_view(
                                out@[j].1,
                            ) == json_view(fs@[j].1),
                    decreases fs@.len() - i,
                {
                    proof {
                        assert(decreases_to!(*self => *fs));
                        assert(decreases_to!(*fs => fs@));
                        assert(decreases_to!(fs@ => fs@[i as int]));
                        assert(decreases_to!(fs@[i as int] => fs@[i as int].1));
                        assert(decreases_to!(*self => fs@[i as int].1));
                    }
                    let k = fs[i].0.clone();
                    let v = fs[i].1.clone();
                    out.push((k, v));
                    i += 1;
                }
                proof {
                    lemma_json_obj_view(out@);
                    lemma_json_obj_view(fs@);
                    assert forall|j: int|
                        0 <= j < out@.len() implies json_obj_view(out@)[j] == json_obj_view(
                        fs@,
                    )[j] by {
                        assert(out@[j].0@ == fs@[j].0@ && json_view(out@[j].1) == json_view(
                            fs@[j].1,
                        ));
                    }
                    assert(json_obj_view(out@) =~= json_obj_view(fs@));
                }
                JsonValue::Object(out)
            },
        }
    }
}

} // verus!
