//! The client's requested shape: a tree of named selections with ordered
//! arguments, tagged as a read or a write operation.
//!
//! Built once per request by the protocol adapter and never mutated by the
//! interpreter; the planner reads it to produce the execution plan.

use crate::value::{arg_obj_view, arg_view, ArgVal, ArgumentValue};
use vstd::prelude::*;

verus! {

/// One node of the requested output shape.
#[derive(Debug, PartialEq)]
pub struct Selection {
    pub name: String,
    pub alias: Option<String>,
    pub arguments: Vec<(String, ArgumentValue)>,
    pub nested_selections: Vec<Selection>,
}

/// The mathematical shape of a selection node.
pub struct SelView {
    pub name: Seq<char>,
    pub alias: Option<Seq<char>>,
    pub args: Seq<(Seq<char>, ArgVal)>,
    pub nested: Seq<SelView>,
}

pub open spec fn sel_view(s: Selection) -> SelView
    decreases s,
{
    SelView {
        name: s.name@,
        alias: match s.alias {
            Some(a) => Some(a@),
            None => None,
        },
        args: arg_obj_view(s.arguments@),
        nested: sel_seq_view(s.nested_selections@),
    }
}

pub open spec fn sel_seq_view(s: Seq<Selection>) -> Seq<SelView>
    decreases s,
{
    if s.len() == 0 {
        Seq::empty()
    } else {
        sel_seq_view(s.drop_last()).push(sel_view(s.last()))
    }
}

pub broadcast proof fn lemma_sel_seq_view(s: Seq<Selection>)
    ensures
        (#[trigger] sel_seq_view(s)).len() == s.len(),
        forall|i: int| 0 <= i < s.len() ==> sel_seq_view(s)[i] == sel_view(#[trigger] s[i]),
    decreases s,
{
    if s.len() > 0 {
        lemma_sel_seq_view(s.drop_last());
        assert forall|i: int| 0 <= i < s.len() implies sel_seq_view(s)[i] == sel_view(
            #[trigger] s[i],
        ) by {
            if i < s.len() - 1 {
                assert(s.drop_last()[i] == s[i]);
            } else {
                assert(s.last() == s[i]);
            }
        }
    }
}

impl Selection {
    /// A selection with the given name and nothing else.
    pub fn with_name(name: String) -> (r: Selection)
        ensures
            sel_view(r) == (SelView {
                name: name@,
                alias: None,
                args: Seq::empty(),
                nested: Seq::empty(),
            }),
    {
        let r = Selection { name, alias: None, arguments: Vec::new(), nested_selections: Vec::new() };
        proof {
            assert(arg_obj_view(r.arguments@) =~= Seq::<(Seq<char>, ArgVal)>::empty());
            assert(sel_seq_view(r.nested_selections@) =~= Seq::<SelView>::empty());
        }
        r
    }

    pub fn push_nested_selection(&mut self, sel: Selection)
        ensures
            sel_view(*final(self)) == (SelView {
                nested: sel_view(*old(self)).nested.push(sel_view(sel)),
                ..sel_view(*old(self))
            }),
    {
        proof {
            assert(old(self).nested_selections@.push(sel) =~= self.nested_selections@.push(sel));
        }
        let ghost old_nested = self.nested_selections@;
        self.nested_selections.push(sel);
        proof {
            assert(self.nested_selections@.drop_last() =~= old_nested);
        }
    }

    pub fn push_argument(&mut self, key: String, arg: ArgumentValue)
        ensures
            sel_view(*final(self)) == (SelView {
                args: sel_view(*old(self)).args.push((key@, arg_view(arg))),
                ..sel_view(*old(self))
            }),
    {
        let ghost old_args = self.arguments@;
        self.arguments.push((key, arg));
        proof {
            assert(self.arguments@.drop_last() =~= old_args);
        }
    }

    pub fn name(&self) -> (r: &str)
        ensures
            r@ == self.name@,
    {
        self.name.as_str()
    }
}

/// A selection tagged with what kind of operation it asks for.
#[derive(Debug, PartialEq)]
pub enum Operation {
    Read(Selection),
    Write(Selection),
}

/// The mathematical shape of an operation.
pub enum OpView {
    Read(SelView),
    Write(SelView),
}

pub open spec fn op_view(o: Operation) -> OpView {
    match o {
        Operation::Read(s) => OpView::Read(sel_view(s)),
        Operation::Write(s) => OpView::Write(sel_view(s)),
    }
}

impl Operation {
    /// The selection the operation wraps.
    pub fn selection(&self) -> (r: &Selection)
        ensures
            *r == match *self {
                Operation::Read(s) => s,
                Operation::Write(s) => s,
            },
    {
        match self {
            Operation::Read(s) => s,
            Operation::Write(s) => s,
        }
    }

    pub fn is_read(&self) -> (r: bool)
        ensures
            r == (*self is Read),
    {
        matches!(self, Operation::Read(_))
    }
}

} // verus!
