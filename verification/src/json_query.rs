//! The decoded request: a model name, an action, the requested shape and
//! the arguments, exactly as the wire protocol's adapter hands them over.

use crate::json::{json_view, JsonVal, JsonValue};
use crate::query_schema::QueryTag;
use vstd::prelude::*;

verus! {

/// The client-visible action names.
#[derive(Clone, Copy, Debug, PartialEq, Eq, Structural)]
pub enum TopLevelAction {
    FindUnique,
    FindUniqueOrThrow,
    FindFirst,
    FindFirstOrThrow,
    FindMany,
    Create,
    CreateMany,
    Update,
    UpdateMany,
    Delete,
    DeleteMany,
    Upsert,
    Aggregate,
    GroupBy,
    ExecuteRaw,
    QueryRaw,
}

#[derive(Clone, Copy, Debug, PartialEq, Eq, Structural)]
pub enum TopLevelActionKind {
    Read,
    Write,
}

/// Whether an action reads or writes.
pub open spec fn spec_action_kind(a: TopLevelAction) -> TopLevelActionKind {
    match a {
        TopLevelAction::FindUnique
        | TopLevelAction::FindUniqueOrThrow
        | TopLevelAction::FindFirst
        | TopLevelAction::FindFirstOrThrow
        | TopLevelAction::FindMany
        | TopLevelAction::Aggregate
        | TopLevelAction::GroupBy
        | TopLevelAction::QueryRaw => TopLevelActionKind::Read,
        _ => TopLevelActionKind::Write,
    }
}

impl TopLevelAction {
    pub fn kind(&self) -> (r: TopLevelActionKind)
        ensures
            r == spec_action_kind(*self),
    {
        match self {
            Self::FindUnique
            | Self::FindUniqueOrThrow
            | Self::FindFirst
            | Self::FindFirstOrThrow
            | Self::FindMany
            | Self::Aggregate
            | Self::GroupBy
            | Self::QueryRaw => TopLevelActionKind::Read,
            Self::Create
            | Self::CreateMany
            | Self::Update
            | Self::UpdateMany
            | Self::Delete
            | Self::DeleteMany
            | Self::Upsert
            | Self::ExecuteRaw => TopLevelActionKind::Write,
        }
    }
}

/// The schema tag each action addresses.
pub open spec fn spec_action_tag(a: TopLevelAction) -> QueryTag {
    match a {
        TopLevelAction::FindUnique => QueryTag::FindUnique,
        TopLevelAction::FindUniqueOrThrow => QueryTag::FindUniqueOrThrow,
        TopLevelAction::FindFirst => QueryTag::FindFirst,
        TopLevelAction::FindFirstOrThrow => QueryTag::FindFirstOrThrow,
        TopLevelAction::FindMany => QueryTag::FindMany,
        TopLevelAction::Aggregate => QueryTag::Aggregate,
        TopLevelAction::GroupBy => QueryTag::GroupBy,
        TopLevelAction::QueryRaw => QueryTag::QueryRaw,
        TopLevelAction::Create => QueryTag::CreateOne,
        TopLevelAction::CreateMany => QueryTag::CreateMany,
        TopLevelAction::Update => QueryTag::UpdateOne,
        TopLevelAction::UpdateMany => QueryTag::UpdateMany,
        TopLevelAction::Delete => QueryTag::DeleteOne,
        TopLevelAction::DeleteMany => QueryTag::DeleteMany,
        TopLevelAction::Upsert => QueryTag::UpsertOne,
        TopLevelAction::ExecuteRaw => QueryTag::ExecuteRaw,
    }
}

impl From<TopLevelAction> for QueryTag {
    fn from(action: TopLevelAction) -> (r: Self) {
        match action {
            TopLevelAction::FindUnique => Self::FindUnique,
            TopLevelAction::FindUniqueOrThrow => Self::FindUniqueOrThrow,
            TopLevelAction::FindFirst => Self::FindFirst,
            TopLevelAction::FindFirstOrThrow => Self::FindFirstOrThrow,
            TopLevelAction::FindMany => Self::FindMany,
            TopLevelAction::Aggregate => Self::Aggregate,
            TopLevelAction::GroupBy => Self::GroupBy,
            TopLevelAction::QueryRaw => Self::QueryRaw,
            TopLevelAction::Create => Self::CreateOne,
            TopLevelAction::CreateMany => Self::CreateMany,
            TopLevelAction::Update => Self::UpdateOne,
            TopLevelAction::UpdateMany => Self::UpdateMany,
            TopLevelAction::Delete => Self::DeleteOne,
            TopLevelAction::DeleteMany => Self::DeleteMany,
            TopLevelAction::Upsert => Self::UpsertOne,
            TopLevelAction::ExecuteRaw => Self::ExecuteRaw,
        }
    }
}

impl vstd::std_specs::convert::FromSpecImpl<TopLevelAction> for QueryTag {
    open spec fn obeys_from_spec() -> bool {
        true
    }

    open spec fn from_spec(t: TopLevelAction) -> QueryTag {
        spec_action_tag(t)
    }
}

/// A requested shape plus its flattened arguments.
#[derive(Debug, PartialEq)]
pub struct JsonQueryField {
    pub selection: Selection,
    pub arguments: Vec<(String, JsonValue)>,
}

/// The select / included part of a request node.
#[derive(Debug, PartialEq)]
pub struct Selection {
    pub select: Option<Vec<(String, SelectionOption)>>,
    pub included: Option<Vec<(String, SelectionOption)>>,
}

/// One selected field: switched on or off, or refined by a subquery.
#[derive(Debug, PartialEq)]
pub enum SelectionOption {
    Bool(bool),
    SubQuery(JsonQueryField),
}

/// One whole decoded request.
#[derive(Debug, PartialEq)]
pub struct JsonQuery {
    pub model_name: String,
    pub action: TopLevelAction,
    pub query: JsonQueryField,
}

// ---------------------------------------------------------------------------
// Mathematical shapes.
// ---------------------------------------------------------------------------

pub struct JqfView {
    pub select: Option<Seq<(Seq<char>, SoView)>>,
    pub included: Option<Seq<(Seq<char>, SoView)>>,
    pub arguments: Seq<(Seq<char>, JsonVal)>,
}

pub enum SoView {
    Bool(bool),
    SubQuery(JqfView),
}

pub struct JqView {
    pub model_name: Seq<char>,
    pub action: TopLevelAction,
    pub query: JqfView,
}

pub open spec fn jqf_view(f: JsonQueryField) -> JqfView
    decreases f,
{
    JqfView {
        select: match f.selection.select {
            Some(v) => Some(so_map_view(v@)),
            None => None,
        },
        included: match f.selection.included {
            Some(v) => Some(so_map_view(v@)),
            None => None,
        },
        arguments: crate::json::json_obj_view(f.arguments@),
    }
}

pub open spec fn so_map_view(s: Seq<(String, SelectionOption)>) -> Seq<(Seq<char>, SoView)>
    decreases s,
{
    if s.len() == 0 {
        Seq::empty()
    } else {
        so_map_view(s.drop_last()).push((s.last().0@, so_view(s.last().1)))
    }
}

pub open spec fn so_view(o: SelectionOption) -> SoView
    decreases o,
{
    match o {
        SelectionOption::Bool(b) => SoView::Bool(b),
        SelectionOption::SubQuery(f) => SoView::SubQuery(jqf_view(f)),
    }
}

pub open spec fn jq_view(q: JsonQuery) -> JqView {
    JqView { model_name: q.model_name@, action: q.action, query: jqf_view(q.query) }
}

pub broadcast proof fn lemma_so_map_view(s: Seq<(String, SelectionOption)>)
    ensures
        (#[trigger] so_map_view(s)).len() == s.len(),
        forall|i: int|
            0 <= i < s.len() ==> so_map_view(s)[i] == ((#[trigger] s[i]).0@, so_view(s[i].1)),
    decreases s,
{
    if s.len() > 0 {
        lemma_so_map_view(s.drop_last());
        assert forall|i: int| 0 <= i < s.len() implies so_map_view(s)[i] == ((#[trigger] s[i]).0@,
        so_view(s[i].1)) by {
            if i < s.len() - 1 {
                assert(s.drop_last()[i] == s[i]);
            } else {
                assert(s.last() == s[i]);
            }
        }
    }
}

} // verus!
