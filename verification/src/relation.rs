//! Relation handles: classification and referential-action resolution.
//!
//! A relation is classified at query time from the schema's tables — never
//! stored as a separate mutable flag — into one-to-one, one-to-many or
//! many-to-many, and into its inline or linking-table manifestation.

use crate::cursor::{Cursor, InternalDataModel};
use crate::schema::{
    relation_field_def_at, FieldArity, FieldDef, ReferentialAction, RelationDef, RelationFieldDef,
    RelationId, RelationLinkManifestation, RelationMode,
};
use vstd::prelude::*;

verus! {

/// Handle on one relation of the schema.
pub type Relation = Cursor<RelationId>;

pub type RelationRef = Relation;
pub type RelationWeakRef = Relation;

/// The relation field of the side that holds the foreign key. For an inline
/// relation, well-formedness guarantees one side does.
pub open spec fn forward_field_def(dm: InternalDataModel, rel: RelationDef) -> RelationFieldDef {
    let fa = relation_field_def_at(*dm.schema, rel.model_a, rel.field_a);
    let fb = relation_field_def_at(*dm.schema, rel.model_b, rel.field_b);
    if fa.fk_field_names@.len() > 0 {
        fa
    } else {
        fb
    }
}

/// The default referential action for deletes when none is named: a required
/// relation restricts the delete, an optional one nulls the foreign key out.
pub open spec fn default_on_delete(arity: FieldArity) -> ReferentialAction {
    if arity == FieldArity::Required {
        ReferentialAction::Restrict
    } else {
        ReferentialAction::SetNull
    }
}

/// `NoAction` is an alias for `Restrict` when the engine itself enforces
/// relations rather than the database's foreign keys.
pub open spec fn degrade_no_action(a: ReferentialAction, mode: RelationMode) -> ReferentialAction {
    if a == ReferentialAction::NoAction && mode == RelationMode::Prisma {
        ReferentialAction::Restrict
    } else {
        a
    }
}

impl InternalDataModel {
    /// Handles on every relation of the schema, in table order.
    pub fn relations(&self) -> (r: Vec<Relation>)
        ensures
            r@.len() == self.schema.relations@.len(),
            forall|i: int|
                0 <= i < r@.len() ==> (#[trigger] r@[i]).id == RelationId(i as usize) && r@[i].dm
                    == *self,
    {
        let mut out: Vec<Relation> = Vec::new();
        let mut i: usize = 0;
        while i < self.schema.relations.len()
            invariant
                i <= self.schema.relations@.len(),
                out@.len() == i,
                forall|j: int|
                    0 <= j < i ==> (#[trigger] out@[j]).id == RelationId(j as usize) && out@[j].dm
                        == *self,
            decreases self.schema.relations@.len() - i,
        {
            out.push(Cursor { id: RelationId(i), dm: self.clone() });
            i += 1;
        }
        out
    }
}

impl Relation {
    pub open spec fn valid(self) -> bool {
        self.dm.wf() && self.id.0 < self.dm.schema.relations@.len()
    }

    pub open spec fn def(self) -> RelationDef {
        self.dm.schema.relations@[self.id.0 as int]
    }

    pub open spec fn field_a_def(self) -> RelationFieldDef {
        relation_field_def_at(*self.dm.schema, self.def().model_a, self.def().field_a)
    }

    pub open spec fn field_b_def(self) -> RelationFieldDef {
        relation_field_def_at(*self.dm.schema, self.def().model_b, self.def().field_b)
    }

    /// The resolved on-delete policy of the relation.
    pub open spec fn spec_on_delete(self) -> ReferentialAction {
        match self.def().manifestation {
            RelationLinkManifestation::RelationTable(_) => ReferentialAction::Cascade,
            RelationLinkManifestation::Inline(_) => {
                let fwd = forward_field_def(self.dm, self.def());
                let action = match fwd.explicit_on_delete {
                    Some(a) => a,
                    None => default_on_delete(fwd.arity),
                };
                degrade_no_action(action, self.dm.schema.relation_mode)
            },
        }
    }

    /// The resolved on-update policy of the relation.
    pub open spec fn spec_on_update(self) -> ReferentialAction {
        match self.def().manifestation {
            RelationLinkManifestation::RelationTable(_) => ReferentialAction::Cascade,
            RelationLinkManifestation::Inline(_) => {
                let fwd = forward_field_def(self.dm, self.def());
                let action = match fwd.explicit_on_update {
                    Some(a) => a,
                    None => ReferentialAction::Cascade,
                };
                degrade_no_action(action, self.dm.schema.relation_mode)
            },
        }
    }

    proof fn lemma_sides_wf(self)
        requires
            self.valid(),
        ensures
            crate::schema::relation_wf(*self.dm.schema, self.id.0 as int),
            crate::schema::relation_side_wf(
                *self.dm.schema,
                self.id.0 as int,
                self.def().model_a,
                self.def().field_a,
                crate::schema::RelationSide::A,
            ),
            crate::schema::relation_side_wf(
                *self.dm.schema,
                self.id.0 as int,
                self.def().model_b,
                self.def().field_b,
                crate::schema::RelationSide::B,
            ),
    {
        assert(crate::schema::relation_wf(*self.dm.schema, self.id.0 as int));
    }

    fn def_ref<'a>(&'a self) -> (r: &'a RelationDef)
        requires
            self.valid(),
        ensures
            *r == self.def(),
    {
        &self.dm.schema.relations[self.id.0]
    }

    /// Borrow of the relation-field row for one side of this relation.
    fn side_field_ref<'a>(
        &'a self,
        mid: crate::schema::ModelId,
        fid: crate::schema::FieldId,
    ) -> (r: &'a RelationFieldDef)
        requires
            self.valid(),
            crate::cursor::model_field_in_range(self.dm, mid, fid),
            crate::cursor::model_field_def_of(self.dm, mid, fid) is Relation,
        ensures
            *r == relation_field_def_at(*self.dm.schema, mid, fid),
    {
        match &self.dm.schema.models[mid.0].fields[fid.0] {
            FieldDef::Relation(rf) => rf,
            FieldDef::Scalar(_) => vstd::pervasive::unreached(),
        }
    }

    pub fn name(&self) -> (r: &str)
        requires
            self.valid(),
        ensures
            r@ == self.def().name@,
    {
        self.def_ref().name.as_str()
    }

    /// `true` only if the relation is just a link between two relation
    /// fields, realized by a foreign key in one of the two tables.
    pub fn is_inline_relation(&self) -> (r: bool)
        requires
            self.valid(),
        ensures
            r == (self.def().manifestation is Inline),
    {
        matches!(&self.def_ref().manifestation, RelationLinkManifestation::Inline(_))
    }

    /// `true` if the relation is realized by a table linking two models.
    pub fn is_relation_table(&self) -> (r: bool)
        requires
            self.valid(),
        ensures
            r == !(self.def().manifestation is Inline),
    {
        !self.is_inline_relation()
    }

    /// A model that relates to itself.
    pub fn is_self_relation(&self) -> (r: bool)
        requires
            self.valid(),
        ensures
            r == (self.def().model_a == self.def().model_b),
    {
        let d = self.def_ref();
        d.model_a.0 == d.model_b.0
    }

    pub fn is_many_to_many(&self) -> (r: bool)
        requires
            self.valid(),
        ensures
            r == (self.def().manifestation is RelationTable),
    {
        matches!(&self.def_ref().manifestation, RelationLinkManifestation::RelationTable(_))
    }

    pub fn is_one_to_one(&self) -> (r: bool)
        requires
            self.valid(),
        ensures
            r == (self.def().manifestation is Inline && self.field_a_def().arity
                != FieldArity::List && self.field_b_def().arity != FieldArity::List),
    {
        proof {
            self.lemma_sides_wf();
        }
        let d = self.def_ref();
        if matches!(&d.manifestation, RelationLinkManifestation::RelationTable(_)) {
            return false;
        }
        let fa = self.side_field_ref(d.model_a, d.field_a);
        let fb = self.side_field_ref(d.model_b, d.field_b);
        !fa.arity.is_list() && !fb.arity.is_list()
    }

    pub fn is_one_to_many(&self) -> (r: bool)
        requires
            self.valid(),
        ensures
            r == (self.def().manifestation is Inline && (self.field_a_def().arity
                == FieldArity::List || self.field_b_def().arity == FieldArity::List)),
    {
        proof {
            self.lemma_sides_wf();
        }
        let d = self.def_ref();
        if matches!(&d.manifestation, RelationLinkManifestation::RelationTable(_)) {
            return false;
        }
        let fa = self.side_field_ref(d.model_a, d.field_a);
        let fb = self.side_field_ref(d.model_b, d.field_b);
        fa.arity.is_list() || fb.arity.is_list()
    }

    /// Retrieves the on-delete policy for this relation.
    pub fn on_delete(&self) -> (r: ReferentialAction)
        requires
            self.valid(),
        ensures
            r == self.spec_on_delete(),
    {
        proof {
            self.lemma_sides_wf();
        }
        let d = self.def_ref();
        match &d.manifestation {
            RelationLinkManifestation::RelationTable(_) => ReferentialAction::Cascade,
            RelationLinkManifestation::Inline(_) => {
                let fa = self.side_field_ref(d.model_a, d.field_a);
                let fwd = if fa.fk_field_names.len() > 0 {
                    fa
                } else {
                    self.side_field_ref(d.model_b, d.field_b)
                };
                let action = match fwd.explicit_on_delete {
                    Some(a) => a,
                    None => if fwd.arity.is_required() {
                        ReferentialAction::Restrict
                    } else {
                        ReferentialAction::SetNull
                    },
                };
                if action == ReferentialAction::NoAction && self.dm.schema.relation_mode
                    == RelationMode::Prisma {
                    ReferentialAction::Restrict
                } else {
                    action
                }
            },
        }
    }

    /// Retrieves the on-update policy for this relation.
    pub fn on_update(&self) -> (r: ReferentialAction)
        requires
            self.valid(),
        ensures
            r == self.spec_on_update(),
    {
        proof {
            self.lemma_sides_wf();
        }
        let d = self.def_ref();
        match &d.manifestation {
            RelationLinkManifestation::RelationTable(_) => ReferentialAction::Cascade,
            RelationLinkManifestation::Inline(_) => {
                let fa = self.side_field_ref(d.model_a, d.field_a);
                let fwd = if fa.fk_field_names.len() > 0 {
                    fa
                } else {
                    self.side_field_ref(d.model_b, d.field_b)
                };
                let action = match fwd.explicit_on_update {
                    Some(a) => a,
                    None => ReferentialAction::Cascade,
                };
                if action == ReferentialAction::NoAction && self.dm.schema.relation_mode
                    == RelationMode::Prisma {
                    ReferentialAction::Restrict
                } else {
                    action
                }
            },
        }
    }

    pub fn manifestation(&self) -> (r: &RelationLinkManifestation)
        requires
            self.valid(),
        ensures
            *r == self.def().manifestation,
    {
        &self.def_ref().manifestation
    }
}

} // verus!
