//! Composite type handles and member lookup.

use crate::cursor::{Cursor, InternalDataModel};
use crate::field::Field;
use crate::schema::{CompositeMemberDef, CompositeTypeId, FieldId};
use vstd::prelude::*;

verus! {

/// Handle on one composite type of the schema.
pub type CompositeType = Cursor<CompositeTypeId>;

pub type CompositeTypeRef = CompositeType;
pub type CompositeTypeWeakRef = CompositeType;

pub open spec fn ct_in_range(dm: InternalDataModel, cid: CompositeTypeId) -> bool {
    cid.0 < dm.schema.composite_types@.len()
}

pub open spec fn ct_def_of(dm: InternalDataModel, cid: CompositeTypeId) -> crate::schema::CompositeTypeDef
    recommends
        ct_in_range(dm, cid),
{
    dm.schema.composite_types@[cid.0 as int]
}

pub open spec fn member_in_range(dm: InternalDataModel, cid: CompositeTypeId, fid: FieldId) -> bool {
    ct_in_range(dm, cid) && fid.0 < ct_def_of(dm, cid).fields@.len()
}

pub open spec fn member_def_of(
    dm: InternalDataModel,
    cid: CompositeTypeId,
    fid: FieldId,
) -> CompositeMemberDef
    recommends
        member_in_range(dm, cid, fid),
{
    ct_def_of(dm, cid).fields@[fid.0 as int]
}

/// The database name of a composite member: mapped name or field name.
pub open spec fn member_db_name(f: CompositeMemberDef) -> Seq<char> {
    match f.mapped_name {
        Some(n) => n@,
        None => f.name@,
    }
}

/// Index of the first member of `ct` whose database name is `name`.
pub open spec fn find_member_by_db_name_from(
    ct: crate::schema::CompositeTypeDef,
    name: Seq<char>,
    i: int,
) -> Option<int>
    decreases ct.fields@.len() - i,
{
    if i < 0 || i >= ct.fields@.len() {
        None
    } else if member_db_name(ct.fields@[i]) == name {
        Some(i)
    } else {
        find_member_by_db_name_from(ct, name, i + 1)
    }
}

impl InternalDataModel {
    /// Handles on every composite type of the schema, in table order.
    pub fn composite_types(&self) -> (r: Vec<CompositeType>)
        ensures
            r@.len() == self.schema.composite_types@.len(),
            forall|i: int|
                0 <= i < r@.len() ==> (#[trigger] r@[i]).id == CompositeTypeId(i as usize)
                    && r@[i].dm == *self,
    {
        let mut out: Vec<CompositeType> = Vec::new();
        let mut i: usize = 0;
        while i < self.schema.composite_types.len()
            invariant
                i <= self.schema.composite_types@.len(),
                out@.len() == i,
                forall|j: int|
                    0 <= j < i ==> (#[trigger] out@[j]).id == CompositeTypeId(j as usize)
                        && out@[j].dm == *self,
            decreases self.schema.composite_types@.len() - i,
        {
            out.push(Cursor { id: CompositeTypeId(i), dm: self.clone() });
            i += 1;
        }
        out
    }
}

impl CompositeType {
    pub open spec fn valid(self) -> bool {
        self.dm.wf() && ct_in_range(self.dm, self.id)
    }

    pub open spec fn def(self) -> crate::schema::CompositeTypeDef {
        ct_def_of(self.dm, self.id)
    }

    pub fn name(&self) -> (r: &str)
        requires
            self.valid(),
        ensures
            r@ == self.def().name@,
    {
        self.dm.schema.composite_types[self.id.0].name.as_str()
    }

    /// All members of the composite type, as composite-field handles.
    pub fn fields(&self) -> (r: Vec<Field>)
        requires
            self.valid(),
        ensures
            r@.len() == self.def().fields@.len(),
            forall|i: int|
                0 <= i < r@.len() ==> (#[trigger] r@[i] matches Field::Composite(c) && c.id == (
                self.id,
                FieldId(i as usize),
                ) && c.dm == self.dm),
    {
        let n = self.dm.schema.composite_types[self.id.0].fields.len();
        let mut out: Vec<Field> = Vec::new();
        let mut i: usize = 0;
        while i < n
            invariant
                i <= n,
                self.valid(),
                n == self.def().fields@.len(),
                out@.len() == i,
                forall|j: int|
                    0 <= j < i ==> (#[trigger] out@[j] matches Field::Composite(c) && c.id == (
                    self.id,
                    FieldId(j as usize),
                    ) && c.dm == self.dm),
            decreases n - i,
        {
            out.push(Field::Composite(self.refocus((self.id, FieldId(i)))));
            i += 1;
        }
        out
    }

    /// The first member whose database name matches, as a field handle.
    pub fn find_field_by_db_name(&self, db_name: &String) -> (r: Option<Field>)
        requires
            self.valid(),
        ensures
            match find_member_by_db_name_from(self.def(), db_name@, 0) {
                Some(i) => r matches Some(f) && f matches Field::Composite(c) && c.id == (
                    self.id,
                    FieldId(i as usize),
                ) && c.dm == self.dm,
                None => r is None,
            },
    {
        let ct = &self.dm.schema.composite_types[self.id.0];
        let mut i: usize = 0;
        while i < ct.fields.len()
            invariant
                i <= ct.fields@.len(),
                self.valid(),
                *ct == self.def(),
                find_member_by_db_name_from(*ct, db_name@, 0) == find_member_by_db_name_from(
                    *ct,
                    db_name@,
                    i as int,
                ),
            decreases ct.fields@.len() - i,
        {
            let m = &ct.fields[i];
            let matches_name = match &m.mapped_name {
                Some(n) => *n == *db_name,
                None => m.name == *db_name,
            };
            if matches_name {
                proof {
                    assert(find_member_by_db_name_from(*ct, db_name@, i as int) == Some(i as int));
                }
                return Some(Field::Composite(self.refocus((self.id, FieldId(i)))));
            }
            proof {
                assert(find_member_by_db_name_from(*ct, db_name@, i as int)
                    == find_member_by_db_name_from(*ct, db_name@, i as int + 1));
            }
            i += 1;
        }
        proof {
            assert(find_member_by_db_name_from(*ct, db_name@, i as int) is None);
        }
        None
    }
}

} // verus!
