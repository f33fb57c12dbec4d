//! Enum handles.

use crate::cursor::Cursor;
use crate::schema::EnumId;
use vstd::prelude::*;

verus! {

/// Handle on one enum of the schema.
pub type InternalEnum = Cursor<EnumId>;

/// Handle on one value of an enum.
pub type InternalEnumValue = Cursor<(EnumId, usize)>;

pub type InternalEnumRef = InternalEnum;

/// Index of the first enum with the given name.
pub open spec fn find_enum_idx_from(s: Seq<crate::schema::EnumDef>, name: Seq<char>, i: int) -> Option<int>
    decreases s.len() - i,
{
    if i < 0 || i >= s.len() {
        None
    } else if s[i].name@ == name {
        Some(i)
    } else {
        find_enum_idx_from(s, name, i + 1)
    }
}

impl crate::cursor::InternalDataModel {
    /// Handle on the first enum with the given name.
    pub fn find_enum(&self, name: &String) -> (r: Option<InternalEnum>)
        ensures
            match find_enum_idx_from(self.schema.enums@, name@, 0) {
                Some(i) => r matches Some(e) && e.id == EnumId(i as usize) && e.dm == *self,
                None => r is None,
            },
    {
        let mut i: usize = 0;
        while i < self.schema.enums.len()
            invariant
                i <= self.schema.enums@.len(),
                find_enum_idx_from(self.schema.enums@, name@, 0) == find_enum_idx_from(
                    self.schema.enums@,
                    name@,
                    i as int,
                ),
            decreases self.schema.enums@.len() - i,
        {
            if self.schema.enums[i].name == *name {
                proof {
                    assert(find_enum_idx_from(self.schema.enums@, name@, i as int) == Some(
                        i as int,
                    ));
                }
                return Some(Cursor { id: EnumId(i), dm: self.clone() });
            }
            proof {
                assert(find_enum_idx_from(self.schema.enums@, name@, i as int)
                    == find_enum_idx_from(self.schema.enums@, name@, i as int + 1));
            }
            i += 1;
        }
        proof {
            assert(find_enum_idx_from(self.schema.enums@, name@, i as int) is None);
        }
        None
    }
}

impl InternalEnum {
    pub open spec fn valid(self) -> bool {
        self.dm.wf() && self.id.0 < self.dm.schema.enums@.len()
    }

    pub open spec fn def(self) -> crate::schema::EnumDef {
        self.dm.schema.enums@[self.id.0 as int]
    }

    pub fn name(&self) -> (r: &str)
        requires
            self.valid(),
        ensures
            r@ == self.def().name@,
    {
        self.dm.schema.enums[self.id.0].name.as_str()
    }
}

} // verus!
