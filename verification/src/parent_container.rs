//! The container a field belongs to: a model or a composite type.

use crate::composite_type::CompositeType;
use crate::model::Model;
use vstd::prelude::*;

verus! {

#[derive(Debug)]
pub enum ParentContainer {
    Model(Model),
    CompositeType(CompositeType),
}

impl Clone for ParentContainer {
    fn clone(&self) -> (r: Self)
        ensures
            r == *self,
    {
        match self {
            ParentContainer::Model(m) => ParentContainer::Model(m.clone()),
            ParentContainer::CompositeType(ct) => ParentContainer::CompositeType(ct.clone()),
        }
    }
}

impl ParentContainer {
    pub open spec fn valid(self) -> bool {
        match self {
            ParentContainer::Model(m) => m.valid(),
            ParentContainer::CompositeType(ct) => ct.valid(),
        }
    }

    pub fn as_model(&self) -> (r: Option<&Model>)
        ensures
            match *self {
                ParentContainer::Model(m) => r matches Some(rm) && *rm == m,
                _ => r is None,
            },
    {
        match self {
            ParentContainer::Model(m) => Some(m),
            _ => None,
        }
    }

    pub fn as_composite(&self) -> (r: Option<&CompositeType>)
        ensures
            match *self {
                ParentContainer::CompositeType(ct) => r matches Some(rc) && *rc == ct,
                _ => r is None,
            },
    {
        match self {
            ParentContainer::CompositeType(ct) => Some(ct),
            _ => None,
        }
    }

    pub fn name(&self) -> (r: &str)
        requires
            self.valid(),
        ensures
            r@ == match *self {
                ParentContainer::Model(m) => m.def().name@,
                ParentContainer::CompositeType(ct) => ct.def().name@,
            },
    {
        match self {
            ParentContainer::Model(model) => model.name(),
            ParentContainer::CompositeType(composite) => composite.name(),
        }
    }

    pub fn is_composite(&self) -> (r: bool)
        ensures
            r == (*self is CompositeType),
    {
        matches!(self, ParentContainer::CompositeType(..))
    }

    pub fn is_model(&self) -> (r: bool)
        ensures
            r == (*self is Model),
    {
        matches!(self, ParentContainer::Model(..))
    }
}

} // verus!
