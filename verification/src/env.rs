//! The scoped binding environment threading results between plan steps.
//!
//! A chain of scopes, each mapping binding names to already-produced
//! results. Lookup walks outward from the innermost scope; within a scope
//! the latest binding of a name wins. Scopes are created by `Let` and
//! discarded when its body finishes, on every exit path.

use crate::record::ExpressionResult;
use vstd::prelude::*;

verus! {

/// One scope: ordered name/result pairs.
pub type Scope = Vec<(String, ExpressionResult)>;

/// The scope chain; the last scope is the innermost.
#[derive(Debug)]
pub struct Env {
    pub scopes: Vec<Scope>,
}

/// The mathematical shape of the scope chain.
pub open spec fn scopes_view(e: Env) -> Seq<Seq<(String, ExpressionResult)>> {
    Seq::new(e.scopes@.len(), |i: int| e.scopes@[i]@)
}

/// Lookup in the first `i` entries of one scope, latest binding first.
pub open spec fn scope_lookup_upto(
    s: Seq<(String, ExpressionResult)>,
    name: Seq<char>,
    i: int,
) -> Option<ExpressionResult>
    decreases i,
{
    if i <= 0 || i > s.len() {
        None
    } else if s[i - 1].0@ == name {
        Some(s[i - 1].1)
    } else {
        scope_lookup_upto(s, name, i - 1)
    }
}

pub open spec fn scope_lookup(s: Seq<(String, ExpressionResult)>, name: Seq<char>) -> Option<
    ExpressionResult,
> {
    scope_lookup_upto(s, name, s.len() as int)
}

/// Lookup across the first `i` scopes, innermost first.
pub open spec fn env_lookup_upto(
    ss: Seq<Seq<(String, ExpressionResult)>>,
    name: Seq<char>,
    i: int,
) -> Option<ExpressionResult>
    decreases i,
{
    if i <= 0 || i > ss.len() {
        None
    } else {
        match scope_lookup(ss[i - 1], name) {
            Some(v) => Some(v),
            None => env_lookup_upto(ss, name, i - 1),
        }
    }
}

/// The value bound to a name: found in the innermost scope that holds it.
pub open spec fn env_lookup(ss: Seq<Seq<(String, ExpressionResult)>>, name: Seq<char>) -> Option<
    ExpressionResult,
> {
    env_lookup_upto(ss, name, ss.len() as int)
}

impl Env {
    /// An environment with no scopes and no bindings.
    pub fn new() -> (r: Env)
        ensures
            scopes_view(r) == Seq::<Seq<(String, ExpressionResult)>>::empty(),
    {
        let r = Env { scopes: Vec::new() };
        proof {
            assert(scopes_view(r) =~= Seq::<Seq<(String, ExpressionResult)>>::empty());
        }
        r
    }

    /// The value bound to `name`, from the innermost scope outward; `None`
    /// is a name miss, which callers treat as fatal.
    pub fn get(&self, name: &String) -> (r: Option<&ExpressionResult>)
        ensures
            match env_lookup(scopes_view(*self), name@) {
                Some(v) => r matches Some(x) && *x == v,
                None => r is None,
            },
    {
        let ghost ss = scopes_view(*self);
        let mut i: usize = self.scopes.len();
        while i > 0
            invariant
                i <= self.scopes@.len(),
                ss == scopes_view(*self),
                ss.len() == self.scopes@.len(),
                env_lookup(ss, name@) == env_lookup_upto(ss, name@, i as int),
            decreases i,
        {
            let scope = &self.scopes[i - 1];
            proof {
                assert(ss[i - 1] == scope@);
            }
            let mut j: usize = scope.len();
            while j > 0
                invariant
                    j <= scope@.len(),
                    ss == scopes_view(*self),
                    0 < i <= ss.len(),
                    ss[i as int - 1] == scope@,
                    env_lookup(ss, name@) == env_lookup_upto(ss, name@, i as int),
                    scope_lookup(scope@, name@) == scope_lookup_upto(scope@, name@, j as int),
                decreases j,
            {
                if scope[j - 1].0 == *name {
                    proof {
                        assert(scope_lookup_upto(scope@, name@, j as int) == Some(
                            scope@[j - 1].1,
                        ));
                        assert(env_lookup_upto(ss, name@, i as int) == Some(scope@[j - 1].1));
                    }
                    return Some(&scope[j - 1].1);
                }
                proof {
                    assert(scope_lookup_upto(scope@, name@, j as int) == scope_lookup_upto(
                        scope@,
                        name@,
                        j as int - 1,
                    ));
                }
                j -= 1;
            }
            proof {
                assert(scope_lookup(scope@, name@) is None);
                assert(env_lookup_upto(ss, name@, i as int) == env_lookup_upto(
                    ss,
                    name@,
                    i as int - 1,
                ));
            }
            i -= 1;
        }
        None
    }

    /// Enter a new innermost scope holding the given bindings.
    pub fn push_scope(&mut self, scope: Scope)
        ensures
            scopes_view(*final(self)) == scopes_view(*old(self)).push(scope@),
    {
        self.scopes.push(scope);
        proof {
            assert(scopes_view(*self) =~= scopes_view(*old(self)).push(
                old(self).scopes@.push(scope)[old(self).scopes@.len() as int]@,
            ));
        }
    }

    /// Leave the innermost scope, discarding its bindings.
    pub fn pop_scope(&mut self)
        requires
            scopes_view(*old(self)).len() > 0,
        ensures
            scopes_view(*final(self)) == scopes_view(*old(self)).drop_last(),
    {
        self.scopes.pop();
        proof {
            assert(scopes_view(*self) =~= scopes_view(*old(self)).drop_last());
        }
    }
}

} // verus!
