//! The checking context of the monomorphic type checker: the types of the
//! names in scope, and the unifications that failed.
use vstd::prelude::*;

use crate::text::str_eq;
use crate::typechecker::types::{view_tv, TypeValue, TypeValueV};

verus! {

/// The model of a checking context: the names in scope with their types,
/// latest last, and the pairs of types that could not be unified.
pub struct ContextV {
    pub bindings: Seq<(Seq<char>, TypeValueV)>,
    pub mismatches: Seq<(TypeValueV, TypeValueV)>,
}

/// The latest type given to `name`.
pub open spec fn bindings_find(bs: Seq<(Seq<char>, TypeValueV)>, name: Seq<char>) -> Option<TypeValueV>
    decreases bs.len(),
{
    if bs.len() == 0 {
        None
    } else if bs.last().0 == name {
        Some(bs.last().1)
    } else {
        bindings_find(bs.drop_last(), name)
    }
}

/// The checking context.
pub struct Context {
    bindings: Vec<(String, TypeValue)>,
    mismatches: Vec<(TypeValue, TypeValue)>,
}

impl View for Context {
    type V = ContextV;

    closed spec fn view(&self) -> ContextV {
        ContextV {
            bindings: self.bindings@.map_values(|p: (String, TypeValue)| (p.0@, view_tv(p.1))),
            mismatches: self.mismatches@.map_values(|p: (TypeValue, TypeValue)| (view_tv(p.0), view_tv(p.1))),
        }
    }
}

impl Context {
    /// A context with no names and no failed unification.
    pub fn new() -> (r: Self)
        ensures
            r@.bindings.len() == 0,
            r@.mismatches.len() == 0,
    {
        let r = Context { bindings: Vec::new(), mismatches: Vec::new() };
        assert(r@.bindings =~= Seq::<(Seq<char>, TypeValueV)>::empty());
        assert(r@.mismatches =~= Seq::<(TypeValueV, TypeValueV)>::empty());
        r
    }

    /// Unifies two types. Without type variables to solve, this succeeds
    /// exactly when the types are the same; a failure is recorded.
    pub fn unify(&mut self, t1: TypeValue, t2: TypeValue)
        ensures
            final(self)@.bindings == old(self)@.bindings,
            final(self)@.mismatches == if view_tv(t1) == view_tv(t2) {
                old(self)@.mismatches
            } else {
                old(self)@.mismatches.push((view_tv(t1), view_tv(t2)))
            },
    {
        if !t1.same(&t2) {
            let ghost before = self.mismatches@;
            self.mismatches.push((t1, t2));
            assert(self@.mismatches =~= old(self)@.mismatches.push((view_tv(t1), view_tv(t2))));
        }
        assert(self@.bindings =~= old(self)@.bindings);
    }

    /// Whether every unification so far succeeded.
    pub fn is_consistent(&self) -> (r: bool)
        ensures
            r == (self@.mismatches.len() == 0),
    {
        self.mismatches.len() == 0
    }

    /// The latest type given to `id`.
    pub fn lookup(&self, id: &str) -> (r: Option<TypeValue>)
        ensures
            match r {
                Some(t) => bindings_find(self@.bindings, id@) == Some(view_tv(t)),
                None => bindings_find(self@.bindings, id@) is None,
            },
    {
        let ghost bs = self@.bindings;
        let mut j = self.bindings.len();
        assert(bs.take(j as int) =~= bs);
        while j > 0
            invariant
                j <= self.bindings@.len(),
                bs == self@.bindings,
                bindings_find(bs, id@) == bindings_find(bs.take(j as int), id@),
            decreases j,
        {
            if str_eq(self.bindings[j - 1].0.as_str(), id) {
                assert(bs.take(j as int).last() == bs[j - 1]);
                return Some(self.bindings[j - 1].1.duplicate());
            }
            assert(bs.take(j as int).drop_last() =~= bs.take(j - 1));
            j = j - 1;
        }
        assert(bs.take(0) =~= Seq::<(Seq<char>, TypeValueV)>::empty());
        None
    }

    /// Gives `id` the type `ty`, shadowing what it had before.
    pub fn extend(&mut self, id: &str, ty: TypeValue)
        ensures
            final(self)@.bindings == old(self)@.bindings.push((id@, view_tv(ty))),
            final(self)@.mismatches == old(self)@.mismatches,
    {
        let ghost v = view_tv(ty);
        self.bindings.push((String::from_str(id), ty));
        assert(self@.bindings =~= old(self)@.bindings.push((id@, v)));
        assert(self@.mismatches =~= old(self)@.mismatches);
    }
}

} // verus!
