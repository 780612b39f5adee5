//! The inference context: an arena of types whose entries are merged by
//! unification (a union-find), and the types of the names in scope.
use vstd::prelude::*;

use crate::ast::{Expr, ExprKind, SpannedExpr};
use crate::spanned::Spanned;
use crate::text::str_eq;
use crate::typechecker::types::{view_tv, TypeValue, TypeValueV};

verus! {

/// An entry of the arena of types.
#[derive(Debug, Clone, Copy, PartialEq, Eq, Structural)]
pub struct TypeId(pub usize);

/// The primitive type that a class of entries is known to be.
#[derive(Debug, Clone, Copy, PartialEq, Eq, Structural)]
pub enum Prim {
    Int,
    Bool,
    Float,
}

/// An expression annotated with an entry of the arena.
pub type InferredExpr<'a> = SpannedExpr<'a, TypeId>;

impl<'a> InferredExpr<'a> {
    pub fn new(offset: usize, ann: TypeId, kind: ExprKind<'a, TypeId>) -> (r: Self)
        ensures
            r.offset == offset,
            r.node.ann == ann,
            r.node.kind == kind,
    {
        Spanned { offset, node: Expr { ann, kind } }
    }

    pub fn ty(&self) -> (r: TypeId)
        ensures
            r == self.node.ann,
    {
        self.node.ann
    }
}

/// The model of a context: the union-find links of the arena, what each
/// class is known to be (read at its root), and the names in scope, latest
/// last.
pub struct InfV {
    pub parent: Seq<usize>,
    pub known: Seq<Option<Prim>>,
    pub names: Seq<(Seq<char>, TypeId)>,
}

/// The root of the class of entry `i`: links are followed downwards until an
/// entry that links to itself.
pub open spec fn root_of(parent: Seq<usize>, i: int) -> int
    decreases i,
{
    if 0 <= i < parent.len() && (parent[i] as int) < i {
        root_of(parent, parent[i] as int)
    } else {
        i
    }
}

/// Whether entries `x` and `y` are in one class.
pub open spec fn same_class(c: InfV, x: int, y: int) -> bool {
    root_of(c.parent, x) == root_of(c.parent, y)
}

/// What the class of entry `x` is known to be.
pub open spec fn class_known(c: InfV, x: int) -> Option<Prim> {
    c.known[root_of(c.parent, x)]
}

/// Whether the classes of `a` and `b` may be merged: they are not known to
/// be two different primitive types.
pub open spec fn compatible(c: InfV, a: int, b: int) -> bool {
    !(class_known(c, a) is Some && class_known(c, b) is Some && class_known(c, a) != class_known(c, b))
}

/// What the merged class of `a` and `b` is known to be.
pub open spec fn merged_known(c: InfV, a: int, b: int) -> Option<Prim> {
    if class_known(c, a) is Some {
        class_known(c, a)
    } else {
        class_known(c, b)
    }
}

/// Well-formedness: links only go downwards, entries 0, 1 and 2 are the
/// roots of the classes known to be `Int`, `Bool` and `Float`, and every
/// name has an entry of the arena.
pub open spec fn inf_wf(c: InfV) -> bool {
    &&& c.parent.len() == c.known.len()
    &&& c.parent.len() >= 3
    &&& forall|i: int| 0 <= i < c.parent.len() ==> #[trigger] c.parent[i] <= i
    &&& c.parent[0] == 0 && c.parent[1] == 1 && c.parent[2] == 2
    &&& c.known[0] == Some(Prim::Int)
    &&& c.known[1] == Some(Prim::Bool)
    &&& c.known[2] == Some(Prim::Float)
    &&& forall|j: int| 0 <= j < c.names.len() ==> (#[trigger] c.names[j]).1.0 < c.parent.len()
}

/// The type that entry `x` stands for: its known primitive type, or the
/// type variable named by its root.
pub open spec fn type_of_entry(c: InfV, x: int) -> TypeValueV {
    match class_known(c, x) {
        Some(Prim::Int) => TypeValueV::Int,
        Some(Prim::Bool) => TypeValueV::Bool,
        Some(Prim::Float) => TypeValueV::Float,
        None => TypeValueV::Var(root_of(c.parent, x) as usize),
    }
}

/// The latest type given to `name`.
pub open spec fn names_find(names: Seq<(Seq<char>, TypeId)>, name: Seq<char>) -> Option<TypeId>
    decreases names.len(),
{
    if names.len() == 0 {
        None
    } else if names.last().0 == name {
        Some(names.last().1)
    } else {
        names_find(names.drop_last(), name)
    }
}


/// A fresh entry: alone in its class, of unknown type.
pub open spec fn new_tyvar_v(c: InfV) -> (InfV, TypeId) {
    (
        InfV { parent: c.parent.push(c.parent.len() as usize), known: c.known.push(None), names: c.names },
        TypeId(c.parent.len() as usize),
    )
}

/// Unification of the classes of `a` and `b`: the root with the larger
/// index is linked to the other, which keeps what either class was known to
/// be. Classes known to be different primitive types are left apart.
pub open spec fn unify_v(c: InfV, a: int, b: int) -> (InfV, bool) {
    let r1 = root_of(c.parent, a);
    let r2 = root_of(c.parent, b);
    if r1 == r2 {
        (c, true)
    } else if !compatible(c, a, b) {
        (c, false)
    } else {
        let lo = if r1 < r2 { r1 } else { r2 };
        let hi = if r1 < r2 { r2 } else { r1 };
        (
            InfV {
                parent: c.parent.update(hi, lo as usize),
                known: c.known.update(lo, merged_known(c, a, b)),
                names: c.names,
            },
            true,
        )
    }
}

/// Gives `name` the entry `ty`.
pub open spec fn extend_v(c: InfV, name: Seq<char>, ty: TypeId) -> InfV {
    InfV { parent: c.parent, known: c.known, names: c.names.push((name, ty)) }
}

proof fn lemma_root_props(parent: Seq<usize>, x: int)
    requires
        0 <= x < parent.len(),
        forall|i: int| 0 <= i < parent.len() ==> #[trigger] parent[i] <= i,
    ensures
        0 <= root_of(parent, x) <= x,
        parent[root_of(parent, x)] == root_of(parent, x),
    decreases x,
{
    if (parent[x] as int) < x {
        lemma_root_props(parent, parent[x] as int);
    } else {
        assert(parent[x] == x);
    }
}

proof fn lemma_root_after_link(parent: Seq<usize>, lo: int, hi: int, x: int)
    requires
        forall|i: int| 0 <= i < parent.len() ==> #[trigger] parent[i] <= i,
        0 <= lo < hi < parent.len(),
        parent[lo] == lo,
        parent[hi] == hi,
        0 <= x < parent.len(),
    ensures
        root_of(parent.update(hi, lo as usize), x) == if root_of(parent, x) == hi {
            lo
        } else {
            root_of(parent, x)
        },
    decreases x,
{
    let p2 = parent.update(hi, lo as usize);
    lemma_root_props(parent, x);
    if x == hi {
        assert(p2[hi] == lo);
        assert(p2[lo] == lo);
        assert(root_of(p2, lo) == lo);
    } else if (parent[x] as int) < x {
        assert(p2[x] == parent[x]);
        lemma_root_after_link(parent, lo, hi, parent[x] as int);
    } else {
        assert(p2[x] == parent[x]);
    }
}

proof fn lemma_root_after_push(parent: Seq<usize>, n: usize, x: int)
    requires
        0 <= x < parent.len(),
    ensures
        root_of(parent.push(n), x) == root_of(parent, x),
    decreases x,
{
    if (parent[x] as int) < x {
        lemma_root_after_push(parent, n, parent[x] as int);
    }
}

/// Unification keeps the context well formed and its size and names;
/// when it succeeds the two entries are in one class; and every entry whose
/// class was known to be a primitive type still is.
pub proof fn lemma_unify_v_keeps(c: InfV, a: int, b: int)
    requires
        inf_wf(c),
        0 <= a < c.parent.len(),
        0 <= b < c.parent.len(),
    ensures
        inf_wf(unify_v(c, a, b).0),
        unify_v(c, a, b).0.parent.len() == c.parent.len(),
        unify_v(c, a, b).0.names == c.names,
        unify_v(c, a, b).1 ==> same_class(unify_v(c, a, b).0, a, b),
        forall|x: int, y: int|
            0 <= x < c.parent.len() && 0 <= y < c.parent.len() && #[trigger] same_class(c, x, y) ==> same_class(
                unify_v(c, a, b).0,
                x,
                y,
            ),
        forall|x: int|
            0 <= x < c.parent.len() && (#[trigger] class_known(c, x)) is Some ==> class_known(unify_v(c, a, b).0, x)
                == class_known(c, x),
{
    let p0 = c.parent;
    let k0 = c.known;
    let r1 = root_of(p0, a);
    let r2 = root_of(p0, b);
    lemma_root_props(p0, a);
    lemma_root_props(p0, b);
    if r1 != r2 && compatible(c, a, b) {
        let lo = if r1 < r2 { r1 } else { r2 };
        let hi = if r1 < r2 { r2 } else { r1 };
        let c2 = unify_v(c, a, b).0;
        assert(root_of(p0, 0) == 0 && root_of(p0, 1) == 1 && root_of(p0, 2) == 2);
        assert(hi > 2) by {
            if hi <= 2 {
                assert(k0[lo] is Some && k0[hi] is Some);
            }
        }
        assert forall|x: int| 0 <= x < p0.len() implies #[trigger] root_of(c2.parent, x) == if root_of(p0, x) == hi {
            lo
        } else {
            root_of(p0, x)
        } by {
            lemma_root_after_link(p0, lo, hi, x);
        }
        assert(root_of(c2.parent, a) == lo);
        assert(root_of(c2.parent, b) == lo);
        assert forall|x: int, y: int|
            0 <= x < p0.len() && 0 <= y < p0.len() && #[trigger] same_class(c, x, y) implies same_class(c2, x, y) by {
            assert(root_of(c2.parent, x) == if root_of(p0, x) == hi { lo } else { root_of(p0, x) });
            assert(root_of(c2.parent, y) == if root_of(p0, y) == hi { lo } else { root_of(p0, y) });
        }
        assert forall|x: int|
            0 <= x < p0.len() && (#[trigger] class_known(c, x)) is Some implies class_known(c2, x) == class_known(c, x) by {
            lemma_root_props(p0, x);
            lemma_root_after_link(p0, lo, hi, x);
        }
        assert forall|i: int| 0 <= i < c2.parent.len() implies #[trigger] c2.parent[i] <= i by {
            if i != hi {
                assert(c2.parent[i] == p0[i]);
            }
        }
        if lo <= 2 {
            assert(k0[lo] is Some);
        }
    }
}

/// A fresh entry keeps the context well formed, and every existing entry in
/// its class and with what it is known to be.
pub proof fn lemma_new_tyvar_v_keeps(c: InfV)
    requires
        inf_wf(c),
    ensures
        inf_wf(new_tyvar_v(c).0),
        new_tyvar_v(c).0.parent.len() == c.parent.len() + 1,
        new_tyvar_v(c).1.0 < new_tyvar_v(c).0.parent.len(),
        forall|x: int| 0 <= x < c.parent.len() ==> #[trigger] class_known(new_tyvar_v(c).0, x) == class_known(c, x),
        forall|x: int, y: int|
            0 <= x < c.parent.len() && 0 <= y < c.parent.len() ==> (#[trigger] same_class(new_tyvar_v(c).0, x, y)
                == same_class(c, x, y)),
{
    let c2 = new_tyvar_v(c).0;
    assert forall|x: int| 0 <= x < c.parent.len() implies #[trigger] root_of(c2.parent, x) == root_of(c.parent, x) by {
        lemma_root_after_push(c.parent, c.parent.len() as usize, x);
    }
    assert forall|x: int| 0 <= x < c.parent.len() implies #[trigger] class_known(c2, x) == class_known(c, x) by {
        lemma_root_after_push(c.parent, c.parent.len() as usize, x);
        lemma_root_props(c.parent, x);
    }
    assert forall|i: int| 0 <= i < c2.parent.len() implies #[trigger] c2.parent[i] <= i by {
        if i < c.parent.len() {
            assert(c2.parent[i] == c.parent[i]);
        }
    }
}

/// A name's entry is one of the names' entries.
pub proof fn lemma_names_find_in(names: Seq<(Seq<char>, TypeId)>, name: Seq<char>, n: nat)
    requires
        forall|j: int| 0 <= j < names.len() ==> (#[trigger] names[j]).1.0 < n,
    ensures
        names_find(names, name) matches Some(t) ==> t.0 < n,
    decreases names.len(),
{
    if names.len() > 0 {
        let p = names.drop_last();
        assert forall|j: int| 0 <= j < p.len() implies (#[trigger] p[j]).1.0 < n by {
            assert(p[j] == names[j]);
        }
        lemma_names_find_in(p, name, n);
    }
}

/// The inference context.
pub struct Context {
    parent: Vec<usize>,
    known: Vec<Option<Prim>>,
    names: Vec<(String, TypeId)>,
}

impl View for Context {
    type V = InfV;

    closed spec fn view(&self) -> InfV {
        InfV { parent: self.parent@, known: self.known@, names: self.names@.map_values(|p: (String, TypeId)| (p.0@, p.1)) }
    }
}

impl Context {
    /// A context with the three primitive types and no names.
    pub fn new() -> (r: Self)
        ensures
            inf_wf(r@),
            r@.parent.len() == 3,
            r@.names.len() == 0,
    {
        let mut parent: Vec<usize> = Vec::new();
        parent.push(0);
        parent.push(1);
        parent.push(2);
        let mut known: Vec<Option<Prim>> = Vec::new();
        known.push(Some(Prim::Int));
        known.push(Some(Prim::Bool));
        known.push(Some(Prim::Float));
        let r = Context { parent, known, names: Vec::new() };
        assert(r@.names =~= Seq::<(Seq<char>, TypeId)>::empty());
        r
    }

    /// The entry of `Int`.
    pub fn int_id(&self) -> (r: TypeId)
        requires
            inf_wf(self@),
        ensures
            r == TypeId(0),
            r.0 < self@.parent.len(),
            class_known(self@, r.0 as int) == Some(Prim::Int),
    {
        TypeId(0)
    }

    /// The entry of `Bool`.
    pub fn bool_id(&self) -> (r: TypeId)
        requires
            inf_wf(self@),
        ensures
            r == TypeId(1),
            r.0 < self@.parent.len(),
            class_known(self@, r.0 as int) == Some(Prim::Bool),
    {
        TypeId(1)
    }

    /// The entry of `Float`.
    pub fn float_id(&self) -> (r: TypeId)
        requires
            inf_wf(self@),
        ensures
            r == TypeId(2),
            r.0 < self@.parent.len(),
            class_known(self@, r.0 as int) == Some(Prim::Float),
    {
        TypeId(2)
    }

    /// A fresh type variable: a new entry, alone in its class, of unknown type.
    pub fn new_tyvar(&mut self) -> (r: TypeId)
        requires
            inf_wf(old(self)@),
        ensures
            (final(self)@, r) == new_tyvar_v(old(self)@),
            inf_wf(final(self)@),
            r.0 == old(self)@.parent.len(),
            final(self)@.parent.len() == old(self)@.parent.len() + 1,
            final(self)@.names == old(self)@.names,
            class_known(final(self)@, r.0 as int) is None,
            forall|x: int| 0 <= x < old(self)@.parent.len() ==> root_of(final(self)@.parent, x) == root_of(old(self)@.parent, x),
            forall|x: int| 0 <= x < old(self)@.parent.len() ==> !same_class(final(self)@, x, r.0 as int),
            forall|x: int| 0 <= x < old(self)@.parent.len() ==> class_known(final(self)@, x) == class_known(old(self)@, x),
    {
        let i = self.parent.len();
        self.parent.push(i);
        self.known.push(None);
        proof {
            let p0 = old(self)@.parent;
            assert(self@.parent[i as int] == i);
            assert(root_of(self@.parent, i as int) == i);
            assert forall|x: int| 0 <= x < p0.len() implies root_of(self@.parent, x) == root_of(p0, x)
                && !same_class(self@, x, i as int)
                && class_known(self@, x) == class_known(old(self)@, x) by {
                lemma_root_after_push(p0, i, x);
                lemma_root_props(p0, x);
            }
            assert forall|x: int| 0 <= x < p0.len() implies !#[trigger] same_class(self@, x, i as int) by {
                lemma_root_after_push(p0, i, x);
                lemma_root_props(p0, x);
            }
            assert(self@.names =~= old(self)@.names);
        }
        TypeId(i)
    }

    /// The root of the class of `t`.
    fn find(&self, t: TypeId) -> (r: usize)
        requires
            inf_wf(self@),
            t.0 < self@.parent.len(),
        ensures
            r == root_of(self@.parent, t.0 as int),
            r < self@.parent.len(),
            self@.parent[r as int] == r,
    {
        let mut i = t.0;
        proof {
            lemma_root_props(self@.parent, t.0 as int);
        }
        while self.parent[i] != i
            invariant
                inf_wf(self@),
                i < self@.parent.len(),
                root_of(self@.parent, i as int) == root_of(self@.parent, t.0 as int),
            decreases i,
        {
            assert(self@.parent[i as int] <= i);
            i = self.parent[i];
        }
        i
    }

    /// Merges the classes of `t1` and `t2`, unless they are known to be two
    /// different primitive types; then the context is left as it was and the
    /// result is `false`.
    pub fn unify(&mut self, t1: TypeId, t2: TypeId) -> (r: bool)
        requires
            inf_wf(old(self)@),
            t1.0 < old(self)@.parent.len(),
            t2.0 < old(self)@.parent.len(),
        ensures
            inf_wf(final(self)@),
            final(self)@.parent.len() == old(self)@.parent.len(),
            final(self)@.names == old(self)@.names,
            (final(self)@, r) == unify_v(old(self)@, t1.0 as int, t2.0 as int),
            r == compatible(old(self)@, t1.0 as int, t2.0 as int),
            !r ==> final(self)@ == old(self)@,
            r ==> same_class(final(self)@, t1.0 as int, t2.0 as int),
            r ==> compatible(final(self)@, t1.0 as int, t2.0 as int),
            r ==> forall|x: int, y: int|
                0 <= x < old(self)@.parent.len() && 0 <= y < old(self)@.parent.len() ==> (same_class(final(self)@, x, y) <==> (
                    same_class(old(self)@, x, y)
                    || (same_class(old(self)@, x, t1.0 as int) && same_class(old(self)@, y, t2.0 as int))
                    || (same_class(old(self)@, x, t2.0 as int) && same_class(old(self)@, y, t1.0 as int)))),
            r ==> forall|x: int|
                0 <= x < old(self)@.parent.len() ==> class_known(final(self)@, x) == if same_class(old(self)@, x, t1.0 as int)
                    || same_class(old(self)@, x, t2.0 as int) {
                    merged_known(old(self)@, t1.0 as int, t2.0 as int)
                } else {
                    class_known(old(self)@, x)
                },
    {
        let r1 = self.find(t1);
        let r2 = self.find(t2);
        if r1 == r2 {
            return true;
        }
        let k1 = self.known[r1];
        let k2 = self.known[r2];
        let merged = match (k1, k2) {
            (Some(a), Some(b)) => {
                if a != b {
                    return false;
                }
                Some(a)
            },
            (Some(a), None) => Some(a),
            (None, b) => b,
        };
        let (lo, hi) = if r1 < r2 {
            (r1, r2)
        } else {
            (r2, r1)
        };
        let ghost p0 = self@.parent;
        let ghost k0 = self@.known;
        proof {
            assert forall|x: int| 0 <= x < p0.len() implies root_of(p0.update(hi as int, lo), x) == if root_of(p0, x) == hi {
                lo as int
            } else {
                root_of(p0, x)
            } by {
                lemma_root_after_link(p0, lo as int, hi as int, x);
            }
            assert forall|x: int| 0 <= x < p0.len() implies 0 <= #[trigger] root_of(p0, x) <= x && p0[root_of(p0, x)] == root_of(p0, x) by {
                lemma_root_props(p0, x);
            }
        }
        self.parent.set(hi, lo);
        self.known.set(lo, merged);
        proof {
            assert(self@.names =~= old(self)@.names);
            assert(hi > 2) by {
                if hi <= 2 {
                    assert(lo < hi);
                    assert(k0[lo as int] is Some && k0[hi as int] is Some);
                }
            }
        }
        true
    }

    /// The latest entry given to `id`.
    pub fn lookup(&self, id: &str) -> (r: Option<TypeId>)
        requires
            inf_wf(self@),
        ensures
            r == names_find(self@.names, id@),
            r matches Some(t) ==> t.0 < self@.parent.len(),
    {
        let ghost ns = self@.names;
        let mut j = self.names.len();
        assert(ns.take(j as int) =~= ns);
        while j > 0
            invariant
                j <= self.names@.len(),
                ns == self@.names,
                inf_wf(self@),
                names_find(ns, id@) == names_find(ns.take(j as int), id@),
            decreases j,
        {
            if str_eq(self.names[j - 1].0.as_str(), id) {
                assert(ns.take(j as int).last() == ns[j - 1]);
                assert(ns[j - 1] == (self.names@[j - 1].0@, self.names@[j - 1].1));
                return Some(self.names[j - 1].1);
            }
            assert(ns.take(j as int).drop_last() =~= ns.take(j - 1));
            j = j - 1;
        }
        assert(ns.take(0) =~= Seq::<(Seq<char>, TypeId)>::empty());
        None
    }

    /// Gives `id` the entry `ty`, shadowing what it had before.
    pub fn extend(&mut self, id: &str, ty: TypeId)
        requires
            inf_wf(old(self)@),
            ty.0 < old(self)@.parent.len(),
        ensures
            inf_wf(final(self)@),
            final(self)@ == extend_v(old(self)@, id@, ty),
    {
        self.names.push((String::from_str(id), ty));
        assert(self@.names =~= old(self)@.names.push((id@, ty)));
    }

    /// The type of an inferred expression: what its entry's class is known
    /// to be, or the type variable named by the class's root.
    pub fn resolve(&self, expr: &InferredExpr) -> (r: TypeValue)
        requires
            inf_wf(self@),
            expr.node.ann.0 < self@.parent.len(),
        ensures
            view_tv(r) == type_of_entry(self@, expr.node.ann.0 as int),
    {
        self.type_of(expr.node.ann)
    }

    /// The type that entry `t` stands for; see `type_of_entry`.
    pub fn type_of(&self, t: TypeId) -> (r: TypeValue)
        requires
            inf_wf(self@),
            t.0 < self@.parent.len(),
        ensures
            view_tv(r) == type_of_entry(self@, t.0 as int),
    {
        let root = self.find(t);
        match self.known[root] {
            Some(Prim::Int) => TypeValue::Int,
            Some(Prim::Bool) => TypeValue::Bool,
            Some(Prim::Float) => TypeValue::Float,
            None => TypeValue::Var(root),
        }
    }
}

} // verus!
