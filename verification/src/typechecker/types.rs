//! Types as the type checker sees them, type errors, and typed expressions.
use vstd::prelude::*;

use crate::ast::{view_type, ArmV, Expr, ExprKind, ExprKindV, ExprV, SpannedExpr, Type, TypeV};
use crate::text::str_eq;
use crate::typechecker::context::bindings_find;
use crate::spanned::Spanned;

verus! {

/// A type.
#[derive(Debug, PartialEq)]
pub enum TypeValue {
    Int,
    Float,
    Bool,
    /// A function: argument types, return type.
    Fn(Vec<TypeValue>, Box<TypeValue>),
    /// A closure: argument type, return type.
    Closure(Box<TypeValue>, Box<TypeValue>),
    /// A nominal type, by name.
    Adt(String),
    /// A type variable.
    Var(usize),
}

/// The model of a type.
pub enum TypeValueV {
    Int,
    Float,
    Bool,
    Fn(Seq<TypeValueV>, Box<TypeValueV>),
    Closure(Box<TypeValueV>, Box<TypeValueV>),
    Adt(Seq<char>),
    Var(usize),
}

pub open spec fn view_tv(t: TypeValue) -> TypeValueV
    decreases t,
{
    match t {
        TypeValue::Int => TypeValueV::Int,
        TypeValue::Float => TypeValueV::Float,
        TypeValue::Bool => TypeValueV::Bool,
        TypeValue::Fn(args, ret) => TypeValueV::Fn(view_tvs(args@), Box::new(view_tv(*ret))),
        TypeValue::Closure(a, r) => TypeValueV::Closure(Box::new(view_tv(*a)), Box::new(view_tv(*r))),
        TypeValue::Adt(name) => TypeValueV::Adt(name@),
        TypeValue::Var(v) => TypeValueV::Var(v),
    }
}

pub open spec fn view_tvs(ts: Seq<TypeValue>) -> Seq<TypeValueV>
    decreases ts,
{
    if ts.len() == 0 {
        Seq::empty()
    } else {
        seq![view_tv(ts[0])] + view_tvs(ts.drop_first())
    }
}

pub proof fn lemma_view_tvs_push(s: Seq<TypeValue>, x: TypeValue)
    ensures
        view_tvs(s.push(x)) == view_tvs(s).push(view_tv(x)),
    decreases s.len(),
{
    if s.len() == 0 {
        assert(s.push(x).drop_first() =~= Seq::<TypeValue>::empty());
        assert(view_tvs(s.push(x).drop_first()) =~= Seq::<TypeValueV>::empty());
        assert(view_tvs(s.push(x)) =~= seq![view_tv(x)]);
    } else {
        assert(s.push(x).drop_first() =~= s.drop_first().push(x));
        lemma_view_tvs_push(s.drop_first(), x);
        assert(view_tvs(s.push(x)) =~= view_tvs(s).push(view_tv(x)));
    }
}

proof fn lemma_view_tvs_index(s: Seq<TypeValue>, i: int)
    requires
        0 <= i < s.len(),
    ensures
        view_tvs(s).len() == s.len(),
        view_tvs(s)[i] == view_tv(s[i]),
    decreases s.len(),
{
    lemma_view_tvs_len(s);
    if i > 0 {
        lemma_view_tvs_index(s.drop_first(), i - 1);
    }
}

proof fn lemma_view_tvs_len(s: Seq<TypeValue>)
    ensures
        view_tvs(s).len() == s.len(),
    decreases s.len(),
{
    if s.len() > 0 {
        lemma_view_tvs_len(s.drop_first());
    }
}

impl TypeValue {
    /// A copy of this type.
    #[verifier::loop_isolation(false)]
    pub fn duplicate(&self) -> (r: TypeValue)
        ensures
            view_tv(r) == view_tv(*self),
        decreases *self,
    {
        match self {
            TypeValue::Int => TypeValue::Int,
            TypeValue::Float => TypeValue::Float,
            TypeValue::Bool => TypeValue::Bool,
            TypeValue::Fn(args, ret) => {
                let mut out: Vec<TypeValue> = Vec::new();
                let mut i: usize = 0;
                while i < args.len()
                    invariant
                        i <= args@.len(),
                        view_tvs(out@) == view_tvs(args@.take(i as int)),
                    decreases args@.len() - i,
                {
                    proof {
                        assert(*args == (*self)->Fn_0);
                        assert(decreases_to!(*self => (*self)->Fn_0));
                        assert(decreases_to!(*args => args@));
                        assert(decreases_to!(args@ => args@[i as int]));
                    }
                    let t = args[i].duplicate();
                    proof {
                        lemma_view_tvs_push(out@, t);
                        lemma_view_tvs_push(args@.take(i as int), args@[i as int]);
                        assert(args@.take(i + 1) =~= args@.take(i as int).push(args@[i as int]));
                    }
                    out.push(t);
                    i = i + 1;
                }
                assert(args@.take(i as int) =~= args@);
                TypeValue::Fn(out, Box::new(ret.duplicate()))
            },
            TypeValue::Closure(a, r) => TypeValue::Closure(Box::new(a.duplicate()), Box::new(r.duplicate())),
            TypeValue::Adt(name) => TypeValue::Adt(name.clone()),
            TypeValue::Var(v) => TypeValue::Var(*v),
        }
    }

    /// Whether two types are the same.
    #[verifier::loop_isolation(false)]
    pub fn same(&self, other: &TypeValue) -> (r: bool)
        ensures
            r == (view_tv(*self) == view_tv(*other)),
        decreases *self,
    {
        match (self, other) {
            (TypeValue::Int, TypeValue::Int) => true,
            (TypeValue::Float, TypeValue::Float) => true,
            (TypeValue::Bool, TypeValue::Bool) => true,
            (TypeValue::Fn(a1, r1), TypeValue::Fn(a2, r2)) => {
                proof {
                    lemma_view_tvs_len(a1@);
                    lemma_view_tvs_len(a2@);
                }
                if a1.len() != a2.len() {
                    return false;
                }
                let mut i: usize = 0;
                while i < a1.len()
                    invariant
                        i <= a1@.len(),
                        a1@.len() == a2@.len(),
                        view_tvs(a1@).len() == a1@.len(),
                        view_tvs(a2@).len() == a2@.len(),
                        forall|j: int| 0 <= j < i ==> view_tvs(a1@)[j] == view_tvs(a2@)[j],
                    decreases a1@.len() - i,
                {
                    proof {
                        assert(*a1 == (*self)->Fn_0);
                        assert(decreases_to!(*self => (*self)->Fn_0));
                        assert(decreases_to!(*a1 => a1@));
                        assert(decreases_to!(a1@ => a1@[i as int]));
                        lemma_view_tvs_index(a1@, i as int);
                        lemma_view_tvs_index(a2@, i as int);
                    }
                    if !a1[i].same(&a2[i]) {
                        return false;
                    }
                    i = i + 1;
                }
                assert(view_tvs(a1@) =~= view_tvs(a2@));
                r1.same(r2)
            },
            (TypeValue::Closure(a1, r1), TypeValue::Closure(a2, r2)) => a1.same(a2) && r1.same(r2),
            (TypeValue::Adt(n1), TypeValue::Adt(n2)) => *n1 == *n2,
            (TypeValue::Var(v1), TypeValue::Var(v2)) => *v1 == *v2,
            _ => false,
        }
    }
}

/// A type mismatch: the type that was expected at `offset`, and the one found.
#[derive(Debug, PartialEq)]
pub struct TypeError {
    pub expected: TypeValue,
    pub actual: TypeValue,
    pub offset: usize,
}

pub type TypeResult<T> = Result<T, TypeError>;

/// An expression annotated with its type.
pub type TypedExpr<'a> = SpannedExpr<'a, TypeValue>;

impl<'a> TypedExpr<'a> {
    /// Builds a typed expression.
    pub fn new(offset: usize, ann: TypeValue, kind: ExprKind<'a, TypeValue>) -> (r: Self)
        ensures
            r.offset == offset,
            r.node.ann == ann,
            r.node.kind == kind,
    {
        Spanned { offset, node: Expr { ann, kind } }
    }

    /// The type of the expression.
    pub fn ty(&self) -> (r: TypeValue)
        ensures
            view_tv(r) == view_tv(self.node.ann),
    {
        self.node.ann.duplicate()
    }
}


/// A type error, as a model.
pub struct TypeErrorV {
    pub expected: TypeValueV,
    pub actual: TypeValueV,
    pub offset: usize,
}

pub open spec fn view_terr(e: TypeError) -> TypeErrorV {
    TypeErrorV { expected: view_tv(e.expected), actual: view_tv(e.actual), offset: e.offset }
}

/// An expression of the model whose annotations are mapped by `f`.
pub open spec fn map_ann<'a, A, B>(e: Spanned<ExprV<'a, A>>, f: spec_fn(A) -> B) -> Spanned<ExprV<'a, B>>
    decreases e,
{
    let kind = match e.node.kind {
        ExprKindV::Int(v) => ExprKindV::Int(v),
        ExprKindV::Float(v) => ExprKindV::Float(v),
        ExprKindV::Bool(v) => ExprKindV::Bool(v),
        ExprKindV::Id(v) => ExprKindV::Id(v),
        ExprKindV::Fn(b, body) => ExprKindV::Fn(b, Box::new(map_ann(*body, f))),
        ExprKindV::Unary(op, x) => ExprKindV::Unary(op, Box::new(map_ann(*x, f))),
        ExprKindV::Call(g, args) => ExprKindV::Call(Box::new(map_ann(*g, f)), map_anns(args, f)),
        ExprKindV::Binary(op, l, r) => ExprKindV::Binary(op, Box::new(map_ann(*l, f)), Box::new(map_ann(*r, f))),
        ExprKindV::If(c, a, b) => ExprKindV::If(
            Box::new(map_ann(*c, f)),
            Box::new(map_ann(*a, f)),
            Box::new(map_ann(*b, f)),
        ),
        ExprKindV::Match(x, arms) => ExprKindV::Match(Box::new(map_ann(*x, f)), map_arms_ann(arms, f)),
    };
    Spanned { offset: e.offset, node: ExprV { ann: f(e.node.ann), kind } }
}

pub open spec fn map_anns<'a, A, B>(es: Seq<Spanned<ExprV<'a, A>>>, f: spec_fn(A) -> B) -> Seq<Spanned<ExprV<'a, B>>>
    decreases es,
{
    if es.len() == 0 {
        Seq::empty()
    } else {
        seq![map_ann(es[0], f)] + map_anns(es.drop_first(), f)
    }
}

pub open spec fn map_arms_ann<'a, A, B>(arms: Seq<ArmV<'a, A>>, f: spec_fn(A) -> B) -> Seq<ArmV<'a, B>>
    decreases arms,
{
    if arms.len() == 0 {
        Seq::empty()
    } else {
        seq![ArmV { ctor: arms[0].ctor, bindings: arms[0].bindings, body: map_ann(arms[0].body, f) }]
            + map_arms_ann(arms.drop_first(), f)
    }
}

/// A typed expression of the model: annotations are types.
pub type TEV<'a> = Spanned<ExprV<'a, TypeValueV>>;

/// The model of a typed expression.
pub open spec fn view_typed<'a>(e: TypedExpr<'a>) -> TEV<'a> {
    map_ann(crate::ast::view_expr(e), |t: TypeValue| view_tv(t))
}

// ─── environments ───────────────────────────────────────────────────

/// The types of the names in scope: a global table, extended by local
/// bindings (the latest shadows the others).
pub enum Env {
    Global(Vec<(String, TypeValue)>),
    Local { next: Box<Env>, binding: (String, TypeValue) },
}

/// The names of an environment with their types, oldest first.
pub open spec fn env_bindings(e: Env) -> Seq<(Seq<char>, TypeValueV)>
    decreases e,
{
    match e {
        Env::Global(v) => v@.map_values(|p: (String, TypeValue)| (p.0@, view_tv(p.1))),
        Env::Local { next, binding } => env_bindings(*next).push((binding.0@, view_tv(binding.1))),
    }
}

impl Env {
    /// The type of `id`, from its latest binding.
    pub fn lookup(&self, id: &str) -> (r: Option<TypeValue>)
        ensures
            match r {
                Some(t) => bindings_find(env_bindings(*self), id@) == Some(view_tv(t)),
                None => bindings_find(env_bindings(*self), id@) is None,
            },
        decreases *self,
    {
        match self {
            Env::Global(v) => {
                let ghost bs = env_bindings(*self);
                let mut j = v.len();
                assert(bs.take(j as int) =~= bs);
                while j > 0
                    invariant
                        j <= v@.len(),
                        bs == v@.map_values(|p: (String, TypeValue)| (p.0@, view_tv(p.1))),
                        bs == env_bindings(*self),
                        bindings_find(bs, id@) == bindings_find(bs.take(j as int), id@),
                    decreases j,
                {
                    if str_eq(v[j - 1].0.as_str(), id) {
                        assert(bs.take(j as int).last() == bs[j - 1]);
                        return Some(v[j - 1].1.duplicate());
                    }
                    assert(bs.take(j as int).drop_last() =~= bs.take(j - 1));
                    j = j - 1;
                }
                assert(bs.take(0) =~= Seq::<(Seq<char>, TypeValueV)>::empty());
                None
            },
            Env::Local { next, binding } => {
                let ghost bs = env_bindings(*self);
                assert(bs.drop_last() == env_bindings(**next));
                if str_eq(binding.0.as_str(), id) {
                    Some(binding.1.duplicate())
                } else {
                    next.lookup(id)
                }
            },
        }
    }

    /// Binds `id` to `ty`, shadowing what it had before.
    pub fn extend(&mut self, id: &str, ty: TypeValue)
        ensures
            env_bindings(*final(self)) == env_bindings(*old(self)).push((id@, view_tv(ty))),
    {
        let mut prev = Env::Global(Vec::new());
        std::mem::swap(&mut prev, self);
        *self = Env::Local { next: Box::new(prev), binding: (String::from_str(id), ty) };
    }
}


/// The written types that have a type value: the primitive types and
/// functions between them.
pub open spec fn convertible<'a>(t: TypeV<'a>) -> bool
    decreases t,
{
    match t {
        TypeV::Int | TypeV::Float | TypeV::Bool => true,
        TypeV::Fn(a, b) => convertible(*a) && convertible(*b),
        _ => false,
    }
}

/// The type value of a written type: a function type takes one argument.
pub open spec fn value_of_type<'a>(t: TypeV<'a>) -> TypeValueV
    decreases t,
{
    match t {
        TypeV::Int => TypeValueV::Int,
        TypeV::Float => TypeValueV::Float,
        TypeV::Bool => TypeValueV::Bool,
        TypeV::Fn(a, b) => TypeValueV::Fn(seq![value_of_type(*a)], Box::new(value_of_type(*b))),
        _ => TypeValueV::Var(0),
    }
}

impl TypeValue {
    /// The type value of a written type; see `value_of_type`.
    pub fn from_type(ty: Type) -> (r: TypeValue)
        requires
            convertible(view_type(ty)),
        ensures
            view_tv(r) == value_of_type(view_type(ty)),
        decreases ty,
    {
        match ty {
            Type::Int => TypeValue::Int,
            Type::Float => TypeValue::Float,
            Type::Bool => TypeValue::Bool,
            Type::Fn(a, b) => {
                let arg = TypeValue::from_type(*a);
                let ret = TypeValue::from_type(*b);
                let mut args: Vec<TypeValue> = Vec::new();
                args.push(arg);
                proof {
                    lemma_view_tvs_push(Seq::empty(), arg);
                    assert(Seq::<TypeValue>::empty().push(arg) =~= args@);
                    assert(view_tvs(Seq::<TypeValue>::empty()) =~= Seq::<TypeValueV>::empty());
                    assert(view_tvs(args@) =~= seq![view_tv(arg)]);
                }
                TypeValue::Fn(args, Box::new(ret))
            },
            _ => TypeValue::Var(0),
        }
    }
}

} // verus!
