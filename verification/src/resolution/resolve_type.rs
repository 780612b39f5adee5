//! Resolution of types and bindings.
use vstd::prelude::*;

use crate::ast::{view_binding, view_type, view_types, ParsedBinding, Type, TypeV};
use crate::grammar::BV;
use crate::resolution::types::{
    add_typeparam_v, add_value_nodup_v, add_value_v, inner_change, lemma_declare_inner, lemma_view_rtypes_push, lookup_type_v,
    lookup_typeparam_v, view_rbinding, view_rtype, view_rtypes, CtxV, RBindingV, RTypeV,
    ResolveError, ResolvedBinding, ResolvedType, ResolverCtx,
};

verus! {

/// The result of resolving a type, as a model.
pub open spec fn view_rtype_result<'a>(r: Result<ResolvedType, ResolveError<'a>>) -> Result<RTypeV, ResolveError<'a>> {
    match r {
        Ok(t) => Ok(view_rtype(t)),
        Err(e) => Err(e),
    }
}

/// The result of resolving a binding, as a model.
pub open spec fn view_rbinding_result<'a>(r: Result<ResolvedBinding, ResolveError<'a>>) -> Result<RBindingV, ResolveError<'a>> {
    match r {
        Ok(b) => Ok(view_rbinding(b)),
        Err(e) => Err(e),
    }
}

/// Resolves a type in context `c`. A named type must be in scope; a type
/// parameter that is not in scope is declared in the innermost scope.
pub open spec fn add_type_s<'a>(c: CtxV, t: TypeV<'a>) -> (CtxV, Result<RTypeV, ResolveError<'a>>)
    decreases t,
{
    match t {
        TypeV::Int => (c, Ok(RTypeV::Int)),
        TypeV::Float => (c, Ok(RTypeV::Float)),
        TypeV::Bool => (c, Ok(RTypeV::Bool)),
        TypeV::TypeId(name) => match lookup_type_v(c, name@) {
            Some(id) => (c, Ok(RTypeV::TypeId(id))),
            None => (c, Err(ResolveError::UnknownType(name))),
        },
        TypeV::TypeParam(name) => match lookup_typeparam_v(c, name@) {
            Some(id) => (c, Ok(RTypeV::TypeParam(id))),
            None => {
                let (c1, r) = add_typeparam_v(c, name);
                match r {
                    Ok(id) => (c1, Ok(RTypeV::TypeParam(id))),
                    Err(e) => (c1, Err(e)),
                }
            },
        },
        TypeV::TypeApp(name, args) => match lookup_type_v(c, name@) {
            None => (c, Err(ResolveError::UnknownType(name))),
            Some(id) => {
                let (c1, r) = add_types_rest(c, args, Seq::empty());
                match r {
                    Ok(ts) => (c1, Ok(RTypeV::TypeApp(id, ts))),
                    Err(e) => (c1, Err(e)),
                }
            },
        },
        TypeV::Fn(a, b) => {
            let (c1, ra) = add_type_s(c, *a);
            match ra {
                Err(e) => (c1, Err(e)),
                Ok(ta) => {
                    let (c2, rb) = add_type_s(c1, *b);
                    match rb {
                        Err(e) => (c2, Err(e)),
                        Ok(tb) => (c2, Ok(RTypeV::Fn(Box::new(ta), Box::new(tb)))),
                    }
                },
            }
        },
    }
}

/// Resolves the types `ts` in order, after those already resolved in `acc`.
pub open spec fn add_types_rest<'a>(c: CtxV, ts: Seq<TypeV<'a>>, acc: Seq<RTypeV>) -> (CtxV, Result<Seq<RTypeV>, ResolveError<'a>>)
    decreases ts,
{
    if ts.len() == 0 {
        (c, Ok(acc))
    } else {
        let (c1, r) = add_type_s(c, ts[0]);
        match r {
            Err(e) => (c1, Err(e)),
            Ok(t) => add_types_rest(c1, ts.drop_first(), acc.push(t)),
        }
    }
}

/// Resolves a type without declaring anything: `None` where a name is not in
/// scope.
pub open spec fn lookup_type_s<'a>(c: CtxV, t: TypeV<'a>) -> Option<RTypeV>
    decreases t,
{
    match t {
        TypeV::Int => Some(RTypeV::Int),
        TypeV::Float => Some(RTypeV::Float),
        TypeV::Bool => Some(RTypeV::Bool),
        TypeV::TypeId(name) => match lookup_type_v(c, name@) {
            Some(id) => Some(RTypeV::TypeId(id)),
            None => None,
        },
        TypeV::TypeParam(name) => match lookup_typeparam_v(c, name@) {
            Some(id) => Some(RTypeV::TypeParam(id)),
            None => None,
        },
        TypeV::TypeApp(name, args) => match lookup_type_v(c, name@) {
            None => None,
            Some(id) => match lookup_types_rest(c, args, Seq::empty()) {
                Some(ts) => Some(RTypeV::TypeApp(id, ts)),
                None => None,
            },
        },
        TypeV::Fn(a, b) => match lookup_type_s(c, *a) {
            None => None,
            Some(ta) => match lookup_type_s(c, *b) {
                None => None,
                Some(tb) => Some(RTypeV::Fn(Box::new(ta), Box::new(tb))),
            },
        },
    }
}

/// Resolves the types `ts` without declaring anything, after `acc`.
pub open spec fn lookup_types_rest<'a>(c: CtxV, ts: Seq<TypeV<'a>>, acc: Seq<RTypeV>) -> Option<Seq<RTypeV>>
    decreases ts,
{
    if ts.len() == 0 {
        Some(acc)
    } else {
        match lookup_type_s(c, ts[0]) {
            None => None,
            Some(t) => lookup_types_rest(c, ts.drop_first(), acc.push(t)),
        }
    }
}

/// Declares the name of a binding as a fresh value, then resolves its type.
pub open spec fn add_binding_s<'a>(c: CtxV, b: BV<'a>) -> (CtxV, Result<RBindingV, ResolveError<'a>>) {
    let (c1, r) = add_value_v(c, b.node.id);
    match r {
        Err(e) => (c1, Err(e)),
        Ok(id) => {
            let (c2, rt) = add_type_s(c1, b.node.typ);
            match rt {
                Err(e) => (c2, Err(e)),
                Ok(t) => (c2, Ok(RBindingV { id, typ: t })),
            }
        },
    }
}

/// As `add_binding_s`, refusing a name already declared in the innermost scope.
pub open spec fn add_binding_no_shadowing_s<'a>(c: CtxV, b: BV<'a>) -> (CtxV, Result<RBindingV, ResolveError<'a>>) {
    let (c1, r) = add_value_nodup_v(c, b.node.id);
    match r {
        Err(e) => (c1, Err(e)),
        Ok(id) => {
            let (c2, rt) = add_type_s(c1, b.node.typ);
            match rt {
                Err(e) => (c2, Err(e)),
                Ok(t) => (c2, Ok(RBindingV { id, typ: t })),
            }
        },
    }
}

/// Declares the name of a binding as a fresh value and resolves its type
/// with the names already in scope; the inner `None` where one is missing.
pub open spec fn add_binding_existing_s<'a>(c: CtxV, b: BV<'a>) -> (CtxV, Result<Option<RBindingV>, ResolveError<'a>>) {
    let (c1, r) = add_value_v(c, b.node.id);
    match r {
        Err(e) => (c1, Err(e)),
        Ok(id) => match lookup_type_s(c1, b.node.typ) {
            None => (c1, Ok(None)),
            Some(t) => (c1, Ok(Some(RBindingV { id, typ: t }))),
        },
    }
}

/// Resolves a type. A named type must be in scope (else `UnknownType`); a
/// type parameter that is not in scope is declared in the innermost scope.
#[verifier::loop_isolation(false)]
pub fn try_add_type<'a>(ctx: &mut ResolverCtx<'a>, ty: Type<'a>) -> (r: Result<ResolvedType, ResolveError<'a>>)
    ensures
        (final(ctx)@, view_rtype_result(r)) == add_type_s(old(ctx)@, view_type(ty)),
    decreases ty,
{
    match ty {
        Type::Int => Ok(ResolvedType::Int),
        Type::Float => Ok(ResolvedType::Float),
        Type::Bool => Ok(ResolvedType::Bool),
        Type::TypeId(name) => match ctx.lookup_type(name) {
            Some(id) => Ok(ResolvedType::TypeId(id)),
            None => Err(ResolveError::UnknownType(name)),
        },
        Type::TypeParam(name) => match ctx.lookup_typeparam(name) {
            Some(id) => Ok(ResolvedType::TypeParam(id)),
            None => match ctx.try_add_typeparam(name) {
                Ok(id) => Ok(ResolvedType::TypeParam(id)),
                Err(e) => Err(e),
            },
        },
        Type::TypeApp(name, args) => {
            let id = match ctx.lookup_type(name) {
                Some(id) => id,
                None => {
                    return Err(ResolveError::UnknownType(name));
                },
            };
            let ghost c0 = ctx@;
            let ghost all_vec = args;
            let ghost all = args@;
            let mut rest = args;
            let mut out: Vec<ResolvedType> = Vec::new();
            let ghost mut k: int = 0;
            assert(all.skip(0) =~= all);
            while rest.len() > 0
                invariant
                    0 <= k <= all.len(),
                    rest@ == all.skip(k),
                    all == args@,
                    add_types_rest(c0, view_types(all), Seq::empty()) == add_types_rest(
                        ctx@,
                        view_types(rest@),
                        view_rtypes(out@),
                    ),
                decreases rest@.len(),
            {
                let ghost before = rest@;
                let arg = rest.remove(0);
                assert(arg == all[k]);
                proof {
                    assert(decreases_to!(all_vec => all));
                    assert(decreases_to!(all => all[k]));
                }
                assert(rest@ =~= all.skip(k + 1));
                assert(view_types(before).drop_first() == view_types(rest@)) by {
                    assert(before.drop_first() =~= rest@);
                }
                match try_add_type(ctx, arg) {
                    Ok(t) => {
                        proof {
                            lemma_view_rtypes_push(out@, t);
                        }
                        out.push(t);
                    },
                    Err(e) => {
                        return Err(e);
                    },
                }
                proof {
                    k = k + 1;
                }
            }
            assert(view_types(rest@) =~= Seq::<TypeV<'a>>::empty());
            Ok(ResolvedType::TypeApp(id, out))
        },
        Type::Fn(a, b) => {
            let ta = match try_add_type(ctx, *a) {
                Ok(t) => t,
                Err(e) => {
                    return Err(e);
                },
            };
            let tb = match try_add_type(ctx, *b) {
                Ok(t) => t,
                Err(e) => {
                    return Err(e);
                },
            };
            Ok(ResolvedType::Fn(Box::new(ta), Box::new(tb)))
        },
    }
}


/// The result of looking up a type, as a model.
pub open spec fn view_rtype_option(r: Option<ResolvedType>) -> Option<RTypeV> {
    match r {
        Some(t) => Some(view_rtype(t)),
        None => None,
    }
}

/// Resolves a type with the names already in scope, declaring nothing:
/// `None` where a name is not in scope.
#[verifier::loop_isolation(false)]
fn lookup_type<'a>(ctx: &ResolverCtx<'a>, ty: Type<'a>) -> (r: Option<ResolvedType>)
    ensures
        view_rtype_option(r) == lookup_type_s(ctx@, view_type(ty)),
    decreases ty,
{
    match ty {
        Type::Int => Some(ResolvedType::Int),
        Type::Float => Some(ResolvedType::Float),
        Type::Bool => Some(ResolvedType::Bool),
        Type::TypeId(name) => match ctx.lookup_type(name) {
            Some(id) => Some(ResolvedType::TypeId(id)),
            None => None,
        },
        Type::TypeParam(name) => match ctx.lookup_typeparam(name) {
            Some(id) => Some(ResolvedType::TypeParam(id)),
            None => None,
        },
        Type::TypeApp(name, args) => {
            let id = match ctx.lookup_type(name) {
                Some(id) => id,
                None => {
                    return None;
                },
            };
            let ghost all_vec = args;
            let ghost all = args@;
            let mut rest = args;
            let mut out: Vec<ResolvedType> = Vec::new();
            let ghost mut k: int = 0;
            assert(all.skip(0) =~= all);
            while rest.len() > 0
                invariant
                    0 <= k <= all.len(),
                    rest@ == all.skip(k),
                    all == args@,
                    lookup_types_rest(ctx@, view_types(all), Seq::empty()) == lookup_types_rest(
                        ctx@,
                        view_types(rest@),
                        view_rtypes(out@),
                    ),
                decreases rest@.len(),
            {
                let ghost before = rest@;
                let arg = rest.remove(0);
                assert(arg == all[k]);
                proof {
                    assert(decreases_to!(all_vec => all));
                    assert(decreases_to!(all => all[k]));
                }
                assert(rest@ =~= all.skip(k + 1));
                assert(view_types(before).drop_first() == view_types(rest@)) by {
                    assert(before.drop_first() =~= rest@);
                }
                match lookup_type(ctx, arg) {
                    Some(t) => {
                        proof {
                            lemma_view_rtypes_push(out@, t);
                        }
                        out.push(t);
                    },
                    None => {
                        return None;
                    },
                }
                proof {
                    k = k + 1;
                }
            }
            assert(view_types(rest@) =~= Seq::<TypeV<'a>>::empty());
            Some(ResolvedType::TypeApp(id, out))
        },
        Type::Fn(a, b) => {
            let ta = match lookup_type(ctx, *a) {
                Some(t) => t,
                None => {
                    return None;
                },
            };
            let tb = match lookup_type(ctx, *b) {
                Some(t) => t,
                None => {
                    return None;
                },
            };
            Some(ResolvedType::Fn(Box::new(ta), Box::new(tb)))
        },
    }
}

/// Declares the name of a binding as a fresh value in the innermost scope,
/// then resolves its type.
pub fn try_add_binding<'a>(ctx: &mut ResolverCtx<'a>, binding: ParsedBinding<'a>) -> (r: Result<ResolvedBinding, ResolveError<'a>>)
    ensures
        (final(ctx)@, view_rbinding_result(r)) == add_binding_s(old(ctx)@, view_binding(binding)),
{
    let id = match ctx.try_add_value(binding.node.id) {
        Ok(id) => id,
        Err(e) => {
            return Err(e);
        },
    };
    match try_add_type(ctx, binding.node.typ) {
        Ok(t) => Ok(ResolvedBinding::new(id, t)),
        Err(e) => Err(e),
    }
}

/// As `add_binding`, refusing a name already declared in the innermost scope.
pub fn try_add_binding_no_shadowing<'a>(ctx: &mut ResolverCtx<'a>, binding: ParsedBinding<'a>) -> (r: Result<ResolvedBinding, ResolveError<'a>>)
    ensures
        (final(ctx)@, view_rbinding_result(r)) == add_binding_no_shadowing_s(
            old(ctx)@,
            view_binding(binding),
        ),
{
    let id = match ctx.add_value_nodup(binding.node.id) {
        Ok(id) => id,
        Err(e) => {
            return Err(e);
        },
    };
    match try_add_type(ctx, binding.node.typ) {
        Ok(t) => Ok(ResolvedBinding::new(id, t)),
        Err(e) => Err(e),
    }
}

/// The result of resolving a binding against the names in scope, as a model.
pub open spec fn view_rbinding_option_result<'a>(r: Result<Option<ResolvedBinding>, ResolveError<'a>>) -> Result<Option<RBindingV>, ResolveError<'a>> {
    match r {
        Ok(Some(b)) => Ok(Some(view_rbinding(b))),
        Ok(None) => Ok(None),
        Err(e) => Err(e),
    }
}

pub(crate) fn try_add_binding_existing<'a>(ctx: &mut ResolverCtx<'a>, binding: ParsedBinding<'a>) -> (r: Result<Option<ResolvedBinding>, ResolveError<'a>>)
    ensures
        (final(ctx)@, view_rbinding_option_result(r)) == add_binding_existing_s(
            old(ctx)@,
            view_binding(binding),
        ),
{
    let id = match ctx.try_add_value(binding.node.id) {
        Ok(id) => id,
        Err(e) => {
            return Err(e);
        },
    };
    match lookup_type(ctx, binding.node.typ) {
        Some(t) => Ok(Some(ResolvedBinding::new(id, t))),
        None => Ok(None),
    }
}

/// Declares the name of a binding as a fresh value and resolves its type
/// with the names already in scope, declaring no type parameter: `None`
/// where a name of the type is not in scope.
pub fn add_binding_existing_typaram<'a>(ctx: &mut ResolverCtx<'a>, binding: ParsedBinding<'a>) -> (r: Option<ResolvedBinding>)
    requires
        old(ctx)@.scopes.len() > 0,
        old(ctx)@.values < usize::MAX,
    ensures
        (final(ctx)@, Ok::<Option<RBindingV>, ResolveError<'a>>(
            match r {
                Some(b) => Some(view_rbinding(b)),
                None => None,
            },
        )) == add_binding_existing_s(old(ctx)@, view_binding(binding)),
{
    match try_add_binding_existing(ctx, binding) {
        Ok(r) => r,
        Err(_) => None,
    }
}


/// Resolving a type changes at most the innermost scope (where it may
/// declare type parameters).
pub proof fn lemma_add_type_inner<'a>(c: CtxV, t: TypeV<'a>)
    ensures
        inner_change(c, add_type_s(c, t).0),
    decreases t,
{
    match t {
        TypeV::TypeParam(name) => {
            lemma_declare_inner(c, name);
        },
        TypeV::TypeApp(name, args) => {
            lemma_add_types_inner(c, args, Seq::empty());
        },
        TypeV::Fn(a, b) => {
            lemma_add_type_inner(c, *a);
            lemma_add_type_inner(add_type_s(c, *a).0, *b);
        },
        _ => {},
    }
}

pub proof fn lemma_add_types_inner<'a>(c: CtxV, ts: Seq<TypeV<'a>>, acc: Seq<RTypeV>)
    ensures
        inner_change(c, add_types_rest(c, ts, acc).0),
    decreases ts,
{
    if ts.len() > 0 {
        lemma_add_type_inner(c, ts[0]);
        lemma_add_types_inner(add_type_s(c, ts[0]).0, ts.drop_first(), acc.push(add_type_s(c, ts[0]).1->Ok_0));
    }
}

/// Resolving a binding changes at most the innermost scope.
pub proof fn lemma_add_binding_inner<'a>(c: CtxV, b: BV<'a>)
    ensures
        inner_change(c, add_binding_s(c, b).0),
{
    lemma_declare_inner(c, b.node.id);
    lemma_add_type_inner(add_value_v(c, b.node.id).0, b.node.typ);
}

/// Resolves a type whose names are all in scope; `try_add_type` also takes
/// those that are not, and reports which.
pub fn add_type<'a>(ctx: &mut ResolverCtx<'a>, ty: Type<'a>) -> (r: ResolvedType)
    requires
        add_type_s(old(ctx)@, view_type(ty)).1 is Ok,
    ensures
        (final(ctx)@, view_rtype_result(Ok(r))) == add_type_s(old(ctx)@, view_type(ty)),
{
    try_add_type(ctx, ty).unwrap()
}

/// Declares a binding that resolves without error; `try_add_binding` also
/// takes those that do not, and reports why.
pub fn add_binding<'a>(ctx: &mut ResolverCtx<'a>, binding: ParsedBinding<'a>) -> (r: ResolvedBinding)
    requires
        add_binding_s(old(ctx)@, view_binding(binding)).1 is Ok,
    ensures
        (final(ctx)@, view_rbinding_result(Ok(r))) == add_binding_s(old(ctx)@, view_binding(binding)),
{
    try_add_binding(ctx, binding).unwrap()
}

/// Declares a binding whose name is new to the innermost scope and whose
/// type resolves; `try_add_binding_no_shadowing` also takes the others, and
/// reports why.
pub fn add_binding_no_shadowing<'a>(ctx: &mut ResolverCtx<'a>, binding: ParsedBinding<'a>) -> (r: ResolvedBinding)
    requires
        add_binding_no_shadowing_s(old(ctx)@, view_binding(binding)).1 is Ok,
    ensures
        (final(ctx)@, view_rbinding_result(Ok(r))) == add_binding_no_shadowing_s(old(ctx)@, view_binding(binding)),
{
    try_add_binding_no_shadowing(ctx, binding).unwrap()
}

} // verus!
