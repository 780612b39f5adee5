//! Resolution of expressions.
use vstd::prelude::*;

use crate::ast::{
    view_arm_bindings, view_expr, view_exprs, view_arms, ArmBindingV, ArmV, BinOp, ExprKind,
    ExprKindV, ParsedExpr, SpannedArmBinding,
};
use crate::grammar::EV;
use crate::resolution::resolve_type::{try_add_binding, add_binding_s, lemma_add_binding_inner};
use crate::resolution::types::{
    add_value_v, inner_change, lemma_declare_inner, lemma_view_rarms_push, same_scopes, lemma_view_rexprs_push, lookup_value_v, make_binop,
    make_unop, pop_scope_v, push_scope_v, view_rarms, view_rexpr, view_rexprs,
    CtxV, RArmV, RExprV, ResolveError, ResolvedExpr, ResolvedMatchArm, ResolverCtx, ValueId,
};
use crate::spanned::Spanned;

verus! {

/// The result of resolving an expression, as a model.
pub open spec fn view_rexpr_result<'a>(r: Result<ResolvedExpr<'a>, ResolveError<'a>>) -> Result<RExprV<'a>, ResolveError<'a>> {
    match r {
        Ok(e) => Ok(view_rexpr(e)),
        Err(e) => Err(e),
    }
}

/// Resolves an expression in context `c`: every name must be bound to a
/// value; a closure's parameter and a match arm's pattern variables are
/// declared in a scope of their own, closed again afterwards (also when
/// resolution fails inside it).
pub open spec fn resolve_expr_s<'a>(c: CtxV, e: EV<'a>) -> (CtxV, Result<RExprV<'a>, ResolveError<'a>>)
    decreases e,
{
    match e.node.kind {
        ExprKindV::Int(v) => (c, Ok(RExprV::Int(v))),
        ExprKindV::Float(v) => (c, Ok(RExprV::Float(v))),
        ExprKindV::Bool(v) => (c, Ok(RExprV::Bool(v))),
        ExprKindV::Id(name) => match lookup_value_v(c, name@) {
            Some(id) => (c, Ok(RExprV::Id(id))),
            None => (c, Err(ResolveError::UnboundValue(name))),
        },
        ExprKindV::Fn(b, body) => {
            let (c1, rb) = add_binding_s(push_scope_v(c), b);
            match rb {
                Err(err) => (pop_scope_v(c1), Err(err)),
                Ok(bv) => {
                    let (c2, r) = resolve_expr_s(c1, *body);
                    match r {
                        Err(err) => (pop_scope_v(c2), Err(err)),
                        Ok(x) => (pop_scope_v(c2), Ok(RExprV::Fn(bv, Box::new(x)))),
                    }
                },
            }
        },
        ExprKindV::Unary(op, x) => {
            let (c1, r) = resolve_expr_s(c, *x);
            match r {
                Err(err) => (c1, Err(err)),
                Ok(rx) => (c1, Ok(RExprV::Unary(op, Box::new(rx)))),
            }
        },
        ExprKindV::Call(f, args) => {
            let (c1, rf) = resolve_expr_s(c, *f);
            match rf {
                Err(err) => (c1, Err(err)),
                Ok(xf) => {
                    let (c2, ra) = resolve_exprs_rest(c1, args, Seq::empty());
                    match ra {
                        Err(err) => (c2, Err(err)),
                        Ok(xs) => (c2, Ok(RExprV::Call(Box::new(xf), xs))),
                    }
                },
            }
        },
        ExprKindV::Binary(op, l, r) => {
            let (c1, rl) = resolve_expr_s(c, *l);
            match rl {
                Err(err) => (c1, Err(err)),
                Ok(xl) => {
                    let (c2, rr) = resolve_expr_s(c1, *r);
                    match rr {
                        Err(err) => (c2, Err(err)),
                        Ok(xr) => (c2, Ok(RExprV::Binary(op, Box::new(xl), Box::new(xr)))),
                    }
                },
            }
        },
        ExprKindV::If(a, b, d) => {
            let (c1, ra) = resolve_expr_s(c, *a);
            match ra {
                Err(err) => (c1, Err(err)),
                Ok(xa) => {
                    let (c2, rb) = resolve_expr_s(c1, *b);
                    match rb {
                        Err(err) => (c2, Err(err)),
                        Ok(xb) => {
                            let (c3, rd) = resolve_expr_s(c2, *d);
                            match rd {
                                Err(err) => (c3, Err(err)),
                                Ok(xd) => (c3, Ok(RExprV::If(Box::new(xa), Box::new(xb), Box::new(xd)))),
                            }
                        },
                    }
                },
            }
        },
        ExprKindV::Match(x, arms) => {
            let (c1, rx) = resolve_expr_s(c, *x);
            match rx {
                Err(err) => (c1, Err(err)),
                Ok(xx) => {
                    let (c2, ra) = resolve_arms_rest(c1, arms, Seq::empty());
                    match ra {
                        Err(err) => (c2, Err(err)),
                        Ok(xs) => (c2, Ok(RExprV::Match(Box::new(xx), xs))),
                    }
                },
            }
        },
    }
}

/// Resolves the expressions `es` in order, after those in `acc`.
pub open spec fn resolve_exprs_rest<'a>(c: CtxV, es: Seq<EV<'a>>, acc: Seq<RExprV<'a>>) -> (CtxV, Result<Seq<RExprV<'a>>, ResolveError<'a>>)
    decreases es,
{
    if es.len() == 0 {
        (c, Ok(acc))
    } else {
        let (c1, r) = resolve_expr_s(c, es[0]);
        match r {
            Err(err) => (c1, Err(err)),
            Ok(x) => resolve_exprs_rest(c1, es.drop_first(), acc.push(x)),
        }
    }
}

/// Declares the pattern variables `bs` in order, after those in `acc`.
pub open spec fn bind_pattern_rest<'a>(c: CtxV, bs: Seq<Spanned<ArmBindingV<'a>>>, acc: Seq<ValueId>) -> (CtxV, Result<Seq<ValueId>, ResolveError<'a>>)
    decreases bs.len(),
{
    if bs.len() == 0 {
        (c, Ok(acc))
    } else {
        let (c1, r) = add_value_v(c, bs[0].node.id);
        match r {
            Err(err) => (c1, Err(err)),
            Ok(id) => bind_pattern_rest(c1, bs.drop_first(), acc.push(id)),
        }
    }
}

/// Resolves the match arms `arms` in order, after those in `acc`: the
/// constructor must be bound to a value; the pattern variables and the body
/// live in a scope of their own.
pub open spec fn resolve_arms_rest<'a>(c: CtxV, arms: Seq<ArmV<'a, ()>>, acc: Seq<RArmV<'a>>) -> (CtxV, Result<Seq<RArmV<'a>>, ResolveError<'a>>)
    decreases arms,
{
    if arms.len() == 0 {
        (c, Ok(acc))
    } else {
        let arm = arms[0];
        match lookup_value_v(c, arm.ctor@) {
            None => (c, Err(ResolveError::UnknownVariant(arm.ctor))),
            Some(ctor) => {
                let (c1, rb) = bind_pattern_rest(push_scope_v(c), arm.bindings, Seq::empty());
                match rb {
                    Err(err) => (pop_scope_v(c1), Err(err)),
                    Ok(ids) => {
                        let (c2, rbody) = resolve_expr_s(c1, arm.body);
                        match rbody {
                            Err(err) => (pop_scope_v(c2), Err(err)),
                            Ok(body) => resolve_arms_rest(
                                pop_scope_v(c2),
                                arms.drop_first(),
                                acc.push(RArmV { ctor, bindings: ids, body }),
                            ),
                        }
                    },
                }
            },
        }
    }
}

/// Declares the pattern variables of a match arm, in order.
fn bind_pattern<'a>(ctx: &mut ResolverCtx<'a>, bindings: &Vec<SpannedArmBinding<'a>>) -> (r: Result<Vec<ValueId>, ResolveError<'a>>)
    ensures
        (final(ctx)@, match r {
            Ok(ids) => Ok(ids@),
            Err(e) => Err(e),
        }) == bind_pattern_rest(old(ctx)@, view_arm_bindings(bindings@), Seq::empty()),
{
    let ghost all = view_arm_bindings(bindings@);
    let mut ids: Vec<ValueId> = Vec::new();
    let mut i: usize = 0;
    assert(all.skip(0) =~= all);
    while i < bindings.len()
        invariant
            i <= bindings@.len(),
            all == view_arm_bindings(bindings@),
            bind_pattern_rest(old(ctx)@, all, Seq::empty()) == bind_pattern_rest(
                ctx@,
                all.skip(i as int),
                ids@,
            ),
        decreases bindings@.len() - i,
    {
        assert(all.skip(i as int).drop_first() =~= all.skip(i + 1));
        match ctx.try_add_value(bindings[i].node.id) {
            Ok(id) => {
                ids.push(id);
            },
            Err(e) => {
                return Err(e);
            },
        }
        i = i + 1;
    }
    Ok(ids)
}

/// Resolves an expression: every name must be bound to a value (else
/// `UnboundValue`); a closure's parameter and a match arm's pattern
/// variables are declared in a scope of their own that is closed again
/// afterwards, also when resolution fails inside it.
#[verifier::loop_isolation(false)]
#[verifier::rlimit(80)]
#[verifier::spinoff_prover]
pub fn try_resolve_expr<'a>(ctx: &mut ResolverCtx<'a>, expr: ParsedExpr<'a>) -> (r: Result<ResolvedExpr<'a>, ResolveError<'a>>)
    ensures
        (final(ctx)@, view_rexpr_result(r)) == resolve_expr_s(old(ctx)@, view_expr(expr)),
    decreases expr,
{
    let (op, l, r) = match expr.node.kind {
        ExprKind::Int(v) => {
            return Ok(ResolvedExpr::Int(v));
        },
        ExprKind::Float(v) => {
            return Ok(ResolvedExpr::Float(v));
        },
        ExprKind::Bool(v) => {
            return Ok(ResolvedExpr::Bool(v));
        },
        ExprKind::Id(name) => {
            return match ctx.lookup_value(name) {
                Some(id) => Ok(ResolvedExpr::Id(id)),
                None => Err(ResolveError::UnboundValue(name)),
            };
        },
        ExprKind::Fn(param, body) => {
            ctx.push_scope();
            let binding = match try_add_binding(ctx, param) {
                Ok(b) => b,
                Err(e) => {
                    ctx.pop_scope();
                    return Err(e);
                },
            };
            let body = match try_resolve_expr(ctx, *body) {
                Ok(x) => x,
                Err(e) => {
                    ctx.pop_scope();
                    return Err(e);
                },
            };
            ctx.pop_scope();
            return Ok(ResolvedExpr::Fn(binding, Box::new(body)));
        },
        ExprKind::Neg(x) => {
            return match try_resolve_expr(ctx, *x) {
                Ok(x) => Ok(make_unop(crate::ast::UnOp::Neg, x)),
                Err(e) => Err(e),
            };
        },
        ExprKind::FNeg(x) => {
            return match try_resolve_expr(ctx, *x) {
                Ok(x) => Ok(make_unop(crate::ast::UnOp::FNeg, x)),
                Err(e) => Err(e),
            };
        },
        ExprKind::Bang(x) => {
            return match try_resolve_expr(ctx, *x) {
                Ok(x) => Ok(make_unop(crate::ast::UnOp::Bang, x)),
                Err(e) => Err(e),
            };
        },
        ExprKind::Call(f, args) => {
            let f = match try_resolve_expr(ctx, *f) {
                Ok(x) => x,
                Err(e) => {
                    return Err(e);
                },
            };
            let ghost c1 = ctx@;
            let ghost all_vec = args;
            let ghost all = args@;
            let mut rest = args;
            let mut out: Vec<ResolvedExpr<'a>> = Vec::new();
            let ghost mut k: int = 0;
            assert(all.skip(0) =~= all);
            while rest.len() > 0
                invariant
                    0 <= k <= all.len(),
                    rest@ == all.skip(k),
                    all == all_vec@,
                    resolve_exprs_rest(c1, view_exprs(all), Seq::empty()) == resolve_exprs_rest(
                        ctx@,
                        view_exprs(rest@),
                        view_rexprs(out@),
                    ),
                decreases rest@.len(),
            {
                let ghost before = rest@;
                let arg = rest.remove(0);
                assert(arg == all[k]);
                proof {
                    assert(decreases_to!(all_vec => all));
                    assert(decreases_to!(all => all[k]));
                }
                assert(rest@ =~= all.skip(k + 1));
                assert(view_exprs(before).drop_first() == view_exprs(rest@)) by {
                    assert(before.drop_first() =~= rest@);
                }
                match try_resolve_expr(ctx, arg) {
                    Ok(x) => {
                        proof {
                            lemma_view_rexprs_push(out@, x);
                        }
                        out.push(x);
                    },
                    Err(e) => {
                        return Err(e);
                    },
                }
                proof {
                    k = k + 1;
                }
            }
            assert(view_exprs(rest@) =~= Seq::<EV<'a>>::empty());
            return Ok(ResolvedExpr::Call(Box::new(f), out));
        },
        ExprKind::If(a, b, d) => {
            let a = match try_resolve_expr(ctx, *a) {
                Ok(x) => x,
                Err(e) => {
                    return Err(e);
                },
            };
            let b = match try_resolve_expr(ctx, *b) {
                Ok(x) => x,
                Err(e) => {
                    return Err(e);
                },
            };
            let d = match try_resolve_expr(ctx, *d) {
                Ok(x) => x,
                Err(e) => {
                    return Err(e);
                },
            };
            return Ok(ResolvedExpr::If(Box::new(a), Box::new(b), Box::new(d)));
        },
        ExprKind::Match(x, arms) => {
            let x = match try_resolve_expr(ctx, *x) {
                Ok(x) => x,
                Err(e) => {
                    return Err(e);
                },
            };
            let ghost c1 = ctx@;
            let ghost all_vec = arms;
            let ghost all = arms@;
            let mut rest = arms;
            let mut out: Vec<ResolvedMatchArm<'a>> = Vec::new();
            let ghost mut k: int = 0;
            assert(all.skip(0) =~= all);
            while rest.len() > 0
                invariant
                    0 <= k <= all.len(),
                    rest@ == all.skip(k),
                    all == all_vec@,
                    resolve_arms_rest(c1, view_arms(all), Seq::empty()) == resolve_arms_rest(
                        ctx@,
                        view_arms(rest@),
                        view_rarms(out@),
                    ),
                decreases rest@.len(),
            {
                let ghost before = rest@;
                let arm = rest.remove(0);
                assert(arm == all[k]);
                proof {
                    assert(decreases_to!(all_vec => all));
                    assert(decreases_to!(all => all[k]));
                    assert(decreases_to!(all[k] => all[k].2));
                }
                assert(rest@ =~= all.skip(k + 1));
                assert(view_arms(before).drop_first() == view_arms(rest@)) by {
                    assert(before.drop_first() =~= rest@);
                }
                let (ctor_name, bindings, body) = arm;
                let ctor = match ctx.lookup_value(ctor_name) {
                    Some(v) => v,
                    None => {
                        return Err(ResolveError::UnknownVariant(ctor_name));
                    },
                };
                ctx.push_scope();
                let ids = match bind_pattern(ctx, &bindings) {
                    Ok(ids) => ids,
                    Err(e) => {
                        ctx.pop_scope();
                        return Err(e);
                    },
                };
                let body = match try_resolve_expr(ctx, body) {
                    Ok(b) => b,
                    Err(e) => {
                        ctx.pop_scope();
                        return Err(e);
                    },
                };
                ctx.pop_scope();
                let resolved = ResolvedMatchArm::new(ctor, ids, body);
                proof {
                    lemma_view_rarms_push(out@, resolved);
                }
                out.push(resolved);
                proof {
                    k = k + 1;
                }
            }
            assert(view_arms(rest@) =~= Seq::<ArmV<'a, ()>>::empty());
            return Ok(ResolvedExpr::Match(Box::new(x), out));
        },
        ExprKind::Plus(l, r) => (BinOp::Plus, l, r),
        ExprKind::Minus(l, r) => (BinOp::Minus, l, r),
        ExprKind::Mult(l, r) => (BinOp::Mult, l, r),
        ExprKind::Div(l, r) => (BinOp::Div, l, r),
        ExprKind::FPlus(l, r) => (BinOp::FPlus, l, r),
        ExprKind::FMinus(l, r) => (BinOp::FMinus, l, r),
        ExprKind::FMult(l, r) => (BinOp::FMult, l, r),
        ExprKind::FDiv(l, r) => (BinOp::FDiv, l, r),
        ExprKind::Pipe(l, r) => (BinOp::Pipe, l, r),
        ExprKind::Less(l, r) => (BinOp::Less, l, r),
        ExprKind::LessEq(l, r) => (BinOp::LessEq, l, r),
        ExprKind::Greater(l, r) => (BinOp::Greater, l, r),
        ExprKind::GreaterEq(l, r) => (BinOp::GreaterEq, l, r),
        ExprKind::FLess(l, r) => (BinOp::FLess, l, r),
        ExprKind::FLessEq(l, r) => (BinOp::FLessEq, l, r),
        ExprKind::FGreater(l, r) => (BinOp::FGreater, l, r),
        ExprKind::FGreaterEq(l, r) => (BinOp::FGreaterEq, l, r),
        ExprKind::Eq(l, r) => (BinOp::Eq, l, r),
        ExprKind::NotEq(l, r) => (BinOp::NotEq, l, r),
        ExprKind::Or(l, r) => (BinOp::Or, l, r),
        ExprKind::And(l, r) => (BinOp::And, l, r),
    };
    let l = match try_resolve_expr(ctx, *l) {
        Ok(x) => x,
        Err(e) => {
            return Err(e);
        },
    };
    let r = match try_resolve_expr(ctx, *r) {
        Ok(x) => x,
        Err(e) => {
            return Err(e);
        },
    };
    Ok(make_binop(op, l, r))
}


proof fn lemma_bind_pattern_inner<'a>(c: CtxV, bs: Seq<Spanned<ArmBindingV<'a>>>, acc: Seq<ValueId>)
    ensures
        inner_change(c, bind_pattern_rest(c, bs, acc).0),
    decreases bs.len(),
{
    if bs.len() > 0 {
        lemma_declare_inner(c, bs[0].node.id);
        let (c1, r) = add_value_v(c, bs[0].node.id);
        if r is Ok {
            lemma_bind_pattern_inner(c1, bs.drop_first(), acc.push(r->Ok_0));
        }
    }
}

/// Resolving an expression declares nothing that outlives it: a closure's
/// parameter and a match arm's pattern variables go out of scope with the
/// closure and the arm, also when resolution fails inside them. Only the
/// counters of identifiers move, and only upwards.
pub proof fn lemma_resolve_expr_keeps_scopes<'a>(c: CtxV, e: EV<'a>)
    ensures
        same_scopes(c, resolve_expr_s(c, e).0),
    decreases e,
{
    match e.node.kind {
        ExprKindV::Fn(b, body) => {
            let c0 = push_scope_v(c);
            lemma_add_binding_inner(c0, b);
            let (c1, rb) = add_binding_s(c0, b);
            assert(c0.scopes.drop_last() =~= c.scopes);
            if rb is Ok {
                lemma_resolve_expr_keeps_scopes(c1, *body);
            }
        },
        ExprKindV::Unary(_, x) => {
            lemma_resolve_expr_keeps_scopes(c, *x);
        },
        ExprKindV::Call(f, args) => {
            lemma_resolve_expr_keeps_scopes(c, *f);
            let (c1, rf) = resolve_expr_s(c, *f);
            if rf is Ok {
                lemma_resolve_exprs_keeps_scopes(c1, args, Seq::empty());
            }
        },
        ExprKindV::Binary(_, l, r) => {
            lemma_resolve_expr_keeps_scopes(c, *l);
            let (c1, rl) = resolve_expr_s(c, *l);
            if rl is Ok {
                lemma_resolve_expr_keeps_scopes(c1, *r);
            }
        },
        ExprKindV::If(a, b, d) => {
            lemma_resolve_expr_keeps_scopes(c, *a);
            let (c1, ra) = resolve_expr_s(c, *a);
            if ra is Ok {
                lemma_resolve_expr_keeps_scopes(c1, *b);
                let (c2, rb) = resolve_expr_s(c1, *b);
                if rb is Ok {
                    lemma_resolve_expr_keeps_scopes(c2, *d);
                }
            }
        },
        ExprKindV::Match(x, arms) => {
            lemma_resolve_expr_keeps_scopes(c, *x);
            let (c1, rx) = resolve_expr_s(c, *x);
            if rx is Ok {
                lemma_resolve_arms_keeps_scopes(c1, arms, Seq::empty());
            }
        },
        _ => {},
    }
}

proof fn lemma_resolve_exprs_keeps_scopes<'a>(c: CtxV, es: Seq<EV<'a>>, acc: Seq<RExprV<'a>>)
    ensures
        same_scopes(c, resolve_exprs_rest(c, es, acc).0),
    decreases es,
{
    if es.len() > 0 {
        lemma_resolve_expr_keeps_scopes(c, es[0]);
        let (c1, r) = resolve_expr_s(c, es[0]);
        if r is Ok {
            lemma_resolve_exprs_keeps_scopes(c1, es.drop_first(), acc.push(r->Ok_0));
        }
    }
}

proof fn lemma_resolve_arms_keeps_scopes<'a>(c: CtxV, arms: Seq<ArmV<'a, ()>>, acc: Seq<RArmV<'a>>)
    ensures
        same_scopes(c, resolve_arms_rest(c, arms, acc).0),
    decreases arms,
{
    if arms.len() > 0 {
        let arm = arms[0];
        if let Some(ctor) = lookup_value_v(c, arm.ctor@) {
            let c0 = push_scope_v(c);
            assert(c0.scopes.drop_last() =~= c.scopes);
            lemma_bind_pattern_inner(c0, arm.bindings, Seq::empty());
            let (c1, rb) = bind_pattern_rest(c0, arm.bindings, Seq::empty());
            if rb is Ok {
                lemma_resolve_expr_keeps_scopes(c1, arm.body);
                let (c2, rbody) = resolve_expr_s(c1, arm.body);
                if rbody is Ok {
                    lemma_resolve_arms_keeps_scopes(
                        pop_scope_v(c2),
                        arms.drop_first(),
                        acc.push(RArmV { ctor, bindings: rb->Ok_0, body: rbody->Ok_0 }),
                    );
                }
            }
        }
    }
}

/// Resolves an expression that resolves without error; `try_resolve_expr`
/// also takes those that do not, and reports why.
pub fn resolve_expr<'a>(ctx: &mut ResolverCtx<'a>, expr: ParsedExpr<'a>) -> (r: ResolvedExpr<'a>)
    requires
        resolve_expr_s(old(ctx)@, view_expr(expr)).1 is Ok,
    ensures
        (final(ctx)@, view_rexpr_result(Ok(r))) == resolve_expr_s(old(ctx)@, view_expr(expr)),
{
    try_resolve_expr(ctx, expr).unwrap()
}

} // verus!
