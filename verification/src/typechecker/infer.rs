//! Monomorphic type inference of expressions: each expression gets a type
//! from its operands, bottom-up, and a mismatch is reported with the type
//! that was expected, the type found, and where.
use vstd::prelude::*;

use crate::ast::{view_expr, ArmV, BinOp, Expr, ExprKind, ExprKindV, ExprV, ParsedExpr, UnOp};
use crate::grammar::EV;
use crate::spanned::Spanned;
use crate::typechecker::context::bindings_find;
use crate::typechecker::types::{
    env_bindings, view_terr, view_tv, view_typed, Env, TypeError, TypeErrorV, TypeResult,
    TypeValue, TypeValueV, TypedExpr, TEV,
};

verus! {

pub open spec fn tnode<'a>(offset: usize, ann: TypeValueV, kind: ExprKindV<'a, TypeValueV>) -> TEV<'a> {
    Spanned { offset, node: ExprV { ann, kind } }
}

pub open spec fn terr(expected: TypeValueV, actual: TypeValueV, offset: usize) -> TypeErrorV {
    TypeErrorV { expected, actual, offset }
}

pub open spec fn is_int_arith(op: BinOp) -> bool {
    op == BinOp::Plus || op == BinOp::Minus || op == BinOp::Mult || op == BinOp::Div
}

pub open spec fn is_float_arith(op: BinOp) -> bool {
    op == BinOp::FPlus || op == BinOp::FMinus || op == BinOp::FMult || op == BinOp::FDiv
}

pub open spec fn is_float_cmp(op: BinOp) -> bool {
    op == BinOp::FLess || op == BinOp::FLessEq || op == BinOp::FGreater || op == BinOp::FGreaterEq
}

pub open spec fn is_bool_op(op: BinOp) -> bool {
    op == BinOp::Or || op == BinOp::And
}

/// Operators whose operands must each have one given type, checked left then
/// right: the float operators and the boolean connectives.
pub open spec fn is_checked_op(op: BinOp) -> bool {
    is_float_arith(op) || is_float_cmp(op) || is_bool_op(op)
}

/// The operand type of a checked operator.
pub open spec fn operand_type(op: BinOp) -> TypeValueV {
    if is_bool_op(op) {
        TypeValueV::Bool
    } else {
        TypeValueV::Float
    }
}

/// The result type of a checked operator.
pub open spec fn result_type(op: BinOp) -> TypeValueV {
    if is_float_arith(op) {
        TypeValueV::Float
    } else {
        TypeValueV::Bool
    }
}

/// Infers the type of an expression in an environment whose names have the
/// types `env` (latest last).
///
/// - Literals have their own type; a name has the type the environment gives
///   it (an unbound name is an error between two unknown types).
/// - `-` takes `Int` or `Float`, `-.` takes `Float`, `!` takes `Bool`.
/// - `+ - * /` take two `Int`s or two `Float`s and give the same type; `<
///   <= > >= == !=` take two `Int`s or two `Float`s and give `Bool`; on other
///   operands the error expects the left type and finds the right one.
/// - `+. -. *. /.` and `<. <=. >. >=.` take `Float`s, `||` and `&&` take
///   `Bool`s: the left operand is checked before the right one is inferred.
/// - `if` needs a `Bool` condition and two branches of one type.
///
/// `at_operand` says where a prefix operation (`-`, `-.`, `!`) stands: at
/// its own offset (inference), or at its operand's (checking); a failed `-`
/// or `-.` is reported there too.
pub open spec fn infer_with<'a>(env: Seq<(Seq<char>, TypeValueV)>, e: EV<'a>, at_operand: bool) -> Result<TEV<'a>, TypeErrorV>
    decreases e,
{
    let off = e.offset;
    match e.node.kind {
        ExprKindV::Int(v) => Ok(tnode(off, TypeValueV::Int, ExprKindV::Int(v))),
        ExprKindV::Float(v) => Ok(tnode(off, TypeValueV::Float, ExprKindV::Float(v))),
        ExprKindV::Bool(v) => Ok(tnode(off, TypeValueV::Bool, ExprKindV::Bool(v))),
        ExprKindV::Id(x) => match bindings_find(env, x@) {
            Some(t) => Ok(tnode(off, t, ExprKindV::Id(x))),
            None => Err(terr(TypeValueV::Var(0), TypeValueV::Var(0), off)),
        },
        ExprKindV::Unary(op, x) => match infer_with(env, *x, at_operand) {
            Err(err) => Err(err),
            Ok(tx) => {
                let t = tx.node.ann;
                let at = if at_operand { tx.offset } else { off };
                match op {
                    UnOp::Neg => if t == TypeValueV::Int || t == TypeValueV::Float {
                        Ok(tnode(at, t, ExprKindV::Unary(op, Box::new(tx))))
                    } else {
                        Err(terr(TypeValueV::Int, t, at))
                    },
                    UnOp::FNeg => if t == TypeValueV::Float {
                        Ok(tnode(at, TypeValueV::Float, ExprKindV::Unary(op, Box::new(tx))))
                    } else {
                        Err(terr(TypeValueV::Float, t, at))
                    },
                    UnOp::Bang => if t == TypeValueV::Bool {
                        Ok(tnode(at, TypeValueV::Bool, ExprKindV::Unary(op, Box::new(tx))))
                    } else {
                        Err(terr(TypeValueV::Bool, t, tx.offset))
                    },
                }
            },
        },
        ExprKindV::Binary(op, l, r) => if is_checked_op(op) {
            match infer_with(env, *l, at_operand) {
                Err(err) => Err(err),
                Ok(tl) => if tl.node.ann != operand_type(op) {
                    Err(terr(operand_type(op), tl.node.ann, tl.offset))
                } else {
                    match infer_with(env, *r, at_operand) {
                        Err(err) => Err(err),
                        Ok(tr) => if tr.node.ann != operand_type(op) {
                            Err(terr(operand_type(op), tr.node.ann, tr.offset))
                        } else {
                            Ok(tnode(off, result_type(op), ExprKindV::Binary(op, Box::new(tl), Box::new(tr))))
                        },
                    }
                },
            }
        } else {
            match infer_with(env, *l, at_operand) {
                Err(err) => Err(err),
                Ok(tl) => match infer_with(env, *r, at_operand) {
                    Err(err) => Err(err),
                    Ok(tr) => {
                        let lt = tl.node.ann;
                        let rt = tr.node.ann;
                        if !((lt == TypeValueV::Int && rt == TypeValueV::Int) || (lt == TypeValueV::Float
                            && rt == TypeValueV::Float)) {
                            Err(terr(lt, rt, tr.offset))
                        } else if is_int_arith(op) {
                            Ok(tnode(off, lt, ExprKindV::Binary(op, Box::new(tl), Box::new(tr))))
                        } else {
                            Ok(tnode(off, TypeValueV::Bool, ExprKindV::Binary(op, Box::new(tl), Box::new(tr))))
                        }
                    },
                },
            }
        },
        ExprKindV::If(c, a, b) => match infer_with(env, *c, at_operand) {
            Err(err) => Err(err),
            Ok(tc) => if tc.node.ann != TypeValueV::Bool {
                Err(terr(TypeValueV::Bool, tc.node.ann, tc.offset))
            } else {
                match infer_with(env, *a, at_operand) {
                    Err(err) => Err(err),
                    Ok(ta) => match infer_with(env, *b, at_operand) {
                        Err(err) => Err(err),
                        Ok(tb) => if ta.node.ann != tb.node.ann {
                            Err(terr(ta.node.ann, tb.node.ann, tb.offset))
                        } else {
                            Ok(tnode(off, ta.node.ann, ExprKindV::If(Box::new(tc), Box::new(ta), Box::new(tb))))
                        },
                    },
                }
            },
        },
        _ => Err(terr(TypeValueV::Var(0), TypeValueV::Var(0), off)),
    }
}

/// Inference: a prefix operation stands at its own offset.
pub open spec fn infer_s<'a>(env: Seq<(Seq<char>, TypeValueV)>, e: EV<'a>) -> Result<TEV<'a>, TypeErrorV> {
    infer_with(env, e, false)
}

/// Checking: a prefix operation stands at its operand's offset.
pub open spec fn typecheck_s<'a>(env: Seq<(Seq<char>, TypeValueV)>, e: EV<'a>) -> Result<TEV<'a>, TypeErrorV> {
    infer_with(env, e, true)
}

/// Whether inference, visiting the sub-expressions in its own order and
/// stopping at the first error, comes to a form it has no rule for: a
/// closure, a call, a pipe or a match.
pub open spec fn reaches_unsupported<'a>(env: Seq<(Seq<char>, TypeValueV)>, e: EV<'a>, at_operand: bool) -> bool
    decreases e,
{
    match e.node.kind {
        ExprKindV::Int(_) => false,
        ExprKindV::Float(_) => false,
        ExprKindV::Bool(_) => false,
        ExprKindV::Id(_) => false,
        ExprKindV::Unary(_, x) => reaches_unsupported(env, *x, at_operand),
        ExprKindV::Binary(op, l, r) => if op == BinOp::Pipe {
            true
        } else {
            reaches_unsupported(env, *l, at_operand) || (match infer_with(env, *l, at_operand) {
                Ok(tl) => (!is_checked_op(op) || tl.node.ann == operand_type(op))
                    && reaches_unsupported(env, *r, at_operand),
                Err(_) => false,
            })
        },
        ExprKindV::If(c, a, b) => reaches_unsupported(env, *c, at_operand) || (match infer_with(env, *c, at_operand) {
            Ok(tc) => tc.node.ann == TypeValueV::Bool && (reaches_unsupported(env, *a, at_operand) || (
            match infer_with(env, *a, at_operand) {
                Ok(_) => reaches_unsupported(env, *b, at_operand),
                Err(_) => false,
            })),
            Err(_) => false,
        }),
        _ => true,
    }
}

/// The result of inference, as a model.
pub open spec fn view_infer_result<'a>(r: TypeResult<TypedExpr<'a>>) -> Result<TEV<'a>, TypeErrorV> {
    match r {
        Ok(t) => Ok(view_typed(t)),
        Err(e) => Err(view_terr(e)),
    }
}

fn mk_typed<'a>(offset: usize, ann: TypeValue, kind: ExprKind<'a, TypeValue>) -> (r: TypedExpr<'a>)
    ensures
        r == (Spanned { offset, node: Expr { ann, kind } }),
{
    Spanned { offset, node: Expr { ann, kind } }
}

fn mk_binop<'a>(offset: usize, ann: TypeValue, op: BinOp, l: TypedExpr<'a>, r: TypedExpr<'a>) -> (e: TypedExpr<'a>)
    ensures
        view_typed(e) == tnode(
            offset,
            view_tv(ann),
            ExprKindV::Binary(op, Box::new(view_typed(l)), Box::new(view_typed(r))),
        ),
{
    let (l, r) = (Box::new(l), Box::new(r));
    let kind = match op {
        BinOp::Plus => ExprKind::Plus(l, r),
        BinOp::Minus => ExprKind::Minus(l, r),
        BinOp::Mult => ExprKind::Mult(l, r),
        BinOp::Div => ExprKind::Div(l, r),
        BinOp::FPlus => ExprKind::FPlus(l, r),
        BinOp::FMinus => ExprKind::FMinus(l, r),
        BinOp::FMult => ExprKind::FMult(l, r),
        BinOp::FDiv => ExprKind::FDiv(l, r),
        BinOp::Pipe => ExprKind::Pipe(l, r),
        BinOp::Less => ExprKind::Less(l, r),
        BinOp::LessEq => ExprKind::LessEq(l, r),
        BinOp::Greater => ExprKind::Greater(l, r),
        BinOp::GreaterEq => ExprKind::GreaterEq(l, r),
        BinOp::FLess => ExprKind::FLess(l, r),
        BinOp::FLessEq => ExprKind::FLessEq(l, r),
        BinOp::FGreater => ExprKind::FGreater(l, r),
        BinOp::FGreaterEq => ExprKind::FGreaterEq(l, r),
        BinOp::Eq => ExprKind::Eq(l, r),
        BinOp::NotEq => ExprKind::NotEq(l, r),
        BinOp::Or => ExprKind::Or(l, r),
        BinOp::And => ExprKind::And(l, r),
    };
    mk_typed(offset, ann, kind)
}

fn mk_unop<'a>(offset: usize, ann: TypeValue, op: UnOp, x: TypedExpr<'a>) -> (e: TypedExpr<'a>)
    ensures
        view_typed(e) == tnode(offset, view_tv(ann), ExprKindV::Unary(op, Box::new(view_typed(x)))),
{
    let x = Box::new(x);
    let kind = match op {
        UnOp::Neg => ExprKind::Neg(x),
        UnOp::FNeg => ExprKind::FNeg(x),
        UnOp::Bang => ExprKind::Bang(x),
    };
    mk_typed(offset, ann, kind)
}

fn is_checked(op: BinOp) -> (r: bool)
    ensures
        r == is_checked_op(op),
{
    match op {
        BinOp::FPlus | BinOp::FMinus | BinOp::FMult | BinOp::FDiv => true,
        BinOp::FLess | BinOp::FLessEq | BinOp::FGreater | BinOp::FGreaterEq => true,
        BinOp::Or | BinOp::And => true,
        _ => false,
    }
}

fn operand_of(op: BinOp) -> (r: TypeValue)
    ensures
        view_tv(r) == operand_type(op),
{
    match op {
        BinOp::Or | BinOp::And => TypeValue::Bool,
        _ => TypeValue::Float,
    }
}

fn result_of(op: BinOp) -> (r: TypeValue)
    ensures
        view_tv(r) == result_type(op),
{
    match op {
        BinOp::FPlus | BinOp::FMinus | BinOp::FMult | BinOp::FDiv => TypeValue::Float,
        _ => TypeValue::Bool,
    }
}

/// Infers the type of an expression; see `infer_s`.
pub fn infer<'a>(expr: ParsedExpr<'a>, env: &Env) -> (r: TypeResult<TypedExpr<'a>>)
    requires
        !reaches_unsupported(env_bindings(*env), view_expr(expr), false),
    ensures
        view_infer_result(r) == infer_s(env_bindings(*env), view_expr(expr)),
{
    infer_with_mode(expr, env, false)
}

/// Infers the type of an expression; see `infer_with`.
#[verifier::rlimit(60)]
pub(crate) fn infer_with_mode<'a>(expr: ParsedExpr<'a>, env: &Env, at_operand: bool) -> (r: TypeResult<TypedExpr<'a>>)
    requires
        !reaches_unsupported(env_bindings(*env), view_expr(expr), at_operand),
    ensures
        view_infer_result(r) == infer_with(env_bindings(*env), view_expr(expr), at_operand),
    decreases expr, 0int,
{
    let loc = expr.offset;
    let (op, l, r) = match expr.node.kind {
        ExprKind::Int(v) => {
            return Ok(mk_typed(loc, TypeValue::Int, ExprKind::Int(v)));
        },
        ExprKind::Float(v) => {
            return Ok(mk_typed(loc, TypeValue::Float, ExprKind::Float(v)));
        },
        ExprKind::Bool(v) => {
            return Ok(mk_typed(loc, TypeValue::Bool, ExprKind::Bool(v)));
        },
        ExprKind::Id(x) => {
            return match env.lookup(x) {
                Some(t) => Ok(mk_typed(loc, t, ExprKind::Id(x))),
                None => Err(TypeError { expected: TypeValue::Var(0), actual: TypeValue::Var(0), offset: loc }),
            };
        },
        ExprKind::Neg(x) => {
            return infer_unop(loc, *x, UnOp::Neg, env, at_operand);
        },
        ExprKind::FNeg(x) => {
            return infer_unop(loc, *x, UnOp::FNeg, env, at_operand);
        },
        ExprKind::Bang(x) => {
            return infer_unop(loc, *x, UnOp::Bang, env, at_operand);
        },
        ExprKind::If(c, a, b) => {
            let tc = match infer_with_mode(*c, env, at_operand) {
                Ok(t) => t,
                Err(e) => {
                    return Err(e);
                },
            };
            if !tc.node.ann.same(&TypeValue::Bool) {
                return Err(TypeError { expected: TypeValue::Bool, actual: tc.ty(), offset: tc.offset });
            }
            let ta = match infer_with_mode(*a, env, at_operand) {
                Ok(t) => t,
                Err(e) => {
                    return Err(e);
                },
            };
            let tb = match infer_with_mode(*b, env, at_operand) {
                Ok(t) => t,
                Err(e) => {
                    return Err(e);
                },
            };
            if !ta.node.ann.same(&tb.node.ann) {
                return Err(TypeError { expected: ta.ty(), actual: tb.ty(), offset: tb.offset });
            }
            let t = ta.ty();
            return Ok(mk_typed(loc, t, ExprKind::If(Box::new(tc), Box::new(ta), Box::new(tb))));
        },
        ExprKind::Plus(l, r) => (BinOp::Plus, l, r),
        ExprKind::Minus(l, r) => (BinOp::Minus, l, r),
        ExprKind::Mult(l, r) => (BinOp::Mult, l, r),
        ExprKind::Div(l, r) => (BinOp::Div, l, r),
        ExprKind::FPlus(l, r) => (BinOp::FPlus, l, r),
        ExprKind::FMinus(l, r) => (BinOp::FMinus, l, r),
        ExprKind::FMult(l, r) => (BinOp::FMult, l, r),
        ExprKind::FDiv(l, r) => (BinOp::FDiv, l, r),
        ExprKind::Less(l, r) => (BinOp::Less, l, r),
        ExprKind::LessEq(l, r) => (BinOp::LessEq, l, r),
        ExprKind::Greater(l, r) => (BinOp::Greater, l, r),
        ExprKind::GreaterEq(l, r) => (BinOp::GreaterEq, l, r),
        ExprKind::FLess(l, r) => (BinOp::FLess, l, r),
        ExprKind::FLessEq(l, r) => (BinOp::FLessEq, l, r),
        ExprKind::FGreater(l, r) => (BinOp::FGreater, l, r),
        ExprKind::FGreaterEq(l, r) => (BinOp::FGreaterEq, l, r),
        ExprKind::Eq(l, r) => (BinOp::Eq, l, r),
        ExprKind::NotEq(l, r) => (BinOp::NotEq, l, r),
        ExprKind::Or(l, r) => (BinOp::Or, l, r),
        ExprKind::And(l, r) => (BinOp::And, l, r),
        ExprKind::Fn(_, _) | ExprKind::Call(_, _) | ExprKind::Pipe(_, _) | ExprKind::Match(_, _) => {
            return Err(TypeError { expected: TypeValue::Var(0), actual: TypeValue::Var(0), offset: loc });
        },
    };
    if is_checked(op) {
        let want = operand_of(op);
        let tl = match infer_with_mode(*l, env, at_operand) {
            Ok(t) => t,
            Err(e) => {
                return Err(e);
            },
        };
        if !tl.node.ann.same(&want) {
            return Err(TypeError { expected: want, actual: tl.ty(), offset: tl.offset });
        }
        let tr = match infer_with_mode(*r, env, at_operand) {
            Ok(t) => t,
            Err(e) => {
                return Err(e);
            },
        };
        if !tr.node.ann.same(&want) {
            return Err(TypeError { expected: want, actual: tr.ty(), offset: tr.offset });
        }
        Ok(mk_binop(loc, result_of(op), op, tl, tr))
    } else {
        let tl = match infer_with_mode(*l, env, at_operand) {
            Ok(t) => t,
            Err(e) => {
                return Err(e);
            },
        };
        let tr = match infer_with_mode(*r, env, at_operand) {
            Ok(t) => t,
            Err(e) => {
                return Err(e);
            },
        };
        let both_int = tl.node.ann.same(&TypeValue::Int) && tr.node.ann.same(&TypeValue::Int);
        let both_float = tl.node.ann.same(&TypeValue::Float) && tr.node.ann.same(&TypeValue::Float);
        if !(both_int || both_float) {
            return Err(TypeError { expected: tl.ty(), actual: tr.ty(), offset: tr.offset });
        }
        let out = match op {
            BinOp::Plus | BinOp::Minus | BinOp::Mult | BinOp::Div => tl.ty(),
            _ => TypeValue::Bool,
        };
        Ok(mk_binop(loc, out, op, tl, tr))
    }
}

/// Infers the type of a unary operation written at `offset`.
fn infer_unop<'a>(offset: usize, x: ParsedExpr<'a>, op: UnOp, env: &Env, at_operand: bool) -> (r: TypeResult<TypedExpr<'a>>)
    requires
        !reaches_unsupported(env_bindings(*env), view_expr(x), at_operand),
    ensures
        view_infer_result(r) == infer_with(
            env_bindings(*env),
            Spanned { offset, node: ExprV { ann: (), kind: ExprKindV::Unary(op, Box::new(view_expr(x))) } },
            at_operand,
        ),
    decreases x, 1int,
{
    let tx = match infer_with_mode(x, env, at_operand) {
        Ok(t) => t,
        Err(e) => {
            return Err(e);
        },
    };
    let at = if at_operand { tx.offset } else { offset };
    match op {
        UnOp::Neg => {
            if tx.node.ann.same(&TypeValue::Int) || tx.node.ann.same(&TypeValue::Float) {
                let t = tx.ty();
                Ok(mk_unop(at, t, op, tx))
            } else {
                Err(TypeError { expected: TypeValue::Int, actual: tx.ty(), offset: at })
            }
        },
        UnOp::FNeg => {
            if tx.node.ann.same(&TypeValue::Float) {
                Ok(mk_unop(at, TypeValue::Float, op, tx))
            } else {
                Err(TypeError { expected: TypeValue::Float, actual: tx.ty(), offset: at })
            }
        },
        UnOp::Bang => {
            if tx.node.ann.same(&TypeValue::Bool) {
                Ok(mk_unop(at, TypeValue::Bool, op, tx))
            } else {
                Err(TypeError { expected: TypeValue::Bool, actual: tx.ty(), offset: tx.offset })
            }
        },
    }
}


/// The expression of the model with its annotations erased.
pub open spec fn erase<'a>(t: TEV<'a>) -> EV<'a>
    decreases t,
{
    let kind = match t.node.kind {
        ExprKindV::Int(v) => ExprKindV::Int(v),
        ExprKindV::Float(v) => ExprKindV::Float(v),
        ExprKindV::Bool(v) => ExprKindV::Bool(v),
        ExprKindV::Id(v) => ExprKindV::Id(v),
        ExprKindV::Fn(b, body) => ExprKindV::Fn(b, Box::new(erase(*body))),
        ExprKindV::Unary(op, x) => ExprKindV::Unary(op, Box::new(erase(*x))),
        ExprKindV::Call(g, args) => ExprKindV::Call(Box::new(erase(*g)), erase_all(args)),
        ExprKindV::Binary(op, l, r) => ExprKindV::Binary(op, Box::new(erase(*l)), Box::new(erase(*r))),
        ExprKindV::If(c, a, b) => ExprKindV::If(Box::new(erase(*c)), Box::new(erase(*a)), Box::new(erase(*b))),
        ExprKindV::Match(x, arms) => ExprKindV::Match(Box::new(erase(*x)), erase_arms(arms)),
    };
    Spanned { offset: t.offset, node: ExprV { ann: (), kind } }
}

pub open spec fn erase_all<'a>(es: Seq<TEV<'a>>) -> Seq<EV<'a>>
    decreases es,
{
    if es.len() == 0 {
        Seq::empty()
    } else {
        seq![erase(es[0])] + erase_all(es.drop_first())
    }
}

pub open spec fn erase_arms<'a>(arms: Seq<ArmV<'a, TypeValueV>>) -> Seq<ArmV<'a, ()>>
    decreases arms,
{
    if arms.len() == 0 {
        Seq::empty()
    } else {
        seq![ArmV { ctor: arms[0].ctor, bindings: arms[0].bindings, body: erase(arms[0].body) }]
            + erase_arms(arms.drop_first())
    }
}

/// Inference only annotates: erasing the types of a typed expression gives
/// back the expression that was checked.
pub proof fn lemma_infer_keeps_expression<'a>(env: Seq<(Seq<char>, TypeValueV)>, e: EV<'a>)
    ensures
        infer_s(env, e) matches Ok(t) ==> erase(t) == e,
    decreases e,
{
    match e.node.kind {
        ExprKindV::Unary(op, x) => {
            lemma_infer_keeps_expression(env, *x);
            if infer_s(env, e) is Ok {
                let t = infer_s(env, e)->Ok_0;
                let tx = infer_s(env, *x)->Ok_0;
                assert(t == tnode(e.offset, t.node.ann, ExprKindV::Unary(op, Box::new(tx))));
                assert(erase(tx) == *x);
                assert(erase(t) == Spanned {
                    offset: e.offset,
                    node: ExprV { ann: (), kind: ExprKindV::<'a, ()>::Unary(op, Box::new(*x)) },
                });
                assert(e.node.kind == ExprKindV::<'a, ()>::Unary(op, x));
                assert(e.node == ExprV { ann: e.node.ann, kind: e.node.kind });
                assert(e.node.ann == ());
                assert(e == Spanned {
                    offset: e.offset,
                    node: ExprV { ann: (), kind: ExprKindV::<'a, ()>::Unary(op, Box::new(*x)) },
                });
            }
        },
        ExprKindV::Binary(op, l, r) => {
            lemma_infer_keeps_expression(env, *l);
            lemma_infer_keeps_expression(env, *r);
        },
        ExprKindV::If(c, a, b) => {
            lemma_infer_keeps_expression(env, *c);
            lemma_infer_keeps_expression(env, *a);
            lemma_infer_keeps_expression(env, *b);
        },
        _ => {},
    }
}

/// The types inference gives: a literal its own type; `-` its operand's,
/// `Int` or `Float`; `-.` `Float`; `!` `Bool`; `+ - * /` the type both
/// operands share, `Int` or `Float`; `+. -. *. /.` `Float`; comparisons,
/// equalities, `&&` and `||` `Bool`; `if`, after a `Bool` condition, the
/// type of both branches.
pub proof fn lemma_infer_types<'a>(env: Seq<(Seq<char>, TypeValueV)>, e: EV<'a>)
    ensures
        match infer_s(env, e) {
            Ok(t) => match e.node.kind {
                ExprKindV::Int(_) => t.node.ann == TypeValueV::Int,
                ExprKindV::Float(_) => t.node.ann == TypeValueV::Float,
                ExprKindV::Bool(_) => t.node.ann == TypeValueV::Bool,
                ExprKindV::Unary(op, x) => match infer_s(env, *x) {
                    Ok(tx) => match op {
                        UnOp::Neg => t.node.ann == tx.node.ann && (tx.node.ann == TypeValueV::Int
                            || tx.node.ann == TypeValueV::Float),
                        UnOp::FNeg => t.node.ann == TypeValueV::Float && tx.node.ann == TypeValueV::Float,
                        UnOp::Bang => t.node.ann == TypeValueV::Bool && tx.node.ann == TypeValueV::Bool,
                    },
                    Err(_) => false,
                },
                ExprKindV::Binary(op, l, r) => match (infer_s(env, *l), infer_s(env, *r)) {
                    (Ok(tl), Ok(tr)) => if is_checked_op(op) {
                        &&& tl.node.ann == operand_type(op)
                        &&& tr.node.ann == operand_type(op)
                        &&& t.node.ann == result_type(op)
                    } else {
                        &&& tr.node.ann == tl.node.ann
                        &&& (tl.node.ann == TypeValueV::Int || tl.node.ann == TypeValueV::Float)
                        &&& t.node.ann == if is_int_arith(op) { tl.node.ann } else { TypeValueV::Bool }
                    },
                    _ => false,
                },
                ExprKindV::If(c, a, b) => match (infer_s(env, *c), infer_s(env, *a), infer_s(env, *b)) {
                    (Ok(tc), Ok(ta), Ok(tb)) => {
                        &&& tc.node.ann == TypeValueV::Bool
                        &&& ta.node.ann == tb.node.ann
                        &&& t.node.ann == ta.node.ann
                    },
                    _ => false,
                },
                _ => true,
            },
            Err(_) => true,
        },
{
}

/// The rule for `if`: a condition that is not `Bool` is an error at the
/// condition; with a `Bool` condition and both branches inferred, the
/// conditional has the branches' type if they agree, and otherwise the error
/// expects the `then` type and finds the `else` type, at the `else` branch.
pub proof fn lemma_infer_if<'a>(env: Seq<(Seq<char>, TypeValueV)>, e: EV<'a>)
    ensures
        match e.node.kind {
            ExprKindV::If(c, a, b) => match infer_s(env, *c) {
                Ok(tc) => if tc.node.ann != TypeValueV::Bool {
                    infer_s(env, e) == Err::<TEV<'a>, TypeErrorV>(terr(TypeValueV::Bool, tc.node.ann, tc.offset))
                } else {
                    match (infer_s(env, *a), infer_s(env, *b)) {
                        (Ok(ta), Ok(tb)) => infer_s(env, e) == if ta.node.ann == tb.node.ann {
                            Ok(tnode(e.offset, ta.node.ann, ExprKindV::If(Box::new(tc), Box::new(ta), Box::new(tb))))
                        } else {
                            Err(terr(ta.node.ann, tb.node.ann, tb.offset))
                        },
                        _ => true,
                    }
                },
                Err(_) => true,
            },
            _ => true,
        },
{
}

/// `e` is typed `t` by inference, as the operation of its two typed operands.
pub open spec fn binary_typed<'a>(
    env: Seq<(Seq<char>, TypeValueV)>,
    e: EV<'a>,
    at_operand: bool,
    tl: TEV<'a>,
    tr: TEV<'a>,
    t: TypeValueV,
) -> bool {
    match e.node.kind {
        ExprKindV::Binary(op, _, _) => infer_with(env, e, at_operand) == Ok::<TEV<'a>, TypeErrorV>(
            tnode(e.offset, t, ExprKindV::Binary(op, Box::new(tl), Box::new(tr))),
        ),
        _ => false,
    }
}

/// The typing rules of the binary operators, operator by operator, once
/// both operands are typed:
/// - `+ - * /` on two `Int`s give `Int`, on two `Float`s `Float`;
/// - `+. -. *. /.` on two `Float`s give `Float`;
/// - `< <= > >= == !=` on two `Int`s or two `Float`s give `Bool`;
/// - `<. <=. >. >=.` on two `Float`s give `Bool`;
/// - `|| &&` on two `Bool`s give `Bool`;
/// - a float operator whose left operand is not `Float` fails there,
///   expecting `Float`; one whose right operand is not `Float` fails there;
///   likewise `|| &&` with `Bool`;
/// - `+ - * / < <= > >= == !=` on operands that are not two `Int`s or two
///   `Float`s fail at the right operand, expecting the left operand's type.
pub proof fn lemma_binary_rules<'a>(env: Seq<(Seq<char>, TypeValueV)>, e: EV<'a>, at_operand: bool)
    ensures
        match e.node.kind {
            ExprKindV::Binary(op, l, r) => match (infer_with(env, *l, at_operand), infer_with(env, *r, at_operand)) {
                (Ok(tl), Ok(tr)) => {
                    let lt = tl.node.ann;
                    let rt = tr.node.ann;
                    let int_ish = op == BinOp::Plus || op == BinOp::Minus || op == BinOp::Mult || op == BinOp::Div;
                    let float_ish = op == BinOp::FPlus || op == BinOp::FMinus || op == BinOp::FMult || op == BinOp::FDiv;
                    let cmp = op == BinOp::Less || op == BinOp::LessEq || op == BinOp::Greater || op == BinOp::GreaterEq
                        || op == BinOp::Eq || op == BinOp::NotEq;
                    let fcmp = op == BinOp::FLess || op == BinOp::FLessEq || op == BinOp::FGreater || op
                        == BinOp::FGreaterEq;
                    let logic = op == BinOp::Or || op == BinOp::And;
                    let same_num = (lt == TypeValueV::Int && rt == TypeValueV::Int) || (lt == TypeValueV::Float
                        && rt == TypeValueV::Float);
                    &&& int_ish && lt == TypeValueV::Int && rt == TypeValueV::Int ==> binary_typed(env, e, at_operand, tl, tr, TypeValueV::Int)
                    &&& int_ish && lt == TypeValueV::Float && rt == TypeValueV::Float ==> binary_typed(env, e, at_operand, tl, tr, TypeValueV::Float)
                    &&& (float_ish && lt == TypeValueV::Float && rt == TypeValueV::Float) ==> binary_typed(env, e, at_operand, tl, tr, TypeValueV::Float)
                    &&& (cmp && same_num) ==> binary_typed(env, e, at_operand, tl, tr, TypeValueV::Bool)
                    &&& (fcmp && lt == TypeValueV::Float && rt == TypeValueV::Float) ==> binary_typed(env, e, at_operand, tl, tr, TypeValueV::Bool)
                    &&& (logic && lt == TypeValueV::Bool && rt == TypeValueV::Bool) ==> binary_typed(env, e, at_operand, tl, tr, TypeValueV::Bool)
                    &&& ((float_ish || fcmp) && lt != TypeValueV::Float) ==> infer_with(env, e, at_operand) == Err::<TEV<'a>, TypeErrorV>(terr(TypeValueV::Float, lt, tl.offset))
                    &&& ((float_ish || fcmp) && lt == TypeValueV::Float && rt != TypeValueV::Float) ==> infer_with(env, e, at_operand) == Err::<TEV<'a>, TypeErrorV>(terr(TypeValueV::Float, rt, tr.offset))
                    &&& (logic && lt != TypeValueV::Bool) ==> infer_with(env, e, at_operand) == Err::<TEV<'a>, TypeErrorV>(terr(TypeValueV::Bool, lt, tl.offset))
                    &&& (logic && lt == TypeValueV::Bool && rt != TypeValueV::Bool) ==> infer_with(env, e, at_operand) == Err::<TEV<'a>, TypeErrorV>(terr(TypeValueV::Bool, rt, tr.offset))
                    &&& ((int_ish || cmp) && !same_num) ==> infer_with(env, e, at_operand) == Err::<TEV<'a>, TypeErrorV>(terr(lt, rt, tr.offset))
                },
                _ => true,
            },
            _ => true,
        },
{
}

/// `r` is a success of type `ty`, the operation `op` on `tx`.
pub open spec fn typed_as_unary<'a>(r: Result<TEV<'a>, TypeErrorV>, ty: TypeValueV, op: UnOp, tx: TEV<'a>) -> bool {
    match r {
        Ok(te) => te.node.ann == ty && te.node.kind == ExprKindV::Unary(op, Box::new(tx)),
        Err(_) => false,
    }
}

/// `r` is an error that expected `expected` and found `actual`.
pub open spec fn fails_expecting<'a>(r: Result<TEV<'a>, TypeErrorV>, expected: TypeValueV, actual: TypeValueV) -> bool {
    match r {
        Ok(_) => false,
        Err(err) => err.expected == expected && err.actual == actual,
    }
}

/// The typing rules of the prefix operators, once the operand is typed:
/// `-` keeps an `Int` or a `Float`, `-.` needs a `Float` and `!` a `Bool`;
/// otherwise the error expects `Int`, `Float` or `Bool` and finds the
/// operand's type.
pub proof fn lemma_unary_rules<'a>(env: Seq<(Seq<char>, TypeValueV)>, e: EV<'a>, at_operand: bool)
    ensures
        match e.node.kind {
            ExprKindV::Unary(op, x) => match infer_with(env, *x, at_operand) {
                Ok(tx) => {
                    let t = tx.node.ann;
                    let ok_as = |ty: TypeValueV| typed_as_unary(infer_with(env, e, at_operand), ty, op, tx);
                    &&& (op == UnOp::Neg && t == TypeValueV::Int) ==> ok_as(TypeValueV::Int)
                    &&& (op == UnOp::Neg && t == TypeValueV::Float) ==> ok_as(TypeValueV::Float)
                    &&& (op == UnOp::FNeg && t == TypeValueV::Float) ==> ok_as(TypeValueV::Float)
                    &&& (op == UnOp::Bang && t == TypeValueV::Bool) ==> ok_as(TypeValueV::Bool)
                    &&& (op == UnOp::Neg && t != TypeValueV::Int && t != TypeValueV::Float) ==> fails_expecting(infer_with(env, e, at_operand), TypeValueV::Int, t)
                    &&& (op == UnOp::FNeg && t != TypeValueV::Float) ==> fails_expecting(infer_with(env, e, at_operand), TypeValueV::Float, t)
                    &&& (op == UnOp::Bang && t != TypeValueV::Bool) ==> fails_expecting(infer_with(env, e, at_operand), TypeValueV::Bool, t)
                },
                Err(err) => infer_with(env, e, at_operand) == Err::<TEV<'a>, TypeErrorV>(err),
            },
            _ => true,
        },
{
}

} // verus!
