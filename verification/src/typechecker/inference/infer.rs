//! Type inference with unification: every expression is annotated with an
//! entry of the inference context, and each use of an expression at a type
//! unifies its entry with that type's entry.
use vstd::prelude::*;

use crate::ast::{view_expr, BinOp, ExprKind, ExprKindV, ExprV, ParsedExpr, UnOp};
use crate::grammar::EV;
use crate::spanned::Spanned;
use crate::typechecker::infer::terr;
use crate::typechecker::inference::context::{
    class_known, inf_wf, lemma_names_find_in, lemma_new_tyvar_v_keeps, lemma_unify_v_keeps, names_find,
    new_tyvar_v, same_class, type_of_entry, unify_v, Context, InfV, InferredExpr, Prim, TypeId,
};
use crate::typechecker::types::{TypeError, TypeErrorV, TypeResult, TypeValue, TypeValueV};

verus! {

/// An inferred expression of the model: annotations are entries.
pub type IEV<'a> = Spanned<ExprV<'a, TypeId>>;

pub open spec fn inode<'a>(offset: usize, ann: TypeId, kind: ExprKindV<'a, TypeId>) -> IEV<'a> {
    Spanned { offset, node: ExprV { ann, kind } }
}

/// The entries of the primitive types.
pub open spec fn int_entry() -> TypeId {
    TypeId(0)
}

pub open spec fn bool_entry() -> TypeId {
    TypeId(1)
}

pub open spec fn float_entry() -> TypeId {
    TypeId(2)
}

/// The entry an operand of a unary operator must unify with.
pub open spec fn unop_entry(op: UnOp) -> TypeId {
    match op {
        UnOp::Neg => int_entry(),
        UnOp::FNeg => float_entry(),
        UnOp::Bang => bool_entry(),
    }
}

/// The entries of the operands and of the result of a binary operator other
/// than `==`, `!=` and `|>`.
pub open spec fn binop_entries(op: BinOp) -> (TypeId, TypeId) {
    match op {
        BinOp::Plus | BinOp::Minus | BinOp::Mult | BinOp::Div => (int_entry(), int_entry()),
        BinOp::FPlus | BinOp::FMinus | BinOp::FMult | BinOp::FDiv => (float_entry(), float_entry()),
        BinOp::Less | BinOp::LessEq | BinOp::Greater | BinOp::GreaterEq => (int_entry(), bool_entry()),
        BinOp::FLess | BinOp::FLessEq | BinOp::FGreater | BinOp::FGreaterEq => (float_entry(), bool_entry()),
        _ => (bool_entry(), bool_entry()),
    }
}

/// Infers the expression `e` in context `c`.
///
/// - A literal gets the entry of its type; a name the entry the context
///   gives it (an unbound name is an error between two unknown types).
/// - `-`, `-.` and `!` check their operand against `Int`, `Float` and
///   `Bool` and have that type.
/// - `+ - * /` check both operands against `Int`, `+. -. *. /.` against
///   `Float`, `< <= > >=` against `Int` and `<. <=. >. >=.` against `Float`
///   and give `Bool`, `|| &&` check against `Bool`; `==` and `!=` check both
///   operands against one fresh type variable and give `Bool`.
/// - `if` checks its condition against `Bool` and both branches against one
///   fresh type variable, which is its type.
pub open spec fn infer_in<'a>(c: InfV, e: EV<'a>) -> (InfV, Result<IEV<'a>, TypeErrorV>)
    decreases e, 1int,
{
    let off = e.offset;
    match e.node.kind {
        ExprKindV::Int(v) => (c, Ok(inode(off, int_entry(), ExprKindV::Int(v)))),
        ExprKindV::Float(v) => (c, Ok(inode(off, float_entry(), ExprKindV::Float(v)))),
        ExprKindV::Bool(v) => (c, Ok(inode(off, bool_entry(), ExprKindV::Bool(v)))),
        ExprKindV::Id(x) => match names_find(c.names, x@) {
            Some(t) => (c, Ok(inode(off, t, ExprKindV::Id(x)))),
            None => (c, Err(terr(TypeValueV::Var(0), TypeValueV::Var(0), off))),
        },
        ExprKindV::Unary(op, x) => {
            let (c1, r) = check_in(c, *x, unop_entry(op));
            match r {
                Err(err) => (c1, Err(err)),
                Ok(tx) => (c1, Ok(inode(off, unop_entry(op), ExprKindV::Unary(op, Box::new(tx))))),
            }
        },
        ExprKindV::Binary(op, l, r) => {
            let (c0, operand, output) = if op == BinOp::Eq || op == BinOp::NotEq {
                let (c0, v) = new_tyvar_v(c);
                (c0, v, bool_entry())
            } else {
                (c, binop_entries(op).0, binop_entries(op).1)
            };
            let (c1, rl) = check_in(c0, *l, operand);
            match rl {
                Err(err) => (c1, Err(err)),
                Ok(tl) => {
                    let (c2, rr) = check_in(c1, *r, operand);
                    match rr {
                        Err(err) => (c2, Err(err)),
                        Ok(tr) => (c2, Ok(inode(off, output, ExprKindV::Binary(op, Box::new(tl), Box::new(tr))))),
                    }
                },
            }
        },
        ExprKindV::If(cond, a, b) => {
            let (c1, rc) = check_in(c, *cond, bool_entry());
            match rc {
                Err(err) => (c1, Err(err)),
                Ok(tc) => {
                    let (c2, v) = new_tyvar_v(c1);
                    let (c3, ra) = check_in(c2, *a, v);
                    match ra {
                        Err(err) => (c3, Err(err)),
                        Ok(ta) => {
                            let (c4, rb) = check_in(c3, *b, v);
                            match rb {
                                Err(err) => (c4, Err(err)),
                                Ok(tb) => (c4, Ok(inode(off, v, ExprKindV::If(Box::new(tc), Box::new(ta), Box::new(tb))))),
                            }
                        },
                    }
                },
            }
        },
        _ => (c, Err(terr(TypeValueV::Var(0), TypeValueV::Var(0), off))),
    }
}

/// Infers `e`, then unifies its entry with `expected`; if they cannot be
/// unified, the error gives the expected type and the type found, at `e`.
pub open spec fn check_in<'a>(c: InfV, e: EV<'a>, expected: TypeId) -> (InfV, Result<IEV<'a>, TypeErrorV>)
    decreases e, 2int,
{
    let (c1, r) = infer_in(c, e);
    match r {
        Err(err) => (c1, Err(err)),
        Ok(t) => {
            let (c2, ok) = unify_v(c1, t.node.ann.0 as int, expected.0 as int);
            if ok {
                (c2, Ok(t))
            } else {
                (
                    c2,
                    Err(terr(type_of_entry(c1, expected.0 as int), type_of_entry(c1, t.node.ann.0 as int), t.offset)),
                )
            }
        },
    }
}

/// Whether inference from context `c`, visiting the sub-expressions in its
/// own order and stopping at the first error, comes to a form it has no rule
/// for: a closure, a call, a pipe or a match.
pub open spec fn reaches_unsupported_in<'a>(c: InfV, e: EV<'a>) -> bool
    decreases e,
{
    match e.node.kind {
        ExprKindV::Int(_) => false,
        ExprKindV::Float(_) => false,
        ExprKindV::Bool(_) => false,
        ExprKindV::Id(_) => false,
        ExprKindV::Unary(_, x) => reaches_unsupported_in(c, *x),
        ExprKindV::Binary(op, l, r) => if op == BinOp::Pipe {
            true
        } else {
            let (c0, operand) = if op == BinOp::Eq || op == BinOp::NotEq {
                new_tyvar_v(c)
            } else {
                (c, binop_entries(op).0)
            };
            reaches_unsupported_in(c0, *l) || {
                let (c1, rl) = check_in(c0, *l, operand);
                rl is Ok && reaches_unsupported_in(c1, *r)
            }
        },
        ExprKindV::If(cond, a, b) => reaches_unsupported_in(c, *cond) || {
            let (c1, rc) = check_in(c, *cond, bool_entry());
            rc is Ok && {
                let (c2, v) = new_tyvar_v(c1);
                reaches_unsupported_in(c2, *a) || {
                    let (c3, ra) = check_in(c2, *a, v);
                    ra is Ok && reaches_unsupported_in(c3, *b)
                }
            }
        },
        _ => true,
    }
}

/// The result of inference, as a model.
pub open spec fn view_inferred_result<'a>(r: TypeResult<InferredExpr<'a>>) -> Result<IEV<'a>, TypeErrorV> {
    match r {
        Ok(t) => Ok(view_expr(t)),
        Err(e) => Err(crate::typechecker::types::view_terr(e)),
    }
}

/// Whether an inference result only names entries of a context of `n` entries.
pub open spec fn entries_below<'a>(r: TypeResult<InferredExpr<'a>>, n: nat) -> bool {
    r matches Ok(t) ==> t.node.ann.0 < n
}

fn mk_binop<'a>(offset: usize, ann: TypeId, op: BinOp, l: InferredExpr<'a>, r: InferredExpr<'a>) -> (e: InferredExpr<'a>)
    ensures
        view_expr(e) == inode(offset, ann, ExprKindV::Binary(op, Box::new(view_expr(l)), Box::new(view_expr(r)))),
{
    let (l, r) = (Box::new(l), Box::new(r));
    let kind = match op {
        BinOp::Plus => ExprKind::Plus(l, r),
        BinOp::Minus => ExprKind::Minus(l, r),
        BinOp::Mult => ExprKind::Mult(l, r),
        BinOp::Div => ExprKind::Div(l, r),
        BinOp::FPlus => ExprKind::FPlus(l, r),
        BinOp::FMinus => ExprKind::FMinus(l, r),
        BinOp::FMult => ExprKind::FMult(l, r),
        BinOp::FDiv => ExprKind::FDiv(l, r),
        BinOp::Pipe => ExprKind::Pipe(l, r),
        BinOp::Less => ExprKind::Less(l, r),
        BinOp::LessEq => ExprKind::LessEq(l, r),
        BinOp::Greater => ExprKind::Greater(l, r),
        BinOp::GreaterEq => ExprKind::GreaterEq(l, r),
        BinOp::FLess => ExprKind::FLess(l, r),
        BinOp::FLessEq => ExprKind::FLessEq(l, r),
        BinOp::FGreater => ExprKind::FGreater(l, r),
        BinOp::FGreaterEq => ExprKind::FGreaterEq(l, r),
        BinOp::Eq => ExprKind::Eq(l, r),
        BinOp::NotEq => ExprKind::NotEq(l, r),
        BinOp::Or => ExprKind::Or(l, r),
        BinOp::And => ExprKind::And(l, r),
    };
    InferredExpr::new(offset, ann, kind)
}

fn mk_unop<'a>(offset: usize, ann: TypeId, op: UnOp, x: InferredExpr<'a>) -> (e: InferredExpr<'a>)
    ensures
        view_expr(e) == inode(offset, ann, ExprKindV::Unary(op, Box::new(view_expr(x)))),
{
    let x = Box::new(x);
    let kind = match op {
        UnOp::Neg => ExprKind::Neg(x),
        UnOp::FNeg => ExprKind::FNeg(x),
        UnOp::Bang => ExprKind::Bang(x),
    };
    InferredExpr::new(offset, ann, kind)
}

fn binop_entries_of(ctx: &Context, op: BinOp) -> (r: (TypeId, TypeId))
    requires
        inf_wf(ctx@),
    ensures
        r == binop_entries(op),
{
    match op {
        BinOp::Plus | BinOp::Minus | BinOp::Mult | BinOp::Div => (ctx.int_id(), ctx.int_id()),
        BinOp::FPlus | BinOp::FMinus | BinOp::FMult | BinOp::FDiv => (ctx.float_id(), ctx.float_id()),
        BinOp::Less | BinOp::LessEq | BinOp::Greater | BinOp::GreaterEq => (ctx.int_id(), ctx.bool_id()),
        BinOp::FLess | BinOp::FLessEq | BinOp::FGreater | BinOp::FGreaterEq => (ctx.float_id(), ctx.bool_id()),
        _ => (ctx.bool_id(), ctx.bool_id()),
    }
}

/// Infers an expression; see `infer_in`.
#[verifier::rlimit(60)]
pub fn infer<'a>(expr: ParsedExpr<'a>, ctx: &mut Context) -> (r: TypeResult<InferredExpr<'a>>)
    requires
        inf_wf(old(ctx)@),
        !reaches_unsupported_in(old(ctx)@, view_expr(expr)),
    ensures
        inf_wf(final(ctx)@),
        final(ctx)@.parent.len() >= old(ctx)@.parent.len(),
        entries_below(r, final(ctx)@.parent.len()),
        (final(ctx)@, view_inferred_result(r)) == infer_in(old(ctx)@, view_expr(expr)),
    decreases expr, 1int,
{
    let loc = expr.offset;
    let (op, l, r) = match expr.node.kind {
        ExprKind::Int(v) => {
            return Ok(InferredExpr::new(loc, ctx.int_id(), ExprKind::Int(v)));
        },
        ExprKind::Float(v) => {
            return Ok(InferredExpr::new(loc, ctx.float_id(), ExprKind::Float(v)));
        },
        ExprKind::Bool(v) => {
            return Ok(InferredExpr::new(loc, ctx.bool_id(), ExprKind::Bool(v)));
        },
        ExprKind::Id(x) => {
            return match ctx.lookup(x) {
                Some(t) => Ok(InferredExpr::new(loc, t, ExprKind::Id(x))),
                None => Err(TypeError { expected: TypeValue::Var(0), actual: TypeValue::Var(0), offset: loc }),
            };
        },
        ExprKind::Neg(x) => {
            let want = ctx.int_id();
            return match check(*x, want, ctx) {
                Ok(tx) => Ok(mk_unop(loc, want, UnOp::Neg, tx)),
                Err(e) => Err(e),
            };
        },
        ExprKind::FNeg(x) => {
            let want = ctx.float_id();
            return match check(*x, want, ctx) {
                Ok(tx) => Ok(mk_unop(loc, want, UnOp::FNeg, tx)),
                Err(e) => Err(e),
            };
        },
        ExprKind::Bang(x) => {
            let want = ctx.bool_id();
            return match check(*x, want, ctx) {
                Ok(tx) => Ok(mk_unop(loc, want, UnOp::Bang, tx)),
                Err(e) => Err(e),
            };
        },
        ExprKind::If(c, a, b) => {
            let want = ctx.bool_id();
            let tc = match check(*c, want, ctx) {
                Ok(t) => t,
                Err(e) => {
                    return Err(e);
                },
            };
            let output = ctx.new_tyvar();
            let ta = match check(*a, output, ctx) {
                Ok(t) => t,
                Err(e) => {
                    return Err(e);
                },
            };
            let tb = match check(*b, output, ctx) {
                Ok(t) => t,
                Err(e) => {
                    return Err(e);
                },
            };
            return Ok(InferredExpr::new(loc, output, ExprKind::If(Box::new(tc), Box::new(ta), Box::new(tb))));
        },
        ExprKind::Plus(l, r) => (BinOp::Plus, l, r),
        ExprKind::Minus(l, r) => (BinOp::Minus, l, r),
        ExprKind::Mult(l, r) => (BinOp::Mult, l, r),
        ExprKind::Div(l, r) => (BinOp::Div, l, r),
        ExprKind::FPlus(l, r) => (BinOp::FPlus, l, r),
        ExprKind::FMinus(l, r) => (BinOp::FMinus, l, r),
        ExprKind::FMult(l, r) => (BinOp::FMult, l, r),
        ExprKind::FDiv(l, r) => (BinOp::FDiv, l, r),
        ExprKind::Less(l, r) => (BinOp::Less, l, r),
        ExprKind::LessEq(l, r) => (BinOp::LessEq, l, r),
        ExprKind::Greater(l, r) => (BinOp::Greater, l, r),
        ExprKind::GreaterEq(l, r) => (BinOp::GreaterEq, l, r),
        ExprKind::FLess(l, r) => (BinOp::FLess, l, r),
        ExprKind::FLessEq(l, r) => (BinOp::FLessEq, l, r),
        ExprKind::FGreater(l, r) => (BinOp::FGreater, l, r),
        ExprKind::FGreaterEq(l, r) => (BinOp::FGreaterEq, l, r),
        ExprKind::Eq(l, r) => (BinOp::Eq, l, r),
        ExprKind::NotEq(l, r) => (BinOp::NotEq, l, r),
        ExprKind::Or(l, r) => (BinOp::Or, l, r),
        ExprKind::And(l, r) => (BinOp::And, l, r),
        ExprKind::Fn(_, _) | ExprKind::Call(_, _) | ExprKind::Pipe(_, _) | ExprKind::Match(_, _) => {
            return Err(TypeError { expected: TypeValue::Var(0), actual: TypeValue::Var(0), offset: loc });
        },
    };
    let (operand, output) = if op == BinOp::Eq || op == BinOp::NotEq {
        let v = ctx.new_tyvar();
        (v, ctx.bool_id())
    } else {
        binop_entries_of(ctx, op)
    };
    let tl = match check(*l, operand, ctx) {
        Ok(t) => t,
        Err(e) => {
            return Err(e);
        },
    };
    let tr = match check(*r, operand, ctx) {
        Ok(t) => t,
        Err(e) => {
            return Err(e);
        },
    };
    Ok(mk_binop(loc, output, op, tl, tr))
}

/// Infers an expression and unifies its entry with `expected`; see `check_in`.
pub fn check<'a>(expr: ParsedExpr<'a>, expected: TypeId, ctx: &mut Context) -> (r: TypeResult<InferredExpr<'a>>)
    requires
        inf_wf(old(ctx)@),
        !reaches_unsupported_in(old(ctx)@, view_expr(expr)),
        expected.0 < old(ctx)@.parent.len(),
    ensures
        inf_wf(final(ctx)@),
        final(ctx)@.parent.len() >= old(ctx)@.parent.len(),
        entries_below(r, final(ctx)@.parent.len()),
        (final(ctx)@, view_inferred_result(r)) == check_in(old(ctx)@, view_expr(expr), expected),
        r matches Ok(t) ==> crate::typechecker::inference::context::same_class(
            final(ctx)@,
            t.node.ann.0 as int,
            expected.0 as int,
        ),
    decreases expr, 2int,
{
    let t = match infer(expr, ctx) {
        Ok(t) => t,
        Err(e) => {
            return Err(e);
        },
    };
    let expected_type = ctx.type_of(expected);
    let actual_type = ctx.type_of(t.node.ann);
    if ctx.unify(t.node.ann, expected) {
        Ok(t)
    } else {
        Err(TypeError { expected: expected_type, actual: actual_type, offset: t.offset })
    }
}

// ─── laws ───────────────────────────────────────────────────────────

/// `c2` is well formed, at least as large as `c`, and every entry of `c`
/// whose class was known to be a primitive type still is, the same one.
pub open spec fn keeps_known(c: InfV, c2: InfV) -> bool {
    &&& inf_wf(c2)
    &&& c2.parent.len() >= c.parent.len()
    &&& forall|x: int|
        0 <= x < c.parent.len() && (#[trigger] class_known(c, x)) is Some ==> class_known(c2, x) == class_known(c, x)
    &&& forall|x: int, y: int|
        0 <= x < c.parent.len() && 0 <= y < c.parent.len() && #[trigger] same_class(c, x, y) ==> same_class(c2, x, y)
}

proof fn lemma_keeps_known_trans(c: InfV, c1: InfV, c2: InfV)
    requires
        keeps_known(c, c1),
        keeps_known(c1, c2),
    ensures
        keeps_known(c, c2),
{
    assert forall|x: int| 0 <= x < c.parent.len() && (#[trigger] class_known(c, x)) is Some implies class_known(c2, x)
        == class_known(c, x) by {
        assert(class_known(c1, x) == class_known(c, x));
    }
    assert forall|x: int, y: int|
        0 <= x < c.parent.len() && 0 <= y < c.parent.len() && #[trigger] same_class(c, x, y) implies same_class(c2, x, y) by {
        assert(same_class(c1, x, y));
    }
}

/// Inference keeps what is known of every entry, and annotates with
/// entries of the context.
pub proof fn lemma_infer_in_keeps<'a>(c: InfV, e: EV<'a>)
    requires
        inf_wf(c),
    ensures
        keeps_known(c, infer_in(c, e).0),
        infer_in(c, e).1 matches Ok(t) ==> t.node.ann.0 < infer_in(c, e).0.parent.len(),
    decreases e, 1int,
{
    match e.node.kind {
        ExprKindV::Id(x) => {
            lemma_names_find_in(c.names, x@, c.parent.len());
        },
        ExprKindV::Unary(op, x) => {
            lemma_check_in_keeps(c, *x, unop_entry(op));
        },
        ExprKindV::Binary(op, l, r) => {
            let (c0, operand) = if op == BinOp::Eq || op == BinOp::NotEq {
                lemma_new_tyvar_v_keeps(c);
                new_tyvar_v(c)
            } else {
                (c, binop_entries(op).0)
            };
            assert(keeps_known(c, c0));
            lemma_check_in_keeps(c0, *l, operand);
            let (c1, rl) = check_in(c0, *l, operand);
            lemma_keeps_known_trans(c, c0, c1);
            if rl is Ok {
                lemma_check_in_keeps(c1, *r, operand);
                lemma_keeps_known_trans(c, c1, check_in(c1, *r, operand).0);
            }
        },
        ExprKindV::If(cond, a, b) => {
            lemma_check_in_keeps(c, *cond, bool_entry());
            let (c1, rc) = check_in(c, *cond, bool_entry());
            if rc is Ok {
                lemma_new_tyvar_v_keeps(c1);
                let (c2, v) = new_tyvar_v(c1);
                lemma_keeps_known_trans(c, c1, c2);
                lemma_check_in_keeps(c2, *a, v);
                let (c3, ra) = check_in(c2, *a, v);
                lemma_keeps_known_trans(c, c2, c3);
                if ra is Ok {
                    lemma_check_in_keeps(c3, *b, v);
                    lemma_keeps_known_trans(c, c3, check_in(c3, *b, v).0);
                }
            }
        },
        _ => {},
    }
}

/// Checking keeps what is known of every entry; on success the expression's
/// entry is in the class of the expected one.
pub proof fn lemma_check_in_keeps<'a>(c: InfV, e: EV<'a>, expected: TypeId)
    requires
        inf_wf(c),
        expected.0 < c.parent.len(),
    ensures
        keeps_known(c, check_in(c, e, expected).0),
        check_in(c, e, expected).1 matches Ok(t) ==> t.node.ann.0 < check_in(c, e, expected).0.parent.len()
            && same_class(check_in(c, e, expected).0, t.node.ann.0 as int, expected.0 as int),
    decreases e, 2int,
{
    lemma_infer_in_keeps(c, e);
    let (c1, r) = infer_in(c, e);
    if r is Ok {
        let t = r->Ok_0;
        lemma_unify_v_keeps(c1, t.node.ann.0 as int, expected.0 as int);
        lemma_keeps_known_trans(c, c1, unify_v(c1, t.node.ann.0 as int, expected.0 as int).0);
    }
}

/// Entries in one class stand for one type.
proof fn lemma_same_class_type(c: InfV, x: int, y: int)
    requires
        same_class(c, x, y),
    ensures
        type_of_entry(c, x) == type_of_entry(c, y),
{
}

/// In a well-formed context the three first entries are `Int`, `Bool` and
/// `Float`.
pub proof fn lemma_primitive_entries(c: InfV)
    requires
        inf_wf(c),
    ensures
        type_of_entry(c, 0) == TypeValueV::Int,
        type_of_entry(c, 1) == TypeValueV::Bool,
        type_of_entry(c, 2) == TypeValueV::Float,
{
}

/// The types that inference gives, in the context it ends with, operator by
/// operator: a literal its own type; `-` `Int`, `-.` `Float`, `!` `Bool`,
/// each with an operand of that type; `+ - * /` `Int` on `Int` operands;
/// `+. -. *. /.` `Float` on `Float` operands; `< <= > >=` `Bool` on `Int`
/// operands; `<. <=. >. >=.` `Bool` on `Float` operands; `|| &&` `Bool` on
/// `Bool` operands; `== !=` `Bool` on two operands of one type; `if` a
/// `Bool` condition and the type of both branches.
pub proof fn lemma_inferred_types<'a>(c: InfV, e: EV<'a>)
    requires
        inf_wf(c),
    ensures
        match infer_in(c, e) {
            (c2, Ok(t)) => {
                let ty = |x: TypeId| type_of_entry(c2, x.0 as int);
                match t.node.kind {
                    ExprKindV::Int(_) => ty(t.node.ann) == TypeValueV::Int,
                    ExprKindV::Float(_) => ty(t.node.ann) == TypeValueV::Float,
                    ExprKindV::Bool(_) => ty(t.node.ann) == TypeValueV::Bool,
                    ExprKindV::Unary(op, x) => {
                        &&& op == UnOp::Neg ==> ty(t.node.ann) == TypeValueV::Int && ty(x.node.ann) == TypeValueV::Int
                        &&& op == UnOp::FNeg ==> ty(t.node.ann) == TypeValueV::Float && ty(x.node.ann) == TypeValueV::Float
                        &&& op == UnOp::Bang ==> ty(t.node.ann) == TypeValueV::Bool && ty(x.node.ann) == TypeValueV::Bool
                    },
                    ExprKindV::Binary(op, l, r) => {
                        let (res, lt, rt) = (ty(t.node.ann), ty(l.node.ann), ty(r.node.ann));
                        &&& (op == BinOp::Plus || op == BinOp::Minus || op == BinOp::Mult || op == BinOp::Div)
                            ==> res == TypeValueV::Int && lt == TypeValueV::Int && rt == TypeValueV::Int
                        &&& (op == BinOp::FPlus || op == BinOp::FMinus || op == BinOp::FMult || op == BinOp::FDiv)
                            ==> res == TypeValueV::Float && lt == TypeValueV::Float && rt == TypeValueV::Float
                        &&& (op == BinOp::Less || op == BinOp::LessEq || op == BinOp::Greater || op == BinOp::GreaterEq)
                            ==> res == TypeValueV::Bool && lt == TypeValueV::Int && rt == TypeValueV::Int
                        &&& (op == BinOp::FLess || op == BinOp::FLessEq || op == BinOp::FGreater || op
                            == BinOp::FGreaterEq) ==> res == TypeValueV::Bool && lt == TypeValueV::Float && rt
                            == TypeValueV::Float
                        &&& (op == BinOp::Or || op == BinOp::And) ==> res == TypeValueV::Bool && lt == TypeValueV::Bool
                            && rt == TypeValueV::Bool
                        &&& (op == BinOp::Eq || op == BinOp::NotEq) ==> res == TypeValueV::Bool && lt == rt
                    },
                    ExprKindV::If(cond, a, b) => {
                        &&& ty(cond.node.ann) == TypeValueV::Bool
                        &&& ty(t.node.ann) == ty(a.node.ann)
                        &&& ty(t.node.ann) == ty(b.node.ann)
                    },
                    _ => true,
                }
            },
            _ => true,
        },
{
    lemma_infer_in_keeps(c, e);
    let c2 = infer_in(c, e).0;
    lemma_primitive_entries(c2);
    match e.node.kind {
        ExprKindV::Unary(op, x) => {
            lemma_check_in_keeps(c, *x, unop_entry(op));
            if infer_in(c, e).1 is Ok {
                let tx = check_in(c, *x, unop_entry(op)).1->Ok_0;
                lemma_same_class_type(c2, tx.node.ann.0 as int, unop_entry(op).0 as int);
            }
        },
        ExprKindV::Binary(op, l, r) => {
            let (c0, operand) = if op == BinOp::Eq || op == BinOp::NotEq {
                lemma_new_tyvar_v_keeps(c);
                new_tyvar_v(c)
            } else {
                (c, binop_entries(op).0)
            };
            lemma_check_in_keeps(c0, *l, operand);
            let (c1, rl) = check_in(c0, *l, operand);
            if rl is Ok {
                let tl = rl->Ok_0;
                lemma_check_in_keeps(c1, *r, operand);
                let (c3, rr) = check_in(c1, *r, operand);
                if rr is Ok {
                    let tr = rr->Ok_0;
                    assert(c3 == c2);
                    lemma_same_class_type(c1, tl.node.ann.0 as int, operand.0 as int);
                    lemma_same_class_type(c2, tr.node.ann.0 as int, operand.0 as int);
                    lemma_primitive_entries(c1);
                    if op == BinOp::Eq || op == BinOp::NotEq {
                        assert(same_class(c2, tl.node.ann.0 as int, operand.0 as int));
                        lemma_same_class_type(c2, tl.node.ann.0 as int, operand.0 as int);
                    } else {
                        assert(class_known(c1, tl.node.ann.0 as int) is Some);
                        assert(class_known(c2, tl.node.ann.0 as int) == class_known(c1, tl.node.ann.0 as int));
                    }
                }
            }
        },
        ExprKindV::If(cond, a, b) => {
            lemma_check_in_keeps(c, *cond, bool_entry());
            let (c1, rc) = check_in(c, *cond, bool_entry());
            if rc is Ok {
                let tc = rc->Ok_0;
                lemma_new_tyvar_v_keeps(c1);
                let (c2n, v) = new_tyvar_v(c1);
                lemma_check_in_keeps(c2n, *a, v);
                let (c3, ra) = check_in(c2n, *a, v);
                if ra is Ok {
                    let ta = ra->Ok_0;
                    lemma_check_in_keeps(c3, *b, v);
                    let (c4, rb) = check_in(c3, *b, v);
                    if rb is Ok {
                        let tb = rb->Ok_0;
                        assert(c4 == c2);
                        lemma_keeps_known_trans(c1, c2n, c3);
                        lemma_keeps_known_trans(c1, c3, c4);
                        lemma_primitive_entries(c1);
                        lemma_same_class_type(c1, tc.node.ann.0 as int, 1);
                        assert(class_known(c1, tc.node.ann.0 as int) is Some);
                        assert(class_known(c2, tc.node.ann.0 as int) == class_known(c1, tc.node.ann.0 as int));
                        assert(same_class(c2, ta.node.ann.0 as int, v.0 as int));
                        lemma_same_class_type(c2, ta.node.ann.0 as int, v.0 as int);
                        lemma_same_class_type(c2, tb.node.ann.0 as int, v.0 as int);
                    }
                }
            }
        },
        _ => {},
    }
}

} // verus!
