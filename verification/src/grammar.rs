//! The concrete syntax, as a mathematical function from a token sequence and
//! a position to the tree parsed there (or the error met) and the position
//! reached. The parser in `parser` computes exactly these functions.
//!
//! Every recursive use of the grammar is guarded by a check that the
//! position has moved forward; the check never fails on the parser's own
//! progress, and it is what makes each definition well founded.
use vstd::prelude::*;

use crate::ast::{
    ArmBindingV, ArmV, BinOp, BindingV, DefnV, ExprKindV, ExprV, StmtV, TypeV, UnOp,
};
use crate::spanned::Spanned;
use crate::token::{SpannedToken, Token, TokenKind, token_kind};

verus! {

pub type Toks<'a> = Seq<SpannedToken<'a>>;

pub type EV<'a> = Spanned<ExprV<'a, ()>>;

pub type BV<'a> = Spanned<BindingV<'a>>;

pub type ABV<'a> = Spanned<ArmBindingV<'a>>;

pub type SV<'a> = Spanned<StmtV<'a, ()>>;

pub type DV<'a> = Spanned<DefnV<'a, ()>>;

/// The model of a parse error: the token kinds that would have been
/// accepted, the token found, and its offset.
pub struct ParseErrorV<'a> {
    pub expected: Seq<TokenKind>,
    pub actual: Token<'a>,
    pub offset: usize,
}

/// The outcome of parsing from some position: a value or an error, and the
/// position reached.
pub struct Step<'a, T> {
    pub out: Result<T, ParseErrorV<'a>>,
    pub pos: int,
}

pub open spec fn kind_at(t: Toks, p: int) -> TokenKind {
    token_kind(t[p].node)
}

/// The position after consuming the token at `p`; the final token (end of
/// input) is never consumed.
pub open spec fn adv(t: Toks, p: int) -> int {
    if p + 1 < t.len() {
        p + 1
    } else {
        p
    }
}

pub open spec fn error_at<'a>(t: Toks<'a>, p: int, expected: Seq<TokenKind>) -> ParseErrorV<'a> {
    ParseErrorV { expected, actual: t[p].node, offset: t[p].offset }
}

pub open spec fn fail<'a, T>(t: Toks<'a>, p: int, expected: Seq<TokenKind>) -> Step<'a, T> {
    Step { out: Err(error_at(t, p, expected)), pos: p }
}

/// The outcome when a nested parse made no progress.
pub open spec fn stuck<'a, T>(t: Toks<'a>, p: int) -> Step<'a, T> {
    fail(t, p, Seq::empty())
}

/// Whether `q` is a position strictly after `p`.
pub open spec fn advanced(t: Toks, p: int, q: int) -> bool {
    p < q <= t.len()
}

pub open spec fn ok<'a, T>(v: T, p: int) -> Step<'a, T> {
    Step { out: Ok(v), pos: p }
}

/// Re-types a failed step.
pub open spec fn failed<'a, T, U>(s: Step<'a, T>) -> Step<'a, U> {
    Step { out: Err(s.out->Err_0), pos: s.pos }
}

// ─── single tokens ──────────────────────────────────────────────────

pub open spec fn sp_expect<'a>(t: Toks<'a>, p: int, k: TokenKind) -> Step<'a, ()> {
    if kind_at(t, p) == k {
        ok((), adv(t, p))
    } else {
        fail(t, p, seq![k])
    }
}

pub open spec fn sp_expect_id<'a>(t: Toks<'a>, p: int) -> Step<'a, &'a str> {
    match t[p].node {
        Token::Id(x) => ok(x, adv(t, p)),
        _ => fail(t, p, seq![TokenKind::Id]),
    }
}

pub open spec fn sp_expect_typeid<'a>(t: Toks<'a>, p: int) -> Step<'a, &'a str> {
    match t[p].node {
        Token::TypeId(x) => ok(x, adv(t, p)),
        _ => fail(t, p, seq![TokenKind::TypeId]),
    }
}

pub open spec fn sp_expect_type_param<'a>(t: Toks<'a>, p: int) -> Step<'a, &'a str> {
    match t[p].node {
        Token::TypeParam(x) => ok(x, adv(t, p)),
        _ => fail(t, p, seq![TokenKind::TypeParam]),
    }
}

pub open spec fn sp_expect_int<'a>(t: Toks<'a>, p: int) -> Step<'a, i64> {
    match t[p].node {
        Token::Int(v) => ok(v, adv(t, p)),
        _ => fail(t, p, seq![TokenKind::Int]),
    }
}

pub open spec fn sp_expect_float<'a>(t: Toks<'a>, p: int) -> Step<'a, &'a str> {
    match t[p].node {
        Token::Float(x) => ok(x, adv(t, p)),
        _ => fail(t, p, seq![TokenKind::Float]),
    }
}

pub open spec fn sp_expect_bool<'a>(t: Toks<'a>, p: int) -> Step<'a, bool> {
    match t[p].node {
        Token::Bool(b) => ok(b, adv(t, p)),
        _ => fail(t, p, seq![TokenKind::Bool]),
    }
}

/// Consumes the token at `p` if its kind is one of `ks`.
pub open spec fn sp_expect_many<'a>(t: Toks<'a>, p: int, ks: Seq<TokenKind>) -> Step<'a, Token<'a>> {
    if ks.contains(kind_at(t, p)) {
        ok(t[p].node, adv(t, p))
    } else {
        fail(t, p, ks)
    }
}

// ─── types ──────────────────────────────────────────────────────────

pub open spec fn type_start_kinds() -> Seq<TokenKind> {
    seq![
        TokenKind::IntType,
        TokenKind::FloatType,
        TokenKind::BoolType,
        TokenKind::TypeId,
        TokenKind::TypeParam,
    ]
}

/// `<type> ::= <atom> ( -> <type> )?`, where an atom is `Int`, `Float`,
/// `Bool`, a type parameter, or a type name with optional arguments.
pub open spec fn sp_type<'a>(t: Toks<'a>, p: int) -> Step<'a, TypeV<'a>>
    decreases t.len() - p,
{
    let a = sp_expect_many(t, p, type_start_kinds());
    match a.out {
        Err(e) => Step { out: Err(e), pos: a.pos },
        Ok(tok) => {
            let p1 = a.pos;
            let atom: Step<'a, TypeV<'a>> = match tok {
                Token::IntType => ok(TypeV::Int, p1),
                Token::FloatType => ok(TypeV::Float, p1),
                Token::BoolType => ok(TypeV::Bool, p1),
                Token::TypeParam(x) => ok(TypeV::TypeParam(x), p1),
                Token::TypeId(x) => if kind_at(t, p1) == TokenKind::LParen {
                    if !advanced(t, p, p1) {
                        stuck(t, p1)
                    } else {
                        let args = sp_type_args(t, p1);
                        match args.out {
                            Ok(v) => ok(TypeV::TypeApp(x, v), args.pos),
                            Err(e) => Step { out: Err(e), pos: args.pos },
                        }
                    }
                } else {
                    ok(TypeV::TypeId(x), p1)
                },
                _ => stuck(t, p1),
            };
            match atom.out {
                Err(e) => Step { out: Err(e), pos: atom.pos },
                Ok(l) => if kind_at(t, atom.pos) == TokenKind::Arrow {
                    let p2 = adv(t, atom.pos);
                    if !advanced(t, p, p2) {
                        stuck(t, p2)
                    } else {
                        let r = sp_type(t, p2);
                        match r.out {
                            Ok(rt) => ok(TypeV::Fn(Box::new(l), Box::new(rt)), r.pos),
                            Err(e) => Step { out: Err(e), pos: r.pos },
                        }
                    }
                } else {
                    ok(l, atom.pos)
                },
            }
        },
    }
}

/// `( <type>, ... )`
pub open spec fn sp_type_args<'a>(t: Toks<'a>, p: int) -> Step<'a, Seq<TypeV<'a>>>
    decreases t.len() - p,
{
    let o = sp_expect(t, p, TokenKind::LParen);
    if o.out is Err {
        failed(o)
    } else if !advanced(t, p, o.pos) {
        stuck(t, o.pos)
    } else if kind_at(t, o.pos) != TokenKind::RParen {
        let first = sp_type(t, o.pos);
        match first.out {
            Err(e) => Step { out: Err(e), pos: first.pos },
            Ok(ty) => if !advanced(t, p, first.pos) {
                stuck(t, first.pos)
            } else {
                sp_type_args_rest(t, first.pos, seq![ty])
            },
        }
    } else {
        let c = sp_expect(t, o.pos, TokenKind::RParen);
        if c.out is Err {
            failed(c)
        } else {
            ok(Seq::empty(), c.pos)
        }
    }
}

pub open spec fn sp_type_args_rest<'a>(t: Toks<'a>, p: int, acc: Seq<TypeV<'a>>) -> Step<'a, Seq<TypeV<'a>>>
    decreases t.len() - p,
{
    if kind_at(t, p) == TokenKind::Comma {
        let p1 = adv(t, p);
        if !advanced(t, p, p1) {
            stuck(t, p1)
        } else {
            let x = sp_type(t, p1);
            match x.out {
                Err(e) => Step { out: Err(e), pos: x.pos },
                Ok(ty) => if !advanced(t, p, x.pos) {
                    stuck(t, x.pos)
                } else {
                    sp_type_args_rest(t, x.pos, acc.push(ty))
                },
            }
        }
    } else {
        let c = sp_expect(t, p, TokenKind::RParen);
        if c.out is Err {
            failed(c)
        } else {
            ok(acc, c.pos)
        }
    }
}

/// `<id> : <type>`
pub open spec fn sp_binding<'a>(t: Toks<'a>, p: int) -> Step<'a, BV<'a>> {
    let id = sp_expect_id(t, p);
    match id.out {
        Err(e) => Step { out: Err(e), pos: id.pos },
        Ok(x) => {
            let c = sp_expect(t, id.pos, TokenKind::Colon);
            if c.out is Err {
                failed(c)
            } else {
                let ty = sp_type(t, c.pos);
                match ty.out {
                    Err(e) => Step { out: Err(e), pos: ty.pos },
                    Ok(tv) => ok(Spanned { offset: t[p].offset, node: BindingV { id: x, typ: tv } }, ty.pos),
                }
            }
        },
    }
}

/// `( <binding>, ... )`
pub open spec fn sp_binding_list<'a>(t: Toks<'a>, p: int) -> Step<'a, Seq<BV<'a>>> {
    let o = sp_expect(t, p, TokenKind::LParen);
    if o.out is Err {
        failed(o)
    } else if kind_at(t, o.pos) != TokenKind::RParen {
        let first = sp_binding(t, o.pos);
        match first.out {
            Err(e) => Step { out: Err(e), pos: first.pos },
            Ok(b) => sp_binding_list_rest(t, first.pos, seq![b]),
        }
    } else {
        let c = sp_expect(t, o.pos, TokenKind::RParen);
        if c.out is Err {
            failed(c)
        } else {
            ok(Seq::empty(), c.pos)
        }
    }
}

pub open spec fn sp_binding_list_rest<'a>(t: Toks<'a>, p: int, acc: Seq<BV<'a>>) -> Step<'a, Seq<BV<'a>>>
    decreases t.len() - p,
{
    if kind_at(t, p) == TokenKind::Comma {
        let p1 = adv(t, p);
        let x = sp_binding(t, p1);
        match x.out {
            Err(e) => Step { out: Err(e), pos: x.pos },
            Ok(b) => if !advanced(t, p, x.pos) {
                stuck(t, x.pos)
            } else {
                sp_binding_list_rest(t, x.pos, acc.push(b))
            },
        }
    } else {
        let c = sp_expect(t, p, TokenKind::RParen);
        if c.out is Err {
            failed(c)
        } else {
            ok(acc, c.pos)
        }
    }
}

/// A pattern variable: `<id>` or `<id> : <type>`.
pub open spec fn sp_arm_binding<'a>(t: Toks<'a>, p: int) -> Step<'a, ABV<'a>> {
    let id = sp_expect_id(t, p);
    match id.out {
        Err(e) => Step { out: Err(e), pos: id.pos },
        Ok(x) => if kind_at(t, id.pos) == TokenKind::Colon {
            let ty = sp_type(t, adv(t, id.pos));
            match ty.out {
                Err(e) => Step { out: Err(e), pos: ty.pos },
                Ok(tv) => ok(
                    Spanned { offset: t[p].offset, node: ArmBindingV { id: x, typ: Some(tv) } },
                    ty.pos,
                ),
            }
        } else {
            ok(Spanned { offset: t[p].offset, node: ArmBindingV { id: x, typ: None } }, id.pos)
        },
    }
}

/// `( <pattern variable>, ... )`
pub open spec fn sp_arm_binding_list<'a>(t: Toks<'a>, p: int) -> Step<'a, Seq<ABV<'a>>> {
    let o = sp_expect(t, p, TokenKind::LParen);
    if o.out is Err {
        failed(o)
    } else if kind_at(t, o.pos) != TokenKind::RParen {
        let first = sp_arm_binding(t, o.pos);
        match first.out {
            Err(e) => Step { out: Err(e), pos: first.pos },
            Ok(b) => sp_arm_binding_list_rest(t, first.pos, seq![b]),
        }
    } else {
        let c = sp_expect(t, o.pos, TokenKind::RParen);
        if c.out is Err {
            failed(c)
        } else {
            ok(Seq::empty(), c.pos)
        }
    }
}

pub open spec fn sp_arm_binding_list_rest<'a>(t: Toks<'a>, p: int, acc: Seq<ABV<'a>>) -> Step<'a, Seq<ABV<'a>>>
    decreases t.len() - p,
{
    if kind_at(t, p) == TokenKind::Comma {
        let p1 = adv(t, p);
        let x = sp_arm_binding(t, p1);
        match x.out {
            Err(e) => Step { out: Err(e), pos: x.pos },
            Ok(b) => if !advanced(t, p, x.pos) {
                stuck(t, x.pos)
            } else {
                sp_arm_binding_list_rest(t, x.pos, acc.push(b))
            },
        }
    } else {
        let c = sp_expect(t, p, TokenKind::RParen);
        if c.out is Err {
            failed(c)
        } else {
            ok(acc, c.pos)
        }
    }
}


// ─── expressions ────────────────────────────────────────────────────

/// The binding power of the token kind in infix position: `|>` 1, `||` 2,
/// `&&` 3, equality 4, comparisons 5, additive 6, multiplicative 7, call 8;
/// -1 for a token that does not continue an expression.
pub open spec fn prec_of(k: TokenKind) -> int {
    match k {
        TokenKind::Times | TokenKind::Divide | TokenKind::FTimes | TokenKind::FDivide => 7,
        TokenKind::Plus | TokenKind::Minus | TokenKind::FPlus | TokenKind::FMinus => 6,
        TokenKind::LessThan | TokenKind::LessThanOrEq | TokenKind::GreaterThan
        | TokenKind::GreaterThanOrEq | TokenKind::FLessThan | TokenKind::FLessThanOrEq
        | TokenKind::FGreaterThan | TokenKind::FGreaterThanOrEq => 5,
        TokenKind::Eq | TokenKind::NotEq => 4,
        TokenKind::And => 3,
        TokenKind::Or => 2,
        TokenKind::Pipe => 1,
        TokenKind::LParen => 8,
        _ => -1,
    }
}

/// The operator a binary-operator token stands for.
pub open spec fn binop_of(k: TokenKind) -> BinOp {
    match k {
        TokenKind::Plus => BinOp::Plus,
        TokenKind::Minus => BinOp::Minus,
        TokenKind::Times => BinOp::Mult,
        TokenKind::Divide => BinOp::Div,
        TokenKind::FPlus => BinOp::FPlus,
        TokenKind::FMinus => BinOp::FMinus,
        TokenKind::FTimes => BinOp::FMult,
        TokenKind::FDivide => BinOp::FDiv,
        TokenKind::Pipe => BinOp::Pipe,
        TokenKind::LessThan => BinOp::Less,
        TokenKind::LessThanOrEq => BinOp::LessEq,
        TokenKind::GreaterThan => BinOp::Greater,
        TokenKind::GreaterThanOrEq => BinOp::GreaterEq,
        TokenKind::FLessThan => BinOp::FLess,
        TokenKind::FLessThanOrEq => BinOp::FLessEq,
        TokenKind::FGreaterThan => BinOp::FGreater,
        TokenKind::FGreaterThanOrEq => BinOp::FGreaterEq,
        TokenKind::Eq => BinOp::Eq,
        TokenKind::NotEq => BinOp::NotEq,
        TokenKind::Or => BinOp::Or,
        _ => BinOp::And,
    }
}

pub open spec fn mk_expr<'a>(offset: usize, kind: ExprKindV<'a, ()>) -> EV<'a> {
    Spanned { offset, node: ExprV { ann: (), kind } }
}

/// The token kinds that can start an expression.
pub open spec fn expr_start_kinds() -> Seq<TokenKind> {
    seq![
        TokenKind::Int,
        TokenKind::Float,
        TokenKind::Bool,
        TokenKind::Id,
        TokenKind::Minus,
        TokenKind::FMinus,
        TokenKind::Not,
        TokenKind::LParen,
        TokenKind::Fn,
        TokenKind::If,
        TokenKind::Match,
    ]
}

/// `<expr>`: an expression with no precedence floor.
pub open spec fn sp_expr<'a>(t: Toks<'a>, p: int) -> Step<'a, EV<'a>>
    decreases t.len() - p, 6int,
{
    sp_expr_prec(t, p, -1)
}

/// An expression whose infix operators all bind tighter than `min`.
pub open spec fn sp_expr_prec<'a>(t: Toks<'a>, p: int, min: int) -> Step<'a, EV<'a>>
    decreases t.len() - p, 5int,
{
    let n = sp_null(t, p);
    match n.out {
        Err(e) => Step { out: Err(e), pos: n.pos },
        Ok(left) => if !advanced(t, p, n.pos) {
            stuck(t, n.pos)
        } else {
            sp_infix(t, n.pos, min, left)
        },
    }
}

/// Extends `left` with calls and infix operators binding tighter than `min`;
/// operators of equal strength associate to the left.
pub open spec fn sp_infix<'a>(t: Toks<'a>, p: int, min: int, left: EV<'a>) -> Step<'a, EV<'a>>
    decreases t.len() - p, 2int,
{
    let k = kind_at(t, p);
    let prec = prec_of(k);
    if prec <= min {
        ok(left, p)
    } else if k == TokenKind::LParen {
        let c = sp_call(t, p, left);
        match c.out {
            Err(e) => Step { out: Err(e), pos: c.pos },
            Ok(l2) => if !advanced(t, p, c.pos) {
                stuck(t, c.pos)
            } else {
                sp_infix(t, c.pos, min, l2)
            },
        }
    } else {
        let p1 = adv(t, p);
        if !advanced(t, p, p1) {
            stuck(t, p1)
        } else {
            let r = sp_expr_prec(t, p1, prec);
            match r.out {
                Err(e) => Step { out: Err(e), pos: r.pos },
                Ok(right) => if !advanced(t, p, r.pos) {
                    stuck(t, r.pos)
                } else {
                    sp_infix(
                        t,
                        r.pos,
                        min,
                        mk_expr(
                            left.offset,
                            ExprKindV::Binary(binop_of(k), Box::new(left), Box::new(right)),
                        ),
                    )
                },
            }
        }
    }
}

/// `<left>( <expr>, ... )`
pub open spec fn sp_call<'a>(t: Toks<'a>, p: int, left: EV<'a>) -> Step<'a, EV<'a>>
    decreases t.len() - p, 1int,
{
    let o = sp_expect(t, p, TokenKind::LParen);
    if o.out is Err {
        failed(o)
    } else if !advanced(t, p, o.pos) {
        stuck(t, o.pos)
    } else if kind_at(t, o.pos) != TokenKind::RParen {
        let first = sp_expr(t, o.pos);
        match first.out {
            Err(e) => Step { out: Err(e), pos: first.pos },
            Ok(a) => if !advanced(t, p, first.pos) {
                stuck(t, first.pos)
            } else {
                let rest = sp_args_rest(t, first.pos, seq![a]);
                match rest.out {
                    Err(e) => Step { out: Err(e), pos: rest.pos },
                    Ok(args) => ok(mk_expr(left.offset, ExprKindV::Call(Box::new(left), args)), rest.pos),
                }
            },
        }
    } else {
        let c = sp_expect(t, o.pos, TokenKind::RParen);
        if c.out is Err {
            failed(c)
        } else {
            ok(mk_expr(left.offset, ExprKindV::Call(Box::new(left), Seq::empty())), c.pos)
        }
    }
}

/// `, <expr> ... )` after the first argument of a call.
pub open spec fn sp_args_rest<'a>(t: Toks<'a>, p: int, acc: Seq<EV<'a>>) -> Step<'a, Seq<EV<'a>>>
    decreases t.len() - p, 0int,
{
    if kind_at(t, p) == TokenKind::Comma {
        let p1 = adv(t, p);
        if !advanced(t, p, p1) {
            stuck(t, p1)
        } else {
            let x = sp_expr(t, p1);
            match x.out {
                Err(e) => Step { out: Err(e), pos: x.pos },
                Ok(a) => if !advanced(t, p, x.pos) {
                    stuck(t, x.pos)
                } else {
                    sp_args_rest(t, x.pos, acc.push(a))
                },
            }
        }
    } else {
        let c = sp_expect(t, p, TokenKind::RParen);
        if c.out is Err {
            failed(c)
        } else {
            ok(acc, c.pos)
        }
    }
}

/// An expression's first part: a literal, identifier, prefix operator,
/// parenthesised expression, closure, conditional or match.
pub open spec fn sp_null<'a>(t: Toks<'a>, p: int) -> Step<'a, EV<'a>>
    decreases t.len() - p, 4int,
{
    match kind_at(t, p) {
        TokenKind::Int | TokenKind::Float | TokenKind::Bool | TokenKind::Id => sp_atom(t, p),
        TokenKind::Minus | TokenKind::FMinus | TokenKind::Not => sp_unary(t, p),
        TokenKind::LParen => sp_paren(t, p),
        TokenKind::Fn => sp_closure(t, p),
        TokenKind::If => sp_if(t, p),
        TokenKind::Match => sp_match(t, p),
        _ => fail(t, p, expr_start_kinds()),
    }
}

/// A literal or identifier.
pub open spec fn sp_atom<'a>(t: Toks<'a>, p: int) -> Step<'a, EV<'a>> {
    let loc = t[p].offset;
    match t[p].node {
        Token::Int(v) => ok(mk_expr(loc, ExprKindV::Int(v)), adv(t, p)),
        Token::Float(x) => ok(mk_expr(loc, ExprKindV::Float(x)), adv(t, p)),
        Token::Bool(b) => ok(mk_expr(loc, ExprKindV::Bool(b)), adv(t, p)),
        Token::Id(x) => ok(mk_expr(loc, ExprKindV::Id(x)), adv(t, p)),
        _ => stuck(t, p),
    }
}

/// `- <expr>`, `-. <expr>` or `! <expr>`; the operand binds as tightly as a
/// multiplication.
pub open spec fn sp_unary<'a>(t: Toks<'a>, p: int) -> Step<'a, EV<'a>>
    decreases t.len() - p, 3int,
{
    let loc = t[p].offset;
    let k = kind_at(t, p);
    let p1 = adv(t, p);
    if !advanced(t, p, p1) {
        stuck(t, p1)
    } else {
        let e = sp_expr_prec(t, p1, 7);
        match e.out {
            Err(err) => Step { out: Err(err), pos: e.pos },
            Ok(x) => {
                let op = if k == TokenKind::Minus {
                    UnOp::Neg
                } else if k == TokenKind::FMinus {
                    UnOp::FNeg
                } else {
                    UnOp::Bang
                };
                ok(mk_expr(loc, ExprKindV::Unary(op, Box::new(x))), e.pos)
            },
        }
    }
}

/// `( <expr> )`, located at the opening parenthesis.
pub open spec fn sp_paren<'a>(t: Toks<'a>, p: int) -> Step<'a, EV<'a>>
    decreases t.len() - p, 3int,
{
    let o = sp_expect(t, p, TokenKind::LParen);
    if o.out is Err {
        failed(o)
    } else if !advanced(t, p, o.pos) {
        stuck(t, o.pos)
    } else {
        let e = sp_expr(t, o.pos);
        match e.out {
            Err(err) => Step { out: Err(err), pos: e.pos },
            Ok(x) => {
                let c = sp_expect(t, e.pos, TokenKind::RParen);
                if c.out is Err {
                    failed(c)
                } else {
                    ok(Spanned { offset: t[p].offset, node: x.node }, c.pos)
                }
            },
        }
    }
}

/// `fn ( <binding> ) -> <expr>`
pub open spec fn sp_closure<'a>(t: Toks<'a>, p: int) -> Step<'a, EV<'a>>
    decreases t.len() - p, 3int,
{
    let f = sp_expect(t, p, TokenKind::Fn);
    if f.out is Err {
        failed(f)
    } else {
        let o = sp_expect(t, f.pos, TokenKind::LParen);
        if o.out is Err {
            failed(o)
        } else {
            let b = sp_binding(t, o.pos);
            match b.out {
                Err(e) => Step { out: Err(e), pos: b.pos },
                Ok(binding) => {
                    let c = sp_expect(t, b.pos, TokenKind::RParen);
                    if c.out is Err {
                        failed(c)
                    } else {
                        let a = sp_expect(t, c.pos, TokenKind::Arrow);
                        if a.out is Err {
                            failed(a)
                        } else if !advanced(t, p, a.pos) {
                            stuck(t, a.pos)
                        } else {
                            let body = sp_expr(t, a.pos);
                            match body.out {
                                Err(e) => Step { out: Err(e), pos: body.pos },
                                Ok(x) => ok(
                                    mk_expr(t[p].offset, ExprKindV::Fn(binding, Box::new(x))),
                                    body.pos,
                                ),
                            }
                        }
                    }
                },
            }
        }
    }
}

/// `if <expr> then <expr> else <expr>`
pub open spec fn sp_if<'a>(t: Toks<'a>, p: int) -> Step<'a, EV<'a>>
    decreases t.len() - p, 3int,
{
    let i = sp_expect(t, p, TokenKind::If);
    if i.out is Err {
        failed(i)
    } else if !advanced(t, p, i.pos) {
        stuck(t, i.pos)
    } else {
        let c = sp_expr(t, i.pos);
        match c.out {
            Err(e) => Step { out: Err(e), pos: c.pos },
            Ok(cond) => {
                let th = sp_expect(t, c.pos, TokenKind::Then);
                if th.out is Err {
                    failed(th)
                } else if !advanced(t, p, th.pos) {
                    stuck(t, th.pos)
                } else {
                    let a = sp_expr(t, th.pos);
                    match a.out {
                        Err(e) => Step { out: Err(e), pos: a.pos },
                        Ok(thenb) => {
                            let el = sp_expect(t, a.pos, TokenKind::Else);
                            if el.out is Err {
                                failed(el)
                            } else if !advanced(t, p, el.pos) {
                                stuck(t, el.pos)
                            } else {
                                let b = sp_expr(t, el.pos);
                                match b.out {
                                    Err(e) => Step { out: Err(e), pos: b.pos },
                                    Ok(elseb) => ok(
                                        mk_expr(
                                            t[p].offset,
                                            ExprKindV::If(
                                                Box::new(cond),
                                                Box::new(thenb),
                                                Box::new(elseb),
                                            ),
                                        ),
                                        b.pos,
                                    ),
                                }
                            }
                        },
                    }
                }
            },
        }
    }
}

/// `match <expr> { <arm>, ... }`
pub open spec fn sp_match<'a>(t: Toks<'a>, p: int) -> Step<'a, EV<'a>>
    decreases t.len() - p, 3int,
{
    let m = sp_expect(t, p, TokenKind::Match);
    if m.out is Err {
        failed(m)
    } else if !advanced(t, p, m.pos) {
        stuck(t, m.pos)
    } else {
        let s = sp_expr(t, m.pos);
        match s.out {
            Err(e) => Step { out: Err(e), pos: s.pos },
            Ok(scrutinee) => {
                let o = sp_expect(t, s.pos, TokenKind::LBrace);
                if o.out is Err {
                    failed(o)
                } else if !advanced(t, p, o.pos) {
                    stuck(t, o.pos)
                } else {
                    let arms = sp_arms(t, o.pos, Seq::empty());
                    match arms.out {
                        Err(e) => Step { out: Err(e), pos: arms.pos },
                        Ok(av) => {
                            let c = sp_expect(t, arms.pos, TokenKind::RBrace);
                            if c.out is Err {
                                failed(c)
                            } else {
                                ok(mk_expr(t[p].offset, ExprKindV::Match(Box::new(scrutinee), av)), c.pos)
                            }
                        },
                    }
                }
            },
        }
    }
}

/// Match arms `<id>(<pattern variable>, ...) -> <expr>`, separated by
/// commas (a trailing comma is allowed), up to the closing brace.
pub open spec fn sp_arms<'a>(t: Toks<'a>, p: int, acc: Seq<ArmV<'a, ()>>) -> Step<'a, Seq<ArmV<'a, ()>>>
    decreases t.len() - p, 0int,
{
    if kind_at(t, p) == TokenKind::RBrace {
        ok(acc, p)
    } else {
        let c = sp_expect_id(t, p);
        match c.out {
            Err(e) => Step { out: Err(e), pos: c.pos },
            Ok(ctor) => {
                let bs = sp_arm_binding_list(t, c.pos);
                match bs.out {
                    Err(e) => Step { out: Err(e), pos: bs.pos },
                    Ok(bindings) => {
                        let a = sp_expect(t, bs.pos, TokenKind::Arrow);
                        if a.out is Err {
                            failed(a)
                        } else if !advanced(t, p, a.pos) {
                            stuck(t, a.pos)
                        } else {
                            let body = sp_expr(t, a.pos);
                            match body.out {
                                Err(e) => Step { out: Err(e), pos: body.pos },
                                Ok(x) => {
                                    let arm = ArmV { ctor, bindings, body: x };
                                    if kind_at(t, body.pos) == TokenKind::Comma {
                                        let q = adv(t, body.pos);
                                        if !advanced(t, p, q) {
                                            stuck(t, q)
                                        } else {
                                            sp_arms(t, q, acc.push(arm))
                                        }
                                    } else {
                                        ok(acc.push(arm), body.pos)
                                    }
                                },
                            }
                        }
                    },
                }
            },
        }
    }
}


// ─── statements ─────────────────────────────────────────────────────

pub open spec fn stmt_start_kinds() -> Seq<TokenKind> {
    seq![TokenKind::Let, TokenKind::Read, TokenKind::Echo, TokenKind::Return]
}

pub open spec fn mk_stmt<'a>(offset: usize, s: StmtV<'a, ()>) -> SV<'a> {
    Spanned { offset, node: s }
}

/// `let <id> = <expr>;`, `read <type> <id>;`, `echo <type> <expr>;` or
/// `return <expr>;`
pub open spec fn sp_stmt<'a>(t: Toks<'a>, p: int) -> Step<'a, SV<'a>> {
    let loc = t[p].offset;
    match kind_at(t, p) {
        TokenKind::Let => {
            let id = sp_expect_id(t, adv(t, p));
            match id.out {
                Err(e) => Step { out: Err(e), pos: id.pos },
                Ok(x) => {
                    let a = sp_expect(t, id.pos, TokenKind::Assign);
                    if a.out is Err {
                        failed(a)
                    } else {
                        let e = sp_expr(t, a.pos);
                        match e.out {
                            Err(err) => Step { out: Err(err), pos: e.pos },
                            Ok(v) => {
                                let c = sp_expect(t, e.pos, TokenKind::Semicolon);
                                if c.out is Err {
                                    failed(c)
                                } else {
                                    ok(mk_stmt(loc, StmtV::Let(x, v)), c.pos)
                                }
                            },
                        }
                    }
                },
            }
        },
        TokenKind::Read => {
            let ty = sp_type(t, adv(t, p));
            match ty.out {
                Err(e) => Step { out: Err(e), pos: ty.pos },
                Ok(tv) => {
                    let id = sp_expect_id(t, ty.pos);
                    match id.out {
                        Err(e) => Step { out: Err(e), pos: id.pos },
                        Ok(x) => {
                            let c = sp_expect(t, id.pos, TokenKind::Semicolon);
                            if c.out is Err {
                                failed(c)
                            } else {
                                ok(mk_stmt(loc, StmtV::Read(tv, x)), c.pos)
                            }
                        },
                    }
                },
            }
        },
        TokenKind::Echo => {
            let ty = sp_type(t, adv(t, p));
            match ty.out {
                Err(e) => Step { out: Err(e), pos: ty.pos },
                Ok(tv) => {
                    let e = sp_expr(t, ty.pos);
                    match e.out {
                        Err(err) => Step { out: Err(err), pos: e.pos },
                        Ok(v) => {
                            let c = sp_expect(t, e.pos, TokenKind::Semicolon);
                            if c.out is Err {
                                failed(c)
                            } else {
                                ok(mk_stmt(loc, StmtV::Echo(tv, v)), c.pos)
                            }
                        },
                    }
                },
            }
        },
        TokenKind::Return => {
            let e = sp_expr(t, adv(t, p));
            match e.out {
                Err(err) => Step { out: Err(err), pos: e.pos },
                Ok(v) => {
                    let c = sp_expect(t, e.pos, TokenKind::Semicolon);
                    if c.out is Err {
                        failed(c)
                    } else {
                        ok(mk_stmt(loc, StmtV::Return(v)), c.pos)
                    }
                },
            }
        },
        _ => fail(t, p, stmt_start_kinds()),
    }
}

/// Error recovery: skips tokens up to the next `}`, statement keyword, or
/// the end of input.
pub open spec fn sp_synchronize(t: Toks, p: int) -> int
    decreases t.len() - p,
{
    match kind_at(t, p) {
        TokenKind::EoF | TokenKind::RBrace | TokenKind::Let | TokenKind::Read | TokenKind::Echo
        | TokenKind::Return => p,
        _ => if advanced(t, p, adv(t, p)) {
            sp_synchronize(t, adv(t, p))
        } else {
            p
        },
    }
}

/// The statements of a function body, up to the closing brace. A malformed
/// statement is skipped by `sp_synchronize`; if that makes no progress
/// either, the statement's error is the result.
pub open spec fn sp_body<'a>(t: Toks<'a>, p: int, acc: Seq<SV<'a>>) -> Step<'a, Seq<SV<'a>>>
    decreases t.len() - p,
{
    if kind_at(t, p) == TokenKind::RBrace {
        ok(acc, p)
    } else {
        let st = sp_stmt(t, p);
        match st.out {
            Ok(x) => if !advanced(t, p, st.pos) {
                stuck(t, st.pos)
            } else {
                sp_body(t, st.pos, acc.push(x))
            },
            Err(e) => {
                let q = sp_synchronize(t, st.pos);
                if !advanced(t, p, q) {
                    Step { out: Err(e), pos: q }
                } else {
                    sp_body(t, q, acc)
                }
            },
        }
    }
}

// ─── definitions ────────────────────────────────────────────────────

pub open spec fn defn_start_kinds() -> Seq<TokenKind> {
    seq![TokenKind::Fn, TokenKind::Typedef]
}

/// `<id>(<binding>, ...)`
pub open spec fn sp_fn_sig<'a>(t: Toks<'a>, p: int) -> Step<'a, (&'a str, Seq<BV<'a>>)> {
    let id = sp_expect_id(t, p);
    match id.out {
        Err(e) => Step { out: Err(e), pos: id.pos },
        Ok(x) => {
            let bs = sp_binding_list(t, id.pos);
            match bs.out {
                Err(e) => Step { out: Err(e), pos: bs.pos },
                Ok(b) => ok((x, b), bs.pos),
            }
        },
    }
}

/// `( <'param>, ... )` after a type name in a type definition.
pub open spec fn sp_type_params<'a>(t: Toks<'a>, p: int) -> Step<'a, Seq<&'a str>> {
    let o = sp_expect(t, p, TokenKind::LParen);
    if o.out is Err {
        failed(o)
    } else if kind_at(t, o.pos) != TokenKind::RParen {
        let first = sp_expect_type_param(t, o.pos);
        match first.out {
            Err(e) => Step { out: Err(e), pos: first.pos },
            Ok(x) => sp_type_params_rest(t, first.pos, seq![x]),
        }
    } else {
        let c = sp_expect(t, o.pos, TokenKind::RParen);
        if c.out is Err {
            failed(c)
        } else {
            ok(Seq::empty(), c.pos)
        }
    }
}

pub open spec fn sp_type_params_rest<'a>(t: Toks<'a>, p: int, acc: Seq<&'a str>) -> Step<'a, Seq<&'a str>>
    decreases t.len() - p,
{
    if kind_at(t, p) == TokenKind::Comma {
        let x = sp_expect_type_param(t, adv(t, p));
        match x.out {
            Err(e) => Step { out: Err(e), pos: x.pos },
            Ok(v) => if !advanced(t, p, x.pos) {
                stuck(t, x.pos)
            } else {
                sp_type_params_rest(t, x.pos, acc.push(v))
            },
        }
    } else {
        let c = sp_expect(t, p, TokenKind::RParen);
        if c.out is Err {
            failed(c)
        } else {
            ok(acc, c.pos)
        }
    }
}

/// `, <id>(<binding>, ...) ...` after the first constructor.
pub open spec fn sp_ctors_rest<'a>(t: Toks<'a>, p: int, acc: Seq<(&'a str, Seq<BV<'a>>)>) -> Step<
    'a,
    Seq<(&'a str, Seq<BV<'a>>)>,
>
    decreases t.len() - p,
{
    if kind_at(t, p) == TokenKind::Comma {
        let x = sp_fn_sig(t, adv(t, p));
        match x.out {
            Err(e) => Step { out: Err(e), pos: x.pos },
            Ok(v) => if !advanced(t, p, x.pos) {
                stuck(t, x.pos)
            } else {
                sp_ctors_rest(t, x.pos, acc.push(v))
            },
        }
    } else {
        ok(acc, p)
    }
}

/// `typedef <TypeId> ( <'param>, ... )? { <id>(<binding>, ...), ... }`
pub open spec fn sp_typedef<'a>(t: Toks<'a>, p: int) -> Step<'a, DV<'a>> {
    let name = sp_expect_typeid(t, adv(t, p));
    match name.out {
        Err(e) => Step { out: Err(e), pos: name.pos },
        Ok(id) => {
            let params: Step<'a, Seq<&'a str>> = if kind_at(t, name.pos) == TokenKind::LParen {
                sp_type_params(t, name.pos)
            } else {
                ok(Seq::empty(), name.pos)
            };
            match params.out {
                Err(e) => Step { out: Err(e), pos: params.pos },
                Ok(ty_vars) => {
                    let o = sp_expect(t, params.pos, TokenKind::LBrace);
                    if o.out is Err {
                        failed(o)
                    } else {
                        let ctors: Step<'a, Seq<(&'a str, Seq<BV<'a>>)>> = if kind_at(t, o.pos)
                            != TokenKind::RBrace {
                            let first = sp_fn_sig(t, o.pos);
                            match first.out {
                                Err(e) => Step { out: Err(e), pos: first.pos },
                                Ok(v) => sp_ctors_rest(t, first.pos, seq![v]),
                            }
                        } else {
                            ok(Seq::empty(), o.pos)
                        };
                        match ctors.out {
                            Err(e) => Step { out: Err(e), pos: ctors.pos },
                            Ok(arms) => {
                                let c = sp_expect(t, ctors.pos, TokenKind::RBrace);
                                if c.out is Err {
                                    failed(c)
                                } else {
                                    ok(
                                        Spanned {
                                            offset: t[p].offset,
                                            node: DefnV::Typedef { id, ty_vars, arms },
                                        },
                                        c.pos,
                                    )
                                }
                            },
                        }
                    }
                },
            }
        },
    }
}

/// `fn <id>(<binding>, ...) -> <type> { <stmt> ... }`
pub open spec fn sp_fndef<'a>(t: Toks<'a>, p: int) -> Step<'a, DV<'a>> {
    let sig = sp_fn_sig(t, adv(t, p));
    match sig.out {
        Err(e) => Step { out: Err(e), pos: sig.pos },
        Ok(header) => {
            let a = sp_expect(t, sig.pos, TokenKind::Arrow);
            if a.out is Err {
                failed(a)
            } else {
                let ret = sp_type(t, a.pos);
                match ret.out {
                    Err(e) => Step { out: Err(e), pos: ret.pos },
                    Ok(ret_ty) => {
                        let o = sp_expect(t, ret.pos, TokenKind::LBrace);
                        if o.out is Err {
                            failed(o)
                        } else {
                            let body = sp_body(t, o.pos, Seq::empty());
                            match body.out {
                                Err(e) => Step { out: Err(e), pos: body.pos },
                                Ok(stmts) => {
                                    let c = sp_expect(t, body.pos, TokenKind::RBrace);
                                    if c.out is Err {
                                        failed(c)
                                    } else {
                                        ok(
                                            Spanned {
                                                offset: t[p].offset,
                                                node: DefnV::Fn {
                                                    name: header.0,
                                                    bindings: header.1,
                                                    ret_ty,
                                                    body: stmts,
                                                },
                                            },
                                            c.pos,
                                        )
                                    }
                                },
                            }
                        }
                    },
                }
            }
        },
    }
}

/// A function or type definition.
pub open spec fn sp_defn<'a>(t: Toks<'a>, p: int) -> Step<'a, DV<'a>> {
    match kind_at(t, p) {
        TokenKind::Fn => sp_fndef(t, p),
        TokenKind::Typedef => sp_typedef(t, p),
        _ => fail(t, p, defn_start_kinds()),
    }
}

/// Definitions up to the end of input.
pub open spec fn sp_program<'a>(t: Toks<'a>, p: int, acc: Seq<DV<'a>>) -> Step<'a, Seq<DV<'a>>>
    decreases t.len() - p,
{
    if kind_at(t, p) == TokenKind::EoF {
        ok(acc, p)
    } else {
        let d = sp_defn(t, p);
        match d.out {
            Err(e) => Step { out: Err(e), pos: d.pos },
            Ok(x) => if !advanced(t, p, d.pos) {
                stuck(t, d.pos)
            } else {
                sp_program(t, d.pos, acc.push(x))
            },
        }
    }
}


// ─── laws ───────────────────────────────────────────────────────────

/// A literal or identifier token.
pub open spec fn is_atom_token(tok: SpannedToken) -> bool {
    let k = token_kind(tok.node);
    k == TokenKind::Int || k == TokenKind::Float || k == TokenKind::Bool || k == TokenKind::Id
}

/// A token of a binary operator (every infix token but the call's `(`).
pub open spec fn is_binop_kind(k: TokenKind) -> bool {
    1 <= prec_of(k) <= 7
}

/// The expression a literal or identifier token stands for.
pub open spec fn atom_expr<'a>(tok: SpannedToken<'a>) -> EV<'a> {
    match tok.node {
        Token::Int(v) => mk_expr(tok.offset, ExprKindV::Int(v)),
        Token::Float(x) => mk_expr(tok.offset, ExprKindV::Float(x)),
        Token::Bool(b) => mk_expr(tok.offset, ExprKindV::Bool(b)),
        _ => mk_expr(tok.offset, ExprKindV::Id(tok.node->Id_0)),
    }
}

/// The binary operation of token kind `k` on `l` and `r`, located at `l`.
pub open spec fn binary<'a>(k: TokenKind, l: EV<'a>, r: EV<'a>) -> EV<'a> {
    mk_expr(l.offset, ExprKindV::Binary(binop_of(k), Box::new(l), Box::new(r)))
}

proof fn lemma_atom_then_end<'a>(t: Toks<'a>, p: int, min: int)
    requires
        0 <= p,
        p + 1 < t.len(),
        is_atom_token(t[p]),
        prec_of(kind_at(t, p + 1)) <= min,
    ensures
        sp_expr_prec(t, p, min) == ok(atom_expr(t[p]), p + 1),
{
    assert(sp_null(t, p) == sp_atom(t, p));
    assert(sp_atom(t, p) == ok(atom_expr(t[p]), p + 1));
    assert(sp_infix(t, p + 1, min, atom_expr(t[p])) == ok(atom_expr(t[p]), p + 1));
}

/// Precedence and associativity: in `a op1 b op2 c`, an `op2` that binds
/// more tightly than `op1` takes `b` as its left operand; otherwise (equal
/// strength included) `op1` first combines `a` and `b`. Each operation is
/// located at its left operand, and the whole input is consumed.
pub proof fn lemma_infix_grouping<'a>(t: Toks<'a>)
    requires
        t.len() == 6,
        is_atom_token(t[0]),
        is_atom_token(t[2]),
        is_atom_token(t[4]),
        is_binop_kind(kind_at(t, 1)),
        is_binop_kind(kind_at(t, 3)),
        kind_at(t, 5) == TokenKind::EoF,
    ensures
        prec_of(kind_at(t, 1)) < prec_of(kind_at(t, 3)) ==> sp_expr(t, 0) == ok(
            binary(kind_at(t, 1), atom_expr(t[0]), binary(kind_at(t, 3), atom_expr(t[2]), atom_expr(t[4]))),
            5,
        ),
        prec_of(kind_at(t, 1)) >= prec_of(kind_at(t, 3)) ==> sp_expr(t, 0) == ok(
            binary(kind_at(t, 3), binary(kind_at(t, 1), atom_expr(t[0]), atom_expr(t[2])), atom_expr(t[4])),
            5,
        ),
{
    let k1 = kind_at(t, 1);
    let k3 = kind_at(t, 3);
    let (a0, a2, a4) = (atom_expr(t[0]), atom_expr(t[2]), atom_expr(t[4]));
    assert(prec_of(TokenKind::EoF) == -1);
    assert(sp_null(t, 0) == sp_atom(t, 0));
    assert(sp_atom(t, 0) == ok(a0, 1));
    assert(sp_null(t, 2) == sp_atom(t, 2));
    assert(sp_atom(t, 2) == ok(a2, 3));
    lemma_atom_then_end(t, 4, prec_of(k3));
    assert(sp_expr(t, 0) == sp_infix(t, 1, -1, a0));
    if prec_of(k1) < prec_of(k3) {
        let inner = binary(k3, a2, a4);
        assert(sp_infix(t, 5, prec_of(k1), inner) == ok(inner, 5));
        assert(sp_infix(t, 3, prec_of(k1), a2) == ok(inner, 5));
        assert(sp_expr_prec(t, 2, prec_of(k1)) == ok(inner, 5));
        assert(sp_infix(t, 5, -1, binary(k1, a0, inner)) == ok(binary(k1, a0, inner), 5));
    } else {
        let left = binary(k1, a0, a2);
        lemma_atom_then_end(t, 2, prec_of(k1));
        assert(sp_infix(t, 5, -1, binary(k3, left, a4)) == ok(binary(k3, left, a4), 5));
        assert(sp_infix(t, 3, -1, left) == ok(binary(k3, left, a4), 5));
    }
}

/// The operation a prefix-operator token stands for.
pub open spec fn prefix_op(k: TokenKind) -> UnOp {
    if k == TokenKind::Minus {
        UnOp::Neg
    } else if k == TokenKind::FMinus {
        UnOp::FNeg
    } else {
        UnOp::Bang
    }
}

/// Prefix operators bind more tightly than every binary operator: `-a op b`
/// applies `-` to `a` alone, at the operator's offset.
pub proof fn lemma_prefix_binds_tightest<'a>(t: Toks<'a>)
    requires
        t.len() == 5,
        kind_at(t, 0) == TokenKind::Minus || kind_at(t, 0) == TokenKind::FMinus || kind_at(t, 0) == TokenKind::Not,
        is_atom_token(t[1]),
        is_binop_kind(kind_at(t, 2)),
        is_atom_token(t[3]),
        kind_at(t, 4) == TokenKind::EoF,
    ensures
        sp_expr(t, 0) == ok(
            binary(
                kind_at(t, 2),
                mk_expr(t[0].offset, ExprKindV::Unary(prefix_op(kind_at(t, 0)), Box::new(atom_expr(t[1])))),
                atom_expr(t[3]),
            ),
            4,
        ),
{
    let k2 = kind_at(t, 2);
    let u = mk_expr(t[0].offset, ExprKindV::Unary(prefix_op(kind_at(t, 0)), Box::new(atom_expr(t[1]))));
    assert(prec_of(TokenKind::EoF) == -1);
    lemma_atom_then_end(t, 1, 7);
    assert(sp_null(t, 0) == sp_unary(t, 0));
    assert(sp_unary(t, 0) == ok(u, 2));
    lemma_atom_then_end(t, 3, prec_of(k2));
    assert(sp_infix(t, 4, -1, binary(k2, u, atom_expr(t[3]))) == ok(binary(k2, u, atom_expr(t[3])), 4));
    assert(sp_infix(t, 2, -1, u) == ok(binary(k2, u, atom_expr(t[3])), 4));
}

/// `*  /  *.  /.`
pub open spec fn is_multiplicative(k: TokenKind) -> bool {
    k == TokenKind::Times || k == TokenKind::Divide || k == TokenKind::FTimes || k == TokenKind::FDivide
}

/// `+  -  +.  -.`
pub open spec fn is_additive(k: TokenKind) -> bool {
    k == TokenKind::Plus || k == TokenKind::Minus || k == TokenKind::FPlus || k == TokenKind::FMinus
}

/// `<  <=  >  >=  <.  <=.  >.  >=.`
pub open spec fn is_comparison(k: TokenKind) -> bool {
    k == TokenKind::LessThan || k == TokenKind::LessThanOrEq || k == TokenKind::GreaterThan || k
        == TokenKind::GreaterThanOrEq || k == TokenKind::FLessThan || k == TokenKind::FLessThanOrEq || k
        == TokenKind::FGreaterThan || k == TokenKind::FGreaterThanOrEq
}

/// `==  !=`
pub open spec fn is_equality(k: TokenKind) -> bool {
    k == TokenKind::Eq || k == TokenKind::NotEq
}

/// The operator classes from the loosest to the tightest: `|>`, `||`,
/// `&&`, equality, comparison, additive, multiplicative.
pub open spec fn operator_class(k: TokenKind) -> int {
    if k == TokenKind::Pipe {
        1
    } else if k == TokenKind::Or {
        2
    } else if k == TokenKind::And {
        3
    } else if is_equality(k) {
        4
    } else if is_comparison(k) {
        5
    } else if is_additive(k) {
        6
    } else if is_multiplicative(k) {
        7
    } else {
        0
    }
}

/// Operator strength by class: in `a op1 b op2 c`, where each operator is
/// a binary operator of one of the classes `|>`, `||`, `&&`, equality,
/// comparison, additive, multiplicative (loosest first), an `op2` of a
/// tighter class than `op1` takes `b` as its left operand; one of the same
/// or a looser class leaves `op1` to combine `a` and `b` first. So every
/// comparison, integer or float, binds less tightly than every additive
/// operator, and every additive operator less tightly than every
/// multiplicative one.
pub proof fn lemma_operator_classes<'a>(t: Toks<'a>)
    requires
        t.len() == 6,
        is_atom_token(t[0]),
        is_atom_token(t[2]),
        is_atom_token(t[4]),
        operator_class(kind_at(t, 1)) > 0,
        operator_class(kind_at(t, 3)) > 0,
        kind_at(t, 5) == TokenKind::EoF,
    ensures
        operator_class(kind_at(t, 1)) < operator_class(kind_at(t, 3)) ==> sp_expr(t, 0) == ok(
            binary(kind_at(t, 1), atom_expr(t[0]), binary(kind_at(t, 3), atom_expr(t[2]), atom_expr(t[4]))),
            5,
        ),
        operator_class(kind_at(t, 1)) >= operator_class(kind_at(t, 3)) ==> sp_expr(t, 0) == ok(
            binary(kind_at(t, 3), binary(kind_at(t, 1), atom_expr(t[0]), atom_expr(t[2])), atom_expr(t[4])),
            5,
        ),
        is_additive(kind_at(t, 1)) && is_comparison(kind_at(t, 3)) ==> sp_expr(t, 0) == ok(
            binary(kind_at(t, 3), binary(kind_at(t, 1), atom_expr(t[0]), atom_expr(t[2])), atom_expr(t[4])),
            5,
        ),
        is_comparison(kind_at(t, 1)) && is_additive(kind_at(t, 3)) ==> sp_expr(t, 0) == ok(
            binary(kind_at(t, 1), atom_expr(t[0]), binary(kind_at(t, 3), atom_expr(t[2]), atom_expr(t[4]))),
            5,
        ),
{
    assert(prec_of(kind_at(t, 1)) == operator_class(kind_at(t, 1)));
    assert(prec_of(kind_at(t, 3)) == operator_class(kind_at(t, 3)));
    lemma_infix_grouping(t);
}

} // verus!
