//! The printed form of numbers, types, bindings and expressions.
use vstd::prelude::*;

use crate::ast::{
    lemma_view_arms_push, lemma_view_exprs_push, view_arm_binding, view_arm_bindings, view_arms,
    view_expr, view_exprs, view_type, view_types, ArmBindingV, ArmV, BinOp, Binding, BindingV,
    ExprKind, ExprKindV, ExprV, MatchArm, SpannedArmBinding, SpannedExpr, Type, TypeV, UnOp,
};
use crate::grammar::{binop_of, is_binop_kind, prefix_op};
use crate::lexer::{next_lexeme, Lexed};
use crate::spanned::Spanned;
use crate::token::TokenKind;

verus! {

/// Calls `String::push`, which appends one character.
#[verifier::external_body]
pub(crate) fn push_char(s: &mut String, c: char)
    ensures
        final(s)@ == old(s)@.push(c),
{
    s.push(c);
}

// ─── numbers ────────────────────────────────────────────────────────

pub open spec fn digit_char(d: nat) -> char {
    (('0' as u32) + d) as char
}

/// The decimal digits of `m`, most significant first, without leading zeros
/// (`0` is `"0"`).
pub open spec fn nat_text(m: nat) -> Seq<char>
    decreases m,
{
    if m < 10 {
        seq![digit_char(m)]
    } else {
        nat_text(m / 10).push(digit_char(m % 10))
    }
}

/// The decimal text of an integer, with a leading `-` when negative.
pub open spec fn int_text(n: int) -> Seq<char> {
    if n < 0 {
        seq!['-'] + nat_text((-n) as nat)
    } else {
        nat_text(n as nat)
    }
}

fn digit(d: u64) -> (c: char)
    requires
        d < 10,
    ensures
        c == digit_char(d as nat),
{
    match d {
        0 => '0',
        1 => '1',
        2 => '2',
        3 => '3',
        4 => '4',
        5 => '5',
        6 => '6',
        7 => '7',
        8 => '8',
        _ => '9',
    }
}

fn push_nat(s: &mut String, m: u64)
    ensures
        final(s)@ == old(s)@ + nat_text(m as nat),
    decreases m,
{
    if m >= 10 {
        push_nat(s, m / 10);
    }
    let c = digit(m % 10);
    push_char(s, c);
    proof {
        if m < 10 {
            assert(old(s)@ + nat_text(m as nat) =~= old(s)@.push(c));
        } else {
            assert((old(s)@ + nat_text((m / 10) as nat)).push(c) =~= old(s)@ + nat_text(m as nat));
        }
    }
}

/// Appends the decimal text of `m`.
pub(crate) fn push_nat_text(s: &mut String, m: u64)
    ensures
        final(s)@ == old(s)@ + nat_text(m as nat),
{
    push_nat(s, m);
}

/// The decimal text of `n`.
pub fn int_to_text(n: i64) -> (r: String)
    ensures
        r@ == int_text(n as int),
{
    let mut s = String::new();
    if n < 0 {
        push_char(&mut s, '-');
        let m: u64 = ((-(n + 1)) as u64) + 1;
        assert(m == -n);
        push_nat(&mut s, m);
        assert(s@ =~= seq!['-'] + nat_text((-n) as nat));
    } else {
        push_nat(&mut s, n as u64);
        assert(s@ =~= nat_text(n as nat));
    }
    s
}

// ─── types and bindings ─────────────────────────────────────────────

/// The printed form of a type: `int`, `float`, `bool`, a name, `T(A, B)`, or
/// `(A -> B)`.
pub open spec fn type_text<'a>(t: TypeV<'a>) -> Seq<char>
    decreases t,
{
    match t {
        TypeV::Int => "int"@,
        TypeV::Float => "float"@,
        TypeV::Bool => "bool"@,
        TypeV::TypeId(x) => x@,
        TypeV::TypeParam(x) => x@,
        TypeV::TypeApp(x, args) => x@ + "("@ + join_types(args) + ")"@,
        TypeV::Fn(a, b) => "("@ + type_text(*a) + " -> "@ + type_text(*b) + ")"@,
    }
}

/// The printed forms of `ts`, separated by `, `.
pub open spec fn join_types<'a>(ts: Seq<TypeV<'a>>) -> Seq<char>
    decreases ts,
{
    if ts.len() == 0 {
        Seq::empty()
    } else if ts.len() == 1 {
        type_text(ts[0])
    } else {
        join_types(ts.drop_last()) + ", "@ + type_text(ts.last())
    }
}

/// `<id>: <type>`.
pub open spec fn binding_text<'a>(b: BindingV<'a>) -> Seq<char> {
    b.id@ + ": "@ + type_text(b.typ)
}

/// `<id>` or `<id>: <type>`.
pub open spec fn arm_binding_text<'a>(b: ArmBindingV<'a>) -> Seq<char> {
    match b.typ {
        Some(t) => b.id@ + ": "@ + type_text(t),
        None => b.id@,
    }
}

proof fn lemma_view_types_take<'a>(ts: Seq<Type<'a>>, i: int)
    requires
        0 <= i < ts.len(),
    ensures
        view_types(ts.take(i + 1)) == view_types(ts.take(i)).push(view_type(ts[i])),
{
    assert(ts.take(i + 1) =~= ts.take(i).push(ts[i]));
    crate::ast::lemma_view_types_push(ts.take(i), ts[i]);
}

/// The printed form of a type.
#[verifier::loop_isolation(false)]
pub fn show_type<'a>(t: &Type<'a>) -> (r: String)
    ensures
        r@ == type_text(view_type(*t)),
    decreases *t,
{
    match t {
        Type::Int => String::from_str("int"),
        Type::Float => String::from_str("float"),
        Type::Bool => String::from_str("bool"),
        Type::TypeId(x) => String::from_str(x),
        Type::TypeParam(x) => String::from_str(x),
        Type::TypeApp(x, args) => {
            let mut s = String::from_str(x);
            s.append("(");
            let ghost head = s@;
            let mut i: usize = 0;
            assert(view_types(args@.take(0)) =~= Seq::<TypeV<'a>>::empty());
            while i < args.len()
                invariant
                    i <= args@.len(),
                    s@ == head + join_types(view_types(args@.take(i as int))),
                decreases args@.len() - i,
            {
                proof {
                    assert(*args == (*t)->TypeApp_1);
                    assert(decreases_to!(*t => (*t)->TypeApp_1));
                    assert(decreases_to!(*args => args@));
                    assert(decreases_to!(args@ => args@[i as int]));
                    lemma_view_types_take(args@, i as int);
                }
                let ghost before = s@;
                if i > 0 {
                    s.append(", ");
                }
                let part = show_type(&args[i]);
                s.append(part.as_str());
                proof {
                    let vs = view_types(args@.take(i + 1));
                    assert(vs.drop_last() == view_types(args@.take(i as int)));
                    assert(vs.last() == view_type(args@[i as int]));
                    if i == 0 {
                        assert(view_types(args@.take(0)) =~= Seq::<TypeV<'a>>::empty());
                        assert(vs.len() == 1);
                        assert(s@ =~= head + join_types(vs));
                    } else {
                        assert(s@ =~= head + join_types(vs));
                    }
                }
                i = i + 1;
            }
            assert(args@.take(i as int) =~= args@);
            s.append(")");
            s
        },
        Type::Fn(a, b) => {
            let mut s = String::from_str("(");
            let sa = show_type(a);
            s.append(sa.as_str());
            s.append(" -> ");
            let sb = show_type(b);
            s.append(sb.as_str());
            s.append(")");
            s
        },
    }
}


/// The printed form of a binding, `<id>: <type>`.
pub fn show_binding<'a>(b: &Binding<'a>) -> (r: String)
    ensures
        r@ == binding_text(BindingV { id: b.id, typ: view_type(b.typ) }),
{
    let mut s = String::from_str(b.id);
    s.append(": ");
    let t = show_type(&b.typ);
    s.append(t.as_str());
    s
}

// ─── expressions ────────────────────────────────────────────────────

pub open spec fn unop_symbol(op: UnOp) -> Seq<char> {
    match op {
        UnOp::Neg => "-"@,
        UnOp::FNeg => "-."@,
        UnOp::Bang => "!"@,
    }
}

pub open spec fn binop_symbol(op: BinOp) -> Seq<char> {
    match op {
        BinOp::Plus => "+"@,
        BinOp::Minus => "-"@,
        BinOp::Mult => "*"@,
        BinOp::Div => "/"@,
        BinOp::FPlus => "+."@,
        BinOp::FMinus => "-."@,
        BinOp::FMult => "*."@,
        BinOp::FDiv => "/."@,
        BinOp::Pipe => "|>"@,
        BinOp::Less => "<"@,
        BinOp::LessEq => "<="@,
        BinOp::Greater => ">"@,
        BinOp::GreaterEq => ">="@,
        BinOp::FLess => "<."@,
        BinOp::FLessEq => "<=."@,
        BinOp::FGreater => ">."@,
        BinOp::FGreaterEq => ">=."@,
        BinOp::Eq => "=="@,
        BinOp::NotEq => "!="@,
        BinOp::Or => "||"@,
        BinOp::And => "&&"@,
    }
}

/// The printed form of an expression. Every binary operation is wrapped in
/// parentheses, so the text shows how the expression was grouped.
pub open spec fn expr_text<'a, A>(e: Spanned<ExprV<'a, A>>) -> Seq<char>
    decreases e,
{
    match e.node.kind {
        ExprKindV::Int(v) => int_text(v as int),
        ExprKindV::Float(x) => x@,
        ExprKindV::Bool(b) => if b {
            "true"@
        } else {
            "false"@
        },
        ExprKindV::Id(x) => x@,
        ExprKindV::Fn(b, body) => "(fn ("@ + binding_text(b.node) + ") -> "@ + expr_text(*body) + ")"@,
        ExprKindV::Unary(op, x) => unop_symbol(op) + expr_text(*x),
        ExprKindV::Call(f, args) => expr_text(*f) + "("@ + join_exprs(args) + ")"@,
        ExprKindV::Binary(op, l, r) => "("@ + expr_text(*l) + " "@ + binop_symbol(op) + " "@ + expr_text(*r)
            + ")"@,
        ExprKindV::If(c, a, b) => "if "@ + expr_text(*c) + " then "@ + expr_text(*a) + " else "@ + expr_text(*b),
        ExprKindV::Match(x, arms) => "match "@ + expr_text(*x) + " { "@ + join_arms(arms) + " }"@,
    }
}

/// The printed forms of `es`, separated by `, `.
pub open spec fn join_exprs<'a, A>(es: Seq<Spanned<ExprV<'a, A>>>) -> Seq<char>
    decreases es,
{
    if es.len() == 0 {
        Seq::empty()
    } else if es.len() == 1 {
        expr_text(es[0])
    } else {
        join_exprs(es.drop_last()) + ", "@ + expr_text(es.last())
    }
}

/// The printed forms of match arms, `<id>(<pattern>, ...) -> <expr>`,
/// separated by `, `.
pub open spec fn join_arms<'a, A>(arms: Seq<ArmV<'a, A>>) -> Seq<char>
    decreases arms,
{
    if arms.len() == 0 {
        Seq::empty()
    } else {
        let arm = arms.last();
        let text = arm.ctor@ + "("@ + join_arm_bindings(arm.bindings) + ") -> "@ + expr_text(arm.body);
        if arms.len() == 1 {
            text
        } else {
            join_arms(arms.drop_last()) + ", "@ + text
        }
    }
}

/// The printed forms of pattern variables, separated by `, `.
pub open spec fn join_arm_bindings<'a>(bs: Seq<Spanned<ArmBindingV<'a>>>) -> Seq<char>
    decreases bs.len(),
{
    if bs.len() == 0 {
        Seq::empty()
    } else if bs.len() == 1 {
        arm_binding_text(bs[0].node)
    } else {
        join_arm_bindings(bs.drop_last()) + ", "@ + arm_binding_text(bs.last().node)
    }
}

fn unop_str(op: UnOp) -> (r: &'static str)
    ensures
        r@ == unop_symbol(op),
{
    match op {
        UnOp::Neg => "-",
        UnOp::FNeg => "-.",
        UnOp::Bang => "!",
    }
}

fn binop_str(op: BinOp) -> (r: &'static str)
    ensures
        r@ == binop_symbol(op),
{
    match op {
        BinOp::Plus => "+",
        BinOp::Minus => "-",
        BinOp::Mult => "*",
        BinOp::Div => "/",
        BinOp::FPlus => "+.",
        BinOp::FMinus => "-.",
        BinOp::FMult => "*.",
        BinOp::FDiv => "/.",
        BinOp::Pipe => "|>",
        BinOp::Less => "<",
        BinOp::LessEq => "<=",
        BinOp::Greater => ">",
        BinOp::GreaterEq => ">=",
        BinOp::FLess => "<.",
        BinOp::FLessEq => "<=.",
        BinOp::FGreater => ">.",
        BinOp::FGreaterEq => ">=.",
        BinOp::Eq => "==",
        BinOp::NotEq => "!=",
        BinOp::Or => "||",
        BinOp::And => "&&",
    }
}

/// Appends the pattern variables of a match arm, separated by `, `.
#[verifier::loop_isolation(false)]
fn push_arm_bindings<'a>(s: &mut String, bs: &Vec<SpannedArmBinding<'a>>)
    ensures
        final(s)@ == old(s)@ + join_arm_bindings(view_arm_bindings(bs@)),
{
    let ghost head = s@;
    let ghost all = view_arm_bindings(bs@);
    let mut i: usize = 0;
    assert(all.take(0) =~= Seq::<Spanned<ArmBindingV<'a>>>::empty());
    while i < bs.len()
        invariant
            i <= bs@.len(),
            s@ == head + join_arm_bindings(all.take(i as int)),
        decreases bs@.len() - i,
    {
        if i > 0 {
            s.append(", ");
        }
        s.append(bs[i].node.id);
        match &bs[i].node.typ {
            Some(t) => {
                s.append(": ");
                let ts = show_type(t);
                s.append(ts.as_str());
            },
            None => {},
        }
        proof {
            let vs = all.take(i + 1);
            assert(vs.drop_last() =~= all.take(i as int));
            assert(vs.last() == view_arm_binding(bs@[i as int]));
            if i == 0 {
                assert(s@ =~= head + join_arm_bindings(vs));
            } else {
                assert(s@ =~= head + join_arm_bindings(vs));
            }
        }
        i = i + 1;
    }
    assert(all.take(i as int) =~= all);
}

/// The printed form of an expression; see `expr_text`.
#[verifier::loop_isolation(false)]
#[verifier::rlimit(40)]
pub fn show_expr<'a, A>(e: &SpannedExpr<'a, A>) -> (r: String)
    ensures
        r@ == expr_text(view_expr(*e)),
    decreases *e,
{
    let (op, l, r) = match &e.node.kind {
        ExprKind::Int(v) => {
            return int_to_text(*v);
        },
        ExprKind::Float(x) => {
            return String::from_str(x);
        },
        ExprKind::Bool(b) => {
            return if *b {
                String::from_str("true")
            } else {
                String::from_str("false")
            };
        },
        ExprKind::Id(x) => {
            return String::from_str(x);
        },
        ExprKind::Fn(b, body) => {
            let mut s = String::from_str("(fn (");
            let bt = show_binding(&b.node);
            s.append(bt.as_str());
            s.append(") -> ");
            let et = show_expr(body);
            s.append(et.as_str());
            s.append(")");
            return s;
        },
        ExprKind::Neg(x) => {
            let mut s = String::from_str(unop_str(UnOp::Neg));
            let t = show_expr(x);
            s.append(t.as_str());
            return s;
        },
        ExprKind::FNeg(x) => {
            let mut s = String::from_str(unop_str(UnOp::FNeg));
            let t = show_expr(x);
            s.append(t.as_str());
            return s;
        },
        ExprKind::Bang(x) => {
            let mut s = String::from_str(unop_str(UnOp::Bang));
            let t = show_expr(x);
            s.append(t.as_str());
            return s;
        },
        ExprKind::Call(f, args) => {
            let mut s = show_expr(f);
            s.append("(");
            let ghost head = s@;
            let mut i: usize = 0;
            assert(view_exprs(args@.take(0)) =~= Seq::<Spanned<ExprV<'a, A>>>::empty());
            while i < args.len()
                invariant
                    i <= args@.len(),
                    s@ == head + join_exprs(view_exprs(args@.take(i as int))),
                decreases args@.len() - i,
            {
                proof {
                    assert(decreases_to!(*e => e.node));
                    assert(decreases_to!(e.node => e.node.kind));
                    assert(*args == e.node.kind->Call_1);
                    assert(decreases_to!(e.node.kind => e.node.kind->Call_1));
                    assert(decreases_to!(*args => args@));
                    assert(decreases_to!(args@ => args@[i as int]));
                    assert(args@.take(i + 1) =~= args@.take(i as int).push(args@[i as int]));
                    lemma_view_exprs_push(args@.take(i as int), args@[i as int]);
                }
                if i > 0 {
                    s.append(", ");
                }
                let part = show_expr(&args[i]);
                s.append(part.as_str());
                proof {
                    let vs = view_exprs(args@.take(i + 1));
                    assert(vs.drop_last() =~= view_exprs(args@.take(i as int)));
                    if i == 0 {
                        assert(s@ =~= head + join_exprs(vs));
                    } else {
                        assert(s@ =~= head + join_exprs(vs));
                    }
                }
                i = i + 1;
            }
            assert(args@.take(i as int) =~= args@);
            s.append(")");
            return s;
        },
        ExprKind::If(c, a, b) => {
            let mut s = String::from_str("if ");
            let t = show_expr(c);
            s.append(t.as_str());
            s.append(" then ");
            let t = show_expr(a);
            s.append(t.as_str());
            s.append(" else ");
            let t = show_expr(b);
            s.append(t.as_str());
            return s;
        },
        ExprKind::Match(x, arms) => {
            let mut s = String::from_str("match ");
            let t = show_expr(x);
            s.append(t.as_str());
            s.append(" { ");
            let ghost head = s@;
            let mut i: usize = 0;
            assert(view_arms(arms@.take(0)) =~= Seq::<ArmV<'a, A>>::empty());
            while i < arms.len()
                invariant
                    i <= arms@.len(),
                    s@ == head + join_arms(view_arms(arms@.take(i as int))),
                decreases arms@.len() - i,
            {
                proof {
                    assert(decreases_to!(*e => e.node));
                    assert(decreases_to!(e.node => e.node.kind));
                    assert(*arms == e.node.kind->Match_1);
                    assert(decreases_to!(e.node.kind => e.node.kind->Match_1));
                    assert(decreases_to!(*arms => arms@));
                    assert(decreases_to!(arms@ => arms@[i as int]));
                    assert(decreases_to!(arms@[i as int] => arms@[i as int].2));
                    assert(arms@.take(i + 1) =~= arms@.take(i as int).push(arms@[i as int]));
                    lemma_view_arms_push(arms@.take(i as int), arms@[i as int]);
                }
                if i > 0 {
                    s.append(", ");
                }
                let arm: &MatchArm<'a, A> = &arms[i];
                s.append(arm.0);
                s.append("(");
                push_arm_bindings(&mut s, &arm.1);
                s.append(") -> ");
                let bt = show_expr(&arm.2);
                s.append(bt.as_str());
                proof {
                    let vs = view_arms(arms@.take(i + 1));
                    assert(vs.drop_last() =~= view_arms(arms@.take(i as int)));
                    if i == 0 {
                        assert(s@ =~= head + join_arms(vs));
                    } else {
                        assert(s@ =~= head + join_arms(vs));
                    }
                }
                i = i + 1;
            }
            assert(arms@.take(i as int) =~= arms@);
            s.append(" }");
            return s;
        },
        ExprKind::Plus(l, r) => (BinOp::Plus, l, r),
        ExprKind::Minus(l, r) => (BinOp::Minus, l, r),
        ExprKind::Mult(l, r) => (BinOp::Mult, l, r),
        ExprKind::Div(l, r) => (BinOp::Div, l, r),
        ExprKind::FPlus(l, r) => (BinOp::FPlus, l, r),
        ExprKind::FMinus(l, r) => (BinOp::FMinus, l, r),
        ExprKind::FMult(l, r) => (BinOp::FMult, l, r),
        ExprKind::FDiv(l, r) => (BinOp::FDiv, l, r),
        ExprKind::Pipe(l, r) => (BinOp::Pipe, l, r),
        ExprKind::Less(l, r) => (BinOp::Less, l, r),
        ExprKind::LessEq(l, r) => (BinOp::LessEq, l, r),
        ExprKind::Greater(l, r) => (BinOp::Greater, l, r),
        ExprKind::GreaterEq(l, r) => (BinOp::GreaterEq, l, r),
        ExprKind::FLess(l, r) => (BinOp::FLess, l, r),
        ExprKind::FLessEq(l, r) => (BinOp::FLessEq, l, r),
        ExprKind::FGreater(l, r) => (BinOp::FGreater, l, r),
        ExprKind::FGreaterEq(l, r) => (BinOp::FGreaterEq, l, r),
        ExprKind::Eq(l, r) => (BinOp::Eq, l, r),
        ExprKind::NotEq(l, r) => (BinOp::NotEq, l, r),
        ExprKind::Or(l, r) => (BinOp::Or, l, r),
        ExprKind::And(l, r) => (BinOp::And, l, r),
    };
    let mut s = String::from_str("(");
    let lt = show_expr(l);
    s.append(lt.as_str());
    s.append(" ");
    s.append(binop_str(op));
    s.append(" ");
    let rt = show_expr(r);
    s.append(rt.as_str());
    s.append(")");
    s
}

/// Whether `s`, with or without a space after it, lexes as exactly one
/// token, of kind `k`, covering all of `s`.
pub open spec fn lexes_as_one(s: Seq<char>, k: TokenKind) -> bool {
    &&& next_lexeme(s, 0).class == Lexed::Tok(k)
    &&& next_lexeme(s, 0).start == 0
    &&& next_lexeme(s, 0).end == s.len()
    &&& next_lexeme(s.push(' '), 0).class == Lexed::Tok(k)
    &&& next_lexeme(s.push(' '), 0).end == s.len()
}

/// Printed operators read back: the symbol printed for a binary operator
/// lexes as one token of a binary operator, and that token parses back to
/// the same operator. So two different operators never print alike.
pub proof fn lemma_binop_symbol_reads_back(op: BinOp)
    ensures
        exists|k: TokenKind| lexes_as_one(binop_symbol(op), k) && is_binop_kind(k) && binop_of(k) == op,
{
    match op {
        BinOp::Plus => {
            reveal_strlit("+");
        },
        BinOp::Minus => {
            reveal_strlit("-");
        },
        BinOp::Mult => {
            reveal_strlit("*");
        },
        BinOp::Div => {
            reveal_strlit("/");
        },
        BinOp::FPlus => {
            reveal_strlit("+.");
        },
        BinOp::FMinus => {
            reveal_strlit("-.");
        },
        BinOp::FMult => {
            reveal_strlit("*.");
        },
        BinOp::FDiv => {
            reveal_strlit("/.");
        },
        BinOp::Pipe => {
            reveal_strlit("|>");
        },
        BinOp::Less => {
            reveal_strlit("<");
        },
        BinOp::LessEq => {
            reveal_strlit("<=");
        },
        BinOp::Greater => {
            reveal_strlit(">");
        },
        BinOp::GreaterEq => {
            reveal_strlit(">=");
        },
        BinOp::FLess => {
            reveal_strlit("<.");
        },
        BinOp::FLessEq => {
            reveal_strlit("<=.");
        },
        BinOp::FGreater => {
            reveal_strlit(">.");
        },
        BinOp::FGreaterEq => {
            reveal_strlit(">=.");
        },
        BinOp::Eq => {
            reveal_strlit("==");
        },
        BinOp::NotEq => {
            reveal_strlit("!=");
        },
        BinOp::Or => {
            reveal_strlit("||");
        },
        BinOp::And => {
            reveal_strlit("&&");
        },
    }
    let s = binop_symbol(op);
    let k = next_lexeme(s, 0).class->Tok_0;
    assert(lexes_as_one(s, k) && is_binop_kind(k) && binop_of(k) == op);
}

/// Printed prefix operators read back: the symbol printed for `-`, `-.` or
/// `!` lexes as one token, which parses back to the same operator.
pub proof fn lemma_unop_symbol_reads_back(op: UnOp)
    ensures
        exists|k: TokenKind| lexes_as_one(unop_symbol(op), k) && (k == TokenKind::Minus || k == TokenKind::FMinus || k
            == TokenKind::Not) && prefix_op(k) == op,
{
    match op {
        UnOp::Neg => {
            reveal_strlit("-");
        },
        UnOp::FNeg => {
            reveal_strlit("-.");
        },
        UnOp::Bang => {
            reveal_strlit("!");
        },
    }
    let s = unop_symbol(op);
    let k = next_lexeme(s, 0).class->Tok_0;
    assert(lexes_as_one(s, k) && (k == TokenKind::Minus || k == TokenKind::FMinus || k == TokenKind::Not) && prefix_op(k) == op);
}

} // verus!
