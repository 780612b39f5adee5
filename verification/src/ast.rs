//! The abstract syntax tree produced by the parser, and its mathematical
//! model (the same tree with every `Vec` read as a `Seq`).
use vstd::prelude::*;

use crate::spanned::Spanned;
use crate::token::TokenKind;

verus! {

pub type SpannedExpr<'a, A> = Spanned<Expr<'a, A>>;

pub type SpannedStmt<'a, A> = Spanned<Stmt<'a, A>>;

pub type SpannedDefn<'a, A> = Spanned<Defn<'a, A>>;

pub type SpannedBinding<'a> = Spanned<Binding<'a>>;

pub type SpannedArmBinding<'a> = Spanned<ArmBinding<'a>>;

pub type ParsedExpr<'a> = SpannedExpr<'a, ()>;

pub type ParsedStmt<'a> = SpannedStmt<'a, ()>;

pub type ParsedDefn<'a> = SpannedDefn<'a, ()>;

pub type ParsedBinding<'a> = SpannedBinding<'a>;

pub type ParsedArmBinding<'a> = SpannedArmBinding<'a>;

/// A match arm: constructor name, pattern variables, body.
pub type MatchArm<'a, A> = (&'a str, Vec<SpannedArmBinding<'a>>, SpannedExpr<'a, A>);

/// A constructor of a type definition: its name and fields.
pub type Constructor<'a> = (&'a str, Vec<SpannedBinding<'a>>);

/// A top-level definition.
#[derive(Debug, PartialEq)]
pub enum Defn<'a, A> {
    /// `typedef <TypeId> ( <'param>, ... )? { <id>(<binding>, ...), ... }`
    Typedef { id: &'a str, ty_vars: Vec<&'a str>, arms: Vec<Constructor<'a>> },
    /// `fn <id>(<binding>, ...) -> <type> { <stmt> ... }`
    Fn {
        name: &'a str,
        bindings: Vec<SpannedBinding<'a>>,
        ret_ty: Type<'a>,
        body: Vec<SpannedStmt<'a, A>>,
    },
}

/// A statement.
#[derive(Debug, PartialEq)]
pub enum Stmt<'a, A> {
    /// `let <id> = <expr>;`
    Let(&'a str, SpannedExpr<'a, A>),
    /// `read <type> <id>;`
    Read(Type<'a>, &'a str),
    /// `echo <type> <expr>;`
    Echo(Type<'a>, SpannedExpr<'a, A>),
    /// `return <expr>;`
    Return(SpannedExpr<'a, A>),
}

/// An expression with an annotation of type `A` (`()` after parsing).
#[derive(Debug, PartialEq)]
pub struct Expr<'a, A> {
    pub ann: A,
    pub kind: ExprKind<'a, A>,
}

/// The forms of expression. A float literal keeps its source text.
#[derive(Debug, PartialEq)]
pub enum ExprKind<'a, A> {
    Int(i64),
    Float(&'a str),
    Bool(bool),
    Id(&'a str),
    /// `fn ( <binding> ) -> <expr>`
    Fn(SpannedBinding<'a>, Box<SpannedExpr<'a, A>>),
    /// `- <expr>`
    Neg(Box<SpannedExpr<'a, A>>),
    /// `-. <expr>`
    FNeg(Box<SpannedExpr<'a, A>>),
    /// `! <expr>`
    Bang(Box<SpannedExpr<'a, A>>),
    /// `<expr>(<expr>, ...)`
    Call(Box<SpannedExpr<'a, A>>, Vec<SpannedExpr<'a, A>>),
    /// `<expr> + <expr>`
    Plus(Box<SpannedExpr<'a, A>>, Box<SpannedExpr<'a, A>>),
    /// `<expr> - <expr>`
    Minus(Box<SpannedExpr<'a, A>>, Box<SpannedExpr<'a, A>>),
    /// `<expr> * <expr>`
    Mult(Box<SpannedExpr<'a, A>>, Box<SpannedExpr<'a, A>>),
    /// `<expr> / <expr>`
    Div(Box<SpannedExpr<'a, A>>, Box<SpannedExpr<'a, A>>),
    /// `<expr> +. <expr>`
    FPlus(Box<SpannedExpr<'a, A>>, Box<SpannedExpr<'a, A>>),
    /// `<expr> -. <expr>`
    FMinus(Box<SpannedExpr<'a, A>>, Box<SpannedExpr<'a, A>>),
    /// `<expr> *. <expr>`
    FMult(Box<SpannedExpr<'a, A>>, Box<SpannedExpr<'a, A>>),
    /// `<expr> /. <expr>`
    FDiv(Box<SpannedExpr<'a, A>>, Box<SpannedExpr<'a, A>>),
    /// `<expr> |> <expr>`
    Pipe(Box<SpannedExpr<'a, A>>, Box<SpannedExpr<'a, A>>),
    /// `<expr> < <expr>`
    Less(Box<SpannedExpr<'a, A>>, Box<SpannedExpr<'a, A>>),
    /// `<expr> <= <expr>`
    LessEq(Box<SpannedExpr<'a, A>>, Box<SpannedExpr<'a, A>>),
    /// `<expr> > <expr>`
    Greater(Box<SpannedExpr<'a, A>>, Box<SpannedExpr<'a, A>>),
    /// `<expr> >= <expr>`
    GreaterEq(Box<SpannedExpr<'a, A>>, Box<SpannedExpr<'a, A>>),
    /// `<expr> <. <expr>`
    FLess(Box<SpannedExpr<'a, A>>, Box<SpannedExpr<'a, A>>),
    /// `<expr> <=. <expr>`
    FLessEq(Box<SpannedExpr<'a, A>>, Box<SpannedExpr<'a, A>>),
    /// `<expr> >. <expr>`
    FGreater(Box<SpannedExpr<'a, A>>, Box<SpannedExpr<'a, A>>),
    /// `<expr> >=. <expr>`
    FGreaterEq(Box<SpannedExpr<'a, A>>, Box<SpannedExpr<'a, A>>),
    /// `<expr> == <expr>`
    Eq(Box<SpannedExpr<'a, A>>, Box<SpannedExpr<'a, A>>),
    /// `<expr> != <expr>`
    NotEq(Box<SpannedExpr<'a, A>>, Box<SpannedExpr<'a, A>>),
    /// `<expr> || <expr>`
    Or(Box<SpannedExpr<'a, A>>, Box<SpannedExpr<'a, A>>),
    /// `<expr> && <expr>`
    And(Box<SpannedExpr<'a, A>>, Box<SpannedExpr<'a, A>>),
    /// `if <expr> then <expr> else <expr>`
    If(Box<SpannedExpr<'a, A>>, Box<SpannedExpr<'a, A>>, Box<SpannedExpr<'a, A>>),
    /// `match <expr> { <id>(<pattern>, ...) -> <expr>, ... }`
    Match(Box<SpannedExpr<'a, A>>, Vec<MatchArm<'a, A>>),
}

/// A type as written in the source.
#[derive(Debug, PartialEq)]
pub enum Type<'a> {
    Int,
    Float,
    Bool,
    TypeId(&'a str),
    TypeParam(&'a str),
    /// `<TypeId>(<type>, ...)`
    TypeApp(&'a str, Vec<Type<'a>>),
    /// `<type> -> <type>`
    Fn(Box<Type<'a>>, Box<Type<'a>>),
}

/// `<id> : <type>`
#[derive(Debug, PartialEq)]
pub struct Binding<'a> {
    pub id: &'a str,
    pub typ: Type<'a>,
}

/// A pattern variable of a match arm, with an optional type annotation:
/// `<id>` or `<id> : <type>`.
#[derive(Debug, PartialEq)]
pub struct ArmBinding<'a> {
    pub id: &'a str,
    pub typ: Option<Type<'a>>,
}


// ─── constructors ───────────────────────────────────────────────────

/// Whether `op` is the kind of a binary operator token.
pub open spec fn is_binop_kind(op: TokenKind) -> bool {
    op == TokenKind::Plus || op == TokenKind::Minus || op == TokenKind::Times || op == TokenKind::Divide || op == TokenKind::FPlus || op == TokenKind::FMinus || op == TokenKind::FTimes || op == TokenKind::FDivide || op == TokenKind::Pipe || op == TokenKind::LessThan || op == TokenKind::LessThanOrEq || op == TokenKind::GreaterThan || op == TokenKind::GreaterThanOrEq || op == TokenKind::FLessThan || op == TokenKind::FLessThanOrEq || op == TokenKind::FGreaterThan || op == TokenKind::FGreaterThanOrEq || op == TokenKind::Eq || op == TokenKind::NotEq || op == TokenKind::Or || op == TokenKind::And
}

/// The expression `left op right`, as a specification.
pub open spec fn spec_binop<'a, A>(op: TokenKind, left: SpannedExpr<'a, A>, right: SpannedExpr<'a, A>) -> ExprKind<'a, A> {
    let (l, r) = (Box::new(left), Box::new(right));
    match op {
        TokenKind::Plus => ExprKind::Plus(l, r),
        TokenKind::Minus => ExprKind::Minus(l, r),
        TokenKind::Times => ExprKind::Mult(l, r),
        TokenKind::Divide => ExprKind::Div(l, r),
        TokenKind::FPlus => ExprKind::FPlus(l, r),
        TokenKind::FMinus => ExprKind::FMinus(l, r),
        TokenKind::FTimes => ExprKind::FMult(l, r),
        TokenKind::FDivide => ExprKind::FDiv(l, r),
        TokenKind::Pipe => ExprKind::Pipe(l, r),
        TokenKind::LessThan => ExprKind::Less(l, r),
        TokenKind::LessThanOrEq => ExprKind::LessEq(l, r),
        TokenKind::GreaterThan => ExprKind::Greater(l, r),
        TokenKind::GreaterThanOrEq => ExprKind::GreaterEq(l, r),
        TokenKind::FLessThan => ExprKind::FLess(l, r),
        TokenKind::FLessThanOrEq => ExprKind::FLessEq(l, r),
        TokenKind::FGreaterThan => ExprKind::FGreater(l, r),
        TokenKind::FGreaterThanOrEq => ExprKind::FGreaterEq(l, r),
        TokenKind::Eq => ExprKind::Eq(l, r),
        TokenKind::NotEq => ExprKind::NotEq(l, r),
        TokenKind::Or => ExprKind::Or(l, r),
        _ => ExprKind::And(l, r),
    }
}

impl<'a, A> ExprKind<'a, A> {
    /// The expression `left op right` for a binary operator token kind `op`.
    pub fn binop(op: TokenKind, left: SpannedExpr<'a, A>, right: SpannedExpr<'a, A>) -> (r: ExprKind<'a, A>)
        requires
            is_binop_kind(op),
        ensures
            r == spec_binop(op, left, right),
    {
        let (l, r) = (Box::new(left), Box::new(right));
        match op {
            TokenKind::Plus => ExprKind::Plus(l, r),
            TokenKind::Minus => ExprKind::Minus(l, r),
            TokenKind::Times => ExprKind::Mult(l, r),
            TokenKind::Divide => ExprKind::Div(l, r),
            TokenKind::FPlus => ExprKind::FPlus(l, r),
            TokenKind::FMinus => ExprKind::FMinus(l, r),
            TokenKind::FTimes => ExprKind::FMult(l, r),
            TokenKind::FDivide => ExprKind::FDiv(l, r),
            TokenKind::Pipe => ExprKind::Pipe(l, r),
            TokenKind::LessThan => ExprKind::Less(l, r),
            TokenKind::LessThanOrEq => ExprKind::LessEq(l, r),
            TokenKind::GreaterThan => ExprKind::Greater(l, r),
            TokenKind::GreaterThanOrEq => ExprKind::GreaterEq(l, r),
            TokenKind::FLessThan => ExprKind::FLess(l, r),
            TokenKind::FLessThanOrEq => ExprKind::FLessEq(l, r),
            TokenKind::FGreaterThan => ExprKind::FGreater(l, r),
            TokenKind::FGreaterThanOrEq => ExprKind::FGreaterEq(l, r),
            TokenKind::Eq => ExprKind::Eq(l, r),
            TokenKind::NotEq => ExprKind::NotEq(l, r),
            TokenKind::Or => ExprKind::Or(l, r),
            _ => ExprKind::And(l, r),
        }
    }
}

impl<'a> ParsedExpr<'a> {
    /// A parsed expression of the given form at `offset`.
    pub fn new(offset: usize, kind: ExprKind<'a, ()>) -> (r: Self)
        ensures
            r == (Spanned { offset, node: Expr { ann: (), kind } }),
    {
        Spanned { offset, node: Expr { ann: (), kind } }
    }
}

impl<'a> ParsedBinding<'a> {
    /// The binding `id : typ` at `offset`.
    pub fn new(offset: usize, id: &'a str, typ: Type<'a>) -> (r: Self)
        ensures
            r == (Spanned { offset, node: Binding { id, typ } }),
    {
        Spanned { offset, node: Binding { id, typ } }
    }
}

impl<'a> ParsedArmBinding<'a> {
    /// The pattern variable `id` (with optional type) at `offset`.
    pub fn new(offset: usize, id: &'a str, typ: Option<Type<'a>>) -> (r: Self)
        ensures
            r == (Spanned { offset, node: ArmBinding { id, typ } }),
    {
        Spanned { offset, node: ArmBinding { id, typ } }
    }
}

impl<'a> ParsedStmt<'a> {
    /// `let id = expr;` at `offset`.
    pub fn make_let(offset: usize, id: &'a str, expr: ParsedExpr<'a>) -> (r: Self)
        ensures
            r == (Spanned { offset, node: Stmt::Let(id, expr) }),
    {
        Spanned { offset, node: Stmt::Let(id, expr) }
    }

    /// `read typ id;` at `offset`.
    pub fn make_read(offset: usize, typ: Type<'a>, id: &'a str) -> (r: Self)
        ensures
            r == (Spanned { offset, node: Stmt::<'a, ()>::Read(typ, id) }),
    {
        Spanned { offset, node: Stmt::Read(typ, id) }
    }

    /// `echo typ expr;` at `offset`.
    pub fn make_echo(offset: usize, typ: Type<'a>, expr: ParsedExpr<'a>) -> (r: Self)
        ensures
            r == (Spanned { offset, node: Stmt::Echo(typ, expr) }),
    {
        Spanned { offset, node: Stmt::Echo(typ, expr) }
    }

    /// `return expr;` at `offset`.
    pub fn make_return(offset: usize, expr: ParsedExpr<'a>) -> (r: Self)
        ensures
            r == (Spanned { offset, node: Stmt::Return(expr) }),
    {
        Spanned { offset, node: Stmt::Return(expr) }
    }
}

impl<'a> ParsedDefn<'a> {
    /// A function definition at `offset`.
    pub fn make_fn(
        offset: usize,
        id: &'a str,
        bindings: Vec<ParsedBinding<'a>>,
        ret: Type<'a>,
        stmts: Vec<ParsedStmt<'a>>,
    ) -> (r: Self)
        ensures
            r == (Spanned { offset, node: Defn::Fn { name: id, bindings, ret_ty: ret, body: stmts } }),
    {
        Spanned { offset, node: Defn::Fn { name: id, bindings, ret_ty: ret, body: stmts } }
    }

    /// A type definition without type parameters at `offset`.
    pub fn make_typedef(offset: usize, id: &'a str, arms: Vec<Constructor<'a>>) -> (r: Self)
        ensures
            r.offset == offset,
            r.node matches Defn::Typedef { id: i, ty_vars, arms: a } && i == id && ty_vars@.len()
                == 0 && a == arms,
    {
        Spanned { offset, node: Defn::Typedef { id, ty_vars: Vec::new(), arms } }
    }

    /// A type definition with type parameters `ty_vars` at `offset`.
    pub fn make_generic_typedef(
        offset: usize,
        id: &'a str,
        ty_vars: Vec<&'a str>,
        arms: Vec<Constructor<'a>>,
    ) -> (r: Self)
        ensures
            r == (Spanned::<Defn<'a, ()>> { offset, node: Defn::Typedef { id, ty_vars, arms } }),
    {
        Spanned { offset, node: Defn::Typedef { id, ty_vars, arms } }
    }
}

// ─── the model ──────────────────────────────────────────────────────

/// Unary operators.
#[derive(PartialEq, Eq, Clone, Copy, Debug, Structural)]
pub enum UnOp {
    Neg,
    FNeg,
    Bang,
}

/// Binary operators.
#[derive(PartialEq, Eq, Clone, Copy, Debug, Structural)]
pub enum BinOp {
    Plus,
    Minus,
    Mult,
    Div,
    FPlus,
    FMinus,
    FMult,
    FDiv,
    Pipe,
    Less,
    LessEq,
    Greater,
    GreaterEq,
    FLess,
    FLessEq,
    FGreater,
    FGreaterEq,
    Eq,
    NotEq,
    Or,
    And,
}

pub enum TypeV<'a> {
    Int,
    Float,
    Bool,
    TypeId(&'a str),
    TypeParam(&'a str),
    TypeApp(&'a str, Seq<TypeV<'a>>),
    Fn(Box<TypeV<'a>>, Box<TypeV<'a>>),
}

pub struct BindingV<'a> {
    pub id: &'a str,
    pub typ: TypeV<'a>,
}

pub struct ArmBindingV<'a> {
    pub id: &'a str,
    pub typ: Option<TypeV<'a>>,
}

pub struct ExprV<'a, A> {
    pub ann: A,
    pub kind: ExprKindV<'a, A>,
}

pub enum ExprKindV<'a, A> {
    Int(i64),
    Float(&'a str),
    Bool(bool),
    Id(&'a str),
    Fn(Spanned<BindingV<'a>>, Box<Spanned<ExprV<'a, A>>>),
    Unary(UnOp, Box<Spanned<ExprV<'a, A>>>),
    Call(Box<Spanned<ExprV<'a, A>>>, Seq<Spanned<ExprV<'a, A>>>),
    Binary(BinOp, Box<Spanned<ExprV<'a, A>>>, Box<Spanned<ExprV<'a, A>>>),
    If(Box<Spanned<ExprV<'a, A>>>, Box<Spanned<ExprV<'a, A>>>, Box<Spanned<ExprV<'a, A>>>),
    Match(Box<Spanned<ExprV<'a, A>>>, Seq<ArmV<'a, A>>),
}

pub struct ArmV<'a, A> {
    pub ctor: &'a str,
    pub bindings: Seq<Spanned<ArmBindingV<'a>>>,
    pub body: Spanned<ExprV<'a, A>>,
}

pub enum StmtV<'a, A> {
    Let(&'a str, Spanned<ExprV<'a, A>>),
    Read(TypeV<'a>, &'a str),
    Echo(TypeV<'a>, Spanned<ExprV<'a, A>>),
    Return(Spanned<ExprV<'a, A>>),
}

pub enum DefnV<'a, A> {
    Typedef { id: &'a str, ty_vars: Seq<&'a str>, arms: Seq<(&'a str, Seq<Spanned<BindingV<'a>>>)> },
    Fn {
        name: &'a str,
        bindings: Seq<Spanned<BindingV<'a>>>,
        ret_ty: TypeV<'a>,
        body: Seq<Spanned<StmtV<'a, A>>>,
    },
}

pub open spec fn view_type<'a>(t: Type<'a>) -> TypeV<'a>
    decreases t,
{
    match t {
        Type::Int => TypeV::Int,
        Type::Float => TypeV::Float,
        Type::Bool => TypeV::Bool,
        Type::TypeId(x) => TypeV::TypeId(x),
        Type::TypeParam(x) => TypeV::TypeParam(x),
        Type::TypeApp(x, args) => TypeV::TypeApp(x, view_types(args@)),
        Type::Fn(a, b) => TypeV::Fn(Box::new(view_type(*a)), Box::new(view_type(*b))),
    }
}

pub open spec fn view_types<'a>(ts: Seq<Type<'a>>) -> Seq<TypeV<'a>>
    decreases ts,
{
    if ts.len() == 0 {
        Seq::empty()
    } else {
        seq![view_type(ts[0])] + view_types(ts.drop_first())
    }
}

pub open spec fn view_binding<'a>(b: SpannedBinding<'a>) -> Spanned<BindingV<'a>> {
    Spanned { offset: b.offset, node: BindingV { id: b.node.id, typ: view_type(b.node.typ) } }
}

pub open spec fn view_bindings<'a>(bs: Seq<SpannedBinding<'a>>) -> Seq<Spanned<BindingV<'a>>> {
    bs.map_values(|b: SpannedBinding<'a>| view_binding(b))
}

pub open spec fn view_arm_binding<'a>(b: SpannedArmBinding<'a>) -> Spanned<ArmBindingV<'a>> {
    Spanned {
        offset: b.offset,
        node: ArmBindingV {
            id: b.node.id,
            typ: match b.node.typ {
                Some(t) => Some(view_type(t)),
                None => None,
            },
        },
    }
}

pub open spec fn view_arm_bindings<'a>(bs: Seq<SpannedArmBinding<'a>>) -> Seq<Spanned<ArmBindingV<'a>>> {
    bs.map_values(|b: SpannedArmBinding<'a>| view_arm_binding(b))
}

pub open spec fn view_expr<'a, A>(e: SpannedExpr<'a, A>) -> Spanned<ExprV<'a, A>>
    decreases e,
{
    let kind = match e.node.kind {
        ExprKind::Int(v) => ExprKindV::Int(v),
        ExprKind::Float(x) => ExprKindV::Float(x),
        ExprKind::Bool(b) => ExprKindV::Bool(b),
        ExprKind::Id(x) => ExprKindV::Id(x),
        ExprKind::Fn(b, body) => ExprKindV::Fn(view_binding(b), Box::new(view_expr(*body))),
        ExprKind::Neg(x) => ExprKindV::Unary(UnOp::Neg, Box::new(view_expr(*x))),
        ExprKind::FNeg(x) => ExprKindV::Unary(UnOp::FNeg, Box::new(view_expr(*x))),
        ExprKind::Bang(x) => ExprKindV::Unary(UnOp::Bang, Box::new(view_expr(*x))),
        ExprKind::Call(f, args) => ExprKindV::Call(Box::new(view_expr(*f)), view_exprs(args@)),
        ExprKind::Plus(l, r) => ExprKindV::Binary(BinOp::Plus, Box::new(view_expr(*l)), Box::new(view_expr(*r))),
        ExprKind::Minus(l, r) => ExprKindV::Binary(BinOp::Minus, Box::new(view_expr(*l)), Box::new(view_expr(*r))),
        ExprKind::Mult(l, r) => ExprKindV::Binary(BinOp::Mult, Box::new(view_expr(*l)), Box::new(view_expr(*r))),
        ExprKind::Div(l, r) => ExprKindV::Binary(BinOp::Div, Box::new(view_expr(*l)), Box::new(view_expr(*r))),
        ExprKind::FPlus(l, r) => ExprKindV::Binary(BinOp::FPlus, Box::new(view_expr(*l)), Box::new(view_expr(*r))),
        ExprKind::FMinus(l, r) => ExprKindV::Binary(BinOp::FMinus, Box::new(view_expr(*l)), Box::new(view_expr(*r))),
        ExprKind::FMult(l, r) => ExprKindV::Binary(BinOp::FMult, Box::new(view_expr(*l)), Box::new(view_expr(*r))),
        ExprKind::FDiv(l, r) => ExprKindV::Binary(BinOp::FDiv, Box::new(view_expr(*l)), Box::new(view_expr(*r))),
        ExprKind::Pipe(l, r) => ExprKindV::Binary(BinOp::Pipe, Box::new(view_expr(*l)), Box::new(view_expr(*r))),
        ExprKind::Less(l, r) => ExprKindV::Binary(BinOp::Less, Box::new(view_expr(*l)), Box::new(view_expr(*r))),
        ExprKind::LessEq(l, r) => ExprKindV::Binary(BinOp::LessEq, Box::new(view_expr(*l)), Box::new(view_expr(*r))),
        ExprKind::Greater(l, r) => ExprKindV::Binary(BinOp::Greater, Box::new(view_expr(*l)), Box::new(view_expr(*r))),
        ExprKind::GreaterEq(l, r) => ExprKindV::Binary(BinOp::GreaterEq, Box::new(view_expr(*l)), Box::new(view_expr(*r))),
        ExprKind::FLess(l, r) => ExprKindV::Binary(BinOp::FLess, Box::new(view_expr(*l)), Box::new(view_expr(*r))),
        ExprKind::FLessEq(l, r) => ExprKindV::Binary(BinOp::FLessEq, Box::new(view_expr(*l)), Box::new(view_expr(*r))),
        ExprKind::FGreater(l, r) => ExprKindV::Binary(BinOp::FGreater, Box::new(view_expr(*l)), Box::new(view_expr(*r))),
        ExprKind::FGreaterEq(l, r) => ExprKindV::Binary(BinOp::FGreaterEq, Box::new(view_expr(*l)), Box::new(view_expr(*r))),
        ExprKind::Eq(l, r) => ExprKindV::Binary(BinOp::Eq, Box::new(view_expr(*l)), Box::new(view_expr(*r))),
        ExprKind::NotEq(l, r) => ExprKindV::Binary(BinOp::NotEq, Box::new(view_expr(*l)), Box::new(view_expr(*r))),
        ExprKind::Or(l, r) => ExprKindV::Binary(BinOp::Or, Box::new(view_expr(*l)), Box::new(view_expr(*r))),
        ExprKind::And(l, r) => ExprKindV::Binary(BinOp::And, Box::new(view_expr(*l)), Box::new(view_expr(*r))),
        ExprKind::If(c, t, f) => ExprKindV::If(
            Box::new(view_expr(*c)),
            Box::new(view_expr(*t)),
            Box::new(view_expr(*f)),
        ),
        ExprKind::Match(x, arms) => ExprKindV::Match(Box::new(view_expr(*x)), view_arms(arms@)),
    };
    Spanned { offset: e.offset, node: ExprV { ann: e.node.ann, kind } }
}

pub open spec fn view_exprs<'a, A>(es: Seq<SpannedExpr<'a, A>>) -> Seq<Spanned<ExprV<'a, A>>>
    decreases es,
{
    if es.len() == 0 {
        Seq::empty()
    } else {
        seq![view_expr(es[0])] + view_exprs(es.drop_first())
    }
}

pub open spec fn view_arms<'a, A>(arms: Seq<MatchArm<'a, A>>) -> Seq<ArmV<'a, A>>
    decreases arms,
{
    if arms.len() == 0 {
        Seq::empty()
    } else {
        seq![
            ArmV {
                ctor: arms[0].0,
                bindings: view_arm_bindings(arms[0].1@),
                body: view_expr(arms[0].2),
            },
        ] + view_arms(arms.drop_first())
    }
}


pub proof fn lemma_view_types_push<'a>(s: Seq<Type<'a>>, x: Type<'a>)
    ensures
        view_types(s.push(x)) == view_types(s).push(view_type(x)),
    decreases s.len(),
{
    if s.len() == 0 {
        assert(s.push(x).drop_first() =~= Seq::<Type<'a>>::empty());
        assert(view_types(s.push(x).drop_first()) =~= Seq::<TypeV<'a>>::empty());
        assert(view_types(s.push(x)) =~= seq![view_type(x)]);
    } else {
        assert(s.push(x)[0] == s[0]);
        assert(s.push(x).drop_first() =~= s.drop_first().push(x));
        lemma_view_types_push(s.drop_first(), x);
        assert(view_types(s.push(x)) =~= view_types(s).push(view_type(x)));
    }
}

pub proof fn lemma_view_exprs_push<'a, A>(s: Seq<SpannedExpr<'a, A>>, x: SpannedExpr<'a, A>)
    ensures
        view_exprs(s.push(x)) == view_exprs(s).push(view_expr(x)),
    decreases s.len(),
{
    if s.len() == 0 {
        assert(s.push(x).drop_first() =~= Seq::<SpannedExpr<'a, A>>::empty());
        assert(view_exprs(s.push(x).drop_first()) =~= Seq::<Spanned<ExprV<'a, A>>>::empty());
        assert(view_exprs(s.push(x)) =~= seq![view_expr(x)]);
    } else {
        assert(s.push(x)[0] == s[0]);
        assert(s.push(x).drop_first() =~= s.drop_first().push(x));
        lemma_view_exprs_push(s.drop_first(), x);
        assert(view_exprs(s.push(x)) =~= view_exprs(s).push(view_expr(x)));
    }
}

pub proof fn lemma_view_arms_push<'a, A>(s: Seq<MatchArm<'a, A>>, x: MatchArm<'a, A>)
    ensures
        view_arms(s.push(x)) == view_arms(s).push(
            ArmV { ctor: x.0, bindings: view_arm_bindings(x.1@), body: view_expr(x.2) },
        ),
    decreases s.len(),
{
    if s.len() == 0 {
        assert(s.push(x).drop_first() =~= Seq::<MatchArm<'a, A>>::empty());
        assert(view_arms(s.push(x).drop_first()) =~= Seq::<ArmV<'a, A>>::empty());
        assert(view_arms(s.push(x)) =~= seq![
            ArmV { ctor: x.0, bindings: view_arm_bindings(x.1@), body: view_expr(x.2) },
        ]);
    } else {
        assert(s.push(x)[0] == s[0]);
        assert(s.push(x).drop_first() =~= s.drop_first().push(x));
        lemma_view_arms_push(s.drop_first(), x);
        assert(view_arms(s.push(x)) =~= view_arms(s).push(
            ArmV { ctor: x.0, bindings: view_arm_bindings(x.1@), body: view_expr(x.2) },
        ));
    }
}

} // verus!
