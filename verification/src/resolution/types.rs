//! The identifiers that name resolution hands out, the resolved program, and
//! the scoped symbol table that resolution works with.
use vstd::prelude::*;

use crate::ast::{BinOp, UnOp};
use crate::text::str_eq;

verus! {

// ─── identifiers ────────────────────────────────────────────────────

/// A type defined by a `typedef`.
#[derive(Debug, Copy, Clone, PartialEq, Eq, Hash, Structural)]
pub struct TypeId(pub usize);

/// A type parameter such as `'a`.
#[derive(Debug, Copy, Clone, PartialEq, Eq, Hash, Structural)]
pub struct TypeParamId(pub usize);

/// A value: a function, a constructor, a parameter or a local variable.
#[derive(Debug, Copy, Clone, PartialEq, Eq, Hash, Structural)]
pub struct ValueId(pub usize);

/// What a name in scope stands for.
#[derive(Debug, Copy, Clone, PartialEq, Eq, Hash, Structural)]
pub enum Identifier {
    TypeId(TypeId),
    TypeParamId(TypeParamId),
    ValueId(ValueId),
}

// ─── the resolved program ───────────────────────────────────────────

/// A type whose names have been replaced by identifiers.
#[derive(Debug, PartialEq)]
pub enum ResolvedType {
    Int,
    Float,
    Bool,
    TypeId(TypeId),
    TypeParam(TypeParamId),
    TypeApp(TypeId, Vec<ResolvedType>),
    Fn(Box<ResolvedType>, Box<ResolvedType>),
}

/// A parameter or field: its value identifier and its type.
#[derive(Debug, PartialEq)]
pub struct ResolvedBinding {
    pub id: ValueId,
    pub typ: ResolvedType,
}

/// A match arm: the constructor, the identifiers of its pattern variables,
/// and the body.
#[derive(Debug, PartialEq)]
pub struct ResolvedMatchArm<'a> {
    pub id: ValueId,
    pub bindings: Vec<ValueId>,
    pub expr: ResolvedExpr<'a>,
}

/// An expression whose names have been replaced by identifiers. A float
/// literal keeps its source text.
#[derive(Debug, PartialEq)]
pub enum ResolvedExpr<'a> {
    Int(i64),
    Bool(bool),
    Float(&'a str),
    Id(ValueId),
    Fn(ResolvedBinding, Box<ResolvedExpr<'a>>),
    Neg(Box<ResolvedExpr<'a>>),
    FNeg(Box<ResolvedExpr<'a>>),
    Bang(Box<ResolvedExpr<'a>>),
    Call(Box<ResolvedExpr<'a>>, Vec<ResolvedExpr<'a>>),
    Plus(Box<ResolvedExpr<'a>>, Box<ResolvedExpr<'a>>),
    Minus(Box<ResolvedExpr<'a>>, Box<ResolvedExpr<'a>>),
    FPlus(Box<ResolvedExpr<'a>>, Box<ResolvedExpr<'a>>),
    FMinus(Box<ResolvedExpr<'a>>, Box<ResolvedExpr<'a>>),
    Mult(Box<ResolvedExpr<'a>>, Box<ResolvedExpr<'a>>),
    FMult(Box<ResolvedExpr<'a>>, Box<ResolvedExpr<'a>>),
    Div(Box<ResolvedExpr<'a>>, Box<ResolvedExpr<'a>>),
    FDiv(Box<ResolvedExpr<'a>>, Box<ResolvedExpr<'a>>),
    Pipe(Box<ResolvedExpr<'a>>, Box<ResolvedExpr<'a>>),
    Lt(Box<ResolvedExpr<'a>>, Box<ResolvedExpr<'a>>),
    Gt(Box<ResolvedExpr<'a>>, Box<ResolvedExpr<'a>>),
    LtEq(Box<ResolvedExpr<'a>>, Box<ResolvedExpr<'a>>),
    GtEq(Box<ResolvedExpr<'a>>, Box<ResolvedExpr<'a>>),
    FLt(Box<ResolvedExpr<'a>>, Box<ResolvedExpr<'a>>),
    FGt(Box<ResolvedExpr<'a>>, Box<ResolvedExpr<'a>>),
    FLtEq(Box<ResolvedExpr<'a>>, Box<ResolvedExpr<'a>>),
    FGtEq(Box<ResolvedExpr<'a>>, Box<ResolvedExpr<'a>>),
    Eq(Box<ResolvedExpr<'a>>, Box<ResolvedExpr<'a>>),
    NotEq(Box<ResolvedExpr<'a>>, Box<ResolvedExpr<'a>>),
    Or(Box<ResolvedExpr<'a>>, Box<ResolvedExpr<'a>>),
    And(Box<ResolvedExpr<'a>>, Box<ResolvedExpr<'a>>),
    If(Box<ResolvedExpr<'a>>, Box<ResolvedExpr<'a>>, Box<ResolvedExpr<'a>>),
    Match(Box<ResolvedExpr<'a>>, Vec<ResolvedMatchArm<'a>>),
}

/// A resolved statement.
#[derive(Debug, PartialEq)]
pub enum ResolvedStmt<'a> {
    Let(ValueId, ResolvedExpr<'a>),
    Read(ValueId, ResolvedType),
    Echo(ResolvedType, ResolvedExpr<'a>),
    Return(ResolvedExpr<'a>),
}

/// A resolved top-level definition.
#[derive(Debug, PartialEq)]
pub enum ResolvedDefn<'a> {
    Typedef { id: TypeId, params: Vec<TypeParamId>, arms: Vec<(ValueId, Vec<ResolvedBinding>)> },
    Fn {
        id: ValueId,
        params: Vec<ResolvedBinding>,
        ret_ty: ResolvedType,
        body: Vec<ResolvedStmt<'a>>,
    },
}

impl ResolvedBinding {
    pub fn new(id: ValueId, typ: ResolvedType) -> (r: Self)
        ensures
            r.id == id,
            r.typ == typ,
    {
        ResolvedBinding { id, typ }
    }
}

impl<'a> ResolvedMatchArm<'a> {
    pub fn new(id: ValueId, bindings: Vec<ValueId>, expr: ResolvedExpr<'a>) -> (r: Self)
        ensures
            r.id == id,
            r.bindings == bindings,
            r.expr == expr,
    {
        ResolvedMatchArm { id, bindings, expr }
    }
}

// ─── the model of the resolved program ──────────────────────────────

pub enum RTypeV {
    Int,
    Float,
    Bool,
    TypeId(TypeId),
    TypeParam(TypeParamId),
    TypeApp(TypeId, Seq<RTypeV>),
    Fn(Box<RTypeV>, Box<RTypeV>),
}

pub struct RBindingV {
    pub id: ValueId,
    pub typ: RTypeV,
}

pub enum RExprV<'a> {
    Int(i64),
    Bool(bool),
    Float(&'a str),
    Id(ValueId),
    Fn(RBindingV, Box<RExprV<'a>>),
    Unary(UnOp, Box<RExprV<'a>>),
    Call(Box<RExprV<'a>>, Seq<RExprV<'a>>),
    Binary(BinOp, Box<RExprV<'a>>, Box<RExprV<'a>>),
    If(Box<RExprV<'a>>, Box<RExprV<'a>>, Box<RExprV<'a>>),
    Match(Box<RExprV<'a>>, Seq<RArmV<'a>>),
}

pub struct RArmV<'a> {
    pub ctor: ValueId,
    pub bindings: Seq<ValueId>,
    pub body: RExprV<'a>,
}

pub enum RStmtV<'a> {
    Let(ValueId, RExprV<'a>),
    Read(ValueId, RTypeV),
    Echo(RTypeV, RExprV<'a>),
    Return(RExprV<'a>),
}

pub enum RDefnV<'a> {
    Typedef { id: TypeId, params: Seq<TypeParamId>, arms: Seq<(ValueId, Seq<RBindingV>)> },
    Fn { id: ValueId, params: Seq<RBindingV>, ret_ty: RTypeV, body: Seq<RStmtV<'a>> },
}

pub open spec fn view_rtype(t: ResolvedType) -> RTypeV
    decreases t,
{
    match t {
        ResolvedType::Int => RTypeV::Int,
        ResolvedType::Float => RTypeV::Float,
        ResolvedType::Bool => RTypeV::Bool,
        ResolvedType::TypeId(x) => RTypeV::TypeId(x),
        ResolvedType::TypeParam(x) => RTypeV::TypeParam(x),
        ResolvedType::TypeApp(x, args) => RTypeV::TypeApp(x, view_rtypes(args@)),
        ResolvedType::Fn(a, b) => RTypeV::Fn(Box::new(view_rtype(*a)), Box::new(view_rtype(*b))),
    }
}

pub open spec fn view_rtypes(ts: Seq<ResolvedType>) -> Seq<RTypeV>
    decreases ts,
{
    if ts.len() == 0 {
        Seq::empty()
    } else {
        seq![view_rtype(ts[0])] + view_rtypes(ts.drop_first())
    }
}

pub open spec fn view_rbinding(b: ResolvedBinding) -> RBindingV {
    RBindingV { id: b.id, typ: view_rtype(b.typ) }
}

pub open spec fn view_rbindings(bs: Seq<ResolvedBinding>) -> Seq<RBindingV> {
    bs.map_values(|b: ResolvedBinding| view_rbinding(b))
}

pub open spec fn view_rexpr<'a>(e: ResolvedExpr<'a>) -> RExprV<'a>
    decreases e,
{
    match e {
        ResolvedExpr::Int(v) => RExprV::Int(v),
        ResolvedExpr::Bool(v) => RExprV::Bool(v),
        ResolvedExpr::Float(v) => RExprV::Float(v),
        ResolvedExpr::Id(v) => RExprV::Id(v),
        ResolvedExpr::Fn(b, body) => RExprV::Fn(view_rbinding(b), Box::new(view_rexpr(*body))),
        ResolvedExpr::Neg(x) => RExprV::Unary(UnOp::Neg, Box::new(view_rexpr(*x))),
        ResolvedExpr::FNeg(x) => RExprV::Unary(UnOp::FNeg, Box::new(view_rexpr(*x))),
        ResolvedExpr::Bang(x) => RExprV::Unary(UnOp::Bang, Box::new(view_rexpr(*x))),
        ResolvedExpr::Call(f, args) => RExprV::Call(Box::new(view_rexpr(*f)), view_rexprs(args@)),
        ResolvedExpr::Plus(l, r) => RExprV::Binary(BinOp::Plus, Box::new(view_rexpr(*l)), Box::new(view_rexpr(*r))),
        ResolvedExpr::Minus(l, r) => RExprV::Binary(BinOp::Minus, Box::new(view_rexpr(*l)), Box::new(view_rexpr(*r))),
        ResolvedExpr::FPlus(l, r) => RExprV::Binary(BinOp::FPlus, Box::new(view_rexpr(*l)), Box::new(view_rexpr(*r))),
        ResolvedExpr::FMinus(l, r) => RExprV::Binary(BinOp::FMinus, Box::new(view_rexpr(*l)), Box::new(view_rexpr(*r))),
        ResolvedExpr::Mult(l, r) => RExprV::Binary(BinOp::Mult, Box::new(view_rexpr(*l)), Box::new(view_rexpr(*r))),
        ResolvedExpr::FMult(l, r) => RExprV::Binary(BinOp::FMult, Box::new(view_rexpr(*l)), Box::new(view_rexpr(*r))),
        ResolvedExpr::Div(l, r) => RExprV::Binary(BinOp::Div, Box::new(view_rexpr(*l)), Box::new(view_rexpr(*r))),
        ResolvedExpr::FDiv(l, r) => RExprV::Binary(BinOp::FDiv, Box::new(view_rexpr(*l)), Box::new(view_rexpr(*r))),
        ResolvedExpr::Pipe(l, r) => RExprV::Binary(BinOp::Pipe, Box::new(view_rexpr(*l)), Box::new(view_rexpr(*r))),
        ResolvedExpr::Lt(l, r) => RExprV::Binary(BinOp::Less, Box::new(view_rexpr(*l)), Box::new(view_rexpr(*r))),
        ResolvedExpr::Gt(l, r) => RExprV::Binary(BinOp::Greater, Box::new(view_rexpr(*l)), Box::new(view_rexpr(*r))),
        ResolvedExpr::LtEq(l, r) => RExprV::Binary(BinOp::LessEq, Box::new(view_rexpr(*l)), Box::new(view_rexpr(*r))),
        ResolvedExpr::GtEq(l, r) => RExprV::Binary(BinOp::GreaterEq, Box::new(view_rexpr(*l)), Box::new(view_rexpr(*r))),
        ResolvedExpr::FLt(l, r) => RExprV::Binary(BinOp::FLess, Box::new(view_rexpr(*l)), Box::new(view_rexpr(*r))),
        ResolvedExpr::FGt(l, r) => RExprV::Binary(BinOp::FGreater, Box::new(view_rexpr(*l)), Box::new(view_rexpr(*r))),
        ResolvedExpr::FLtEq(l, r) => RExprV::Binary(BinOp::FLessEq, Box::new(view_rexpr(*l)), Box::new(view_rexpr(*r))),
        ResolvedExpr::FGtEq(l, r) => RExprV::Binary(BinOp::FGreaterEq, Box::new(view_rexpr(*l)), Box::new(view_rexpr(*r))),
        ResolvedExpr::Eq(l, r) => RExprV::Binary(BinOp::Eq, Box::new(view_rexpr(*l)), Box::new(view_rexpr(*r))),
        ResolvedExpr::NotEq(l, r) => RExprV::Binary(BinOp::NotEq, Box::new(view_rexpr(*l)), Box::new(view_rexpr(*r))),
        ResolvedExpr::Or(l, r) => RExprV::Binary(BinOp::Or, Box::new(view_rexpr(*l)), Box::new(view_rexpr(*r))),
        ResolvedExpr::And(l, r) => RExprV::Binary(BinOp::And, Box::new(view_rexpr(*l)), Box::new(view_rexpr(*r))),
        ResolvedExpr::If(c, t, f) => RExprV::If(
            Box::new(view_rexpr(*c)),
            Box::new(view_rexpr(*t)),
            Box::new(view_rexpr(*f)),
        ),
        ResolvedExpr::Match(x, arms) => RExprV::Match(Box::new(view_rexpr(*x)), view_rarms(arms@)),
    }
}

pub open spec fn view_rexprs<'a>(es: Seq<ResolvedExpr<'a>>) -> Seq<RExprV<'a>>
    decreases es,
{
    if es.len() == 0 {
        Seq::empty()
    } else {
        seq![view_rexpr(es[0])] + view_rexprs(es.drop_first())
    }
}

pub open spec fn view_rarms<'a>(arms: Seq<ResolvedMatchArm<'a>>) -> Seq<RArmV<'a>>
    decreases arms,
{
    if arms.len() == 0 {
        Seq::empty()
    } else {
        seq![RArmV { ctor: arms[0].id, bindings: arms[0].bindings@, body: view_rexpr(arms[0].expr) }]
            + view_rarms(arms.drop_first())
    }
}

pub open spec fn view_rstmt<'a>(s: ResolvedStmt<'a>) -> RStmtV<'a> {
    match s {
        ResolvedStmt::Let(x, e) => RStmtV::Let(x, view_rexpr(e)),
        ResolvedStmt::Read(x, t) => RStmtV::Read(x, view_rtype(t)),
        ResolvedStmt::Echo(t, e) => RStmtV::Echo(view_rtype(t), view_rexpr(e)),
        ResolvedStmt::Return(e) => RStmtV::Return(view_rexpr(e)),
    }
}

pub open spec fn view_rstmts<'a>(ss: Seq<ResolvedStmt<'a>>) -> Seq<RStmtV<'a>> {
    ss.map_values(|s: ResolvedStmt<'a>| view_rstmt(s))
}

pub open spec fn view_rctor(a: (ValueId, Vec<ResolvedBinding>)) -> (ValueId, Seq<RBindingV>) {
    (a.0, view_rbindings(a.1@))
}

pub open spec fn view_rdefn<'a>(d: ResolvedDefn<'a>) -> RDefnV<'a> {
    match d {
        ResolvedDefn::Typedef { id, params, arms } => RDefnV::Typedef {
            id,
            params: params@,
            arms: arms@.map_values(|a: (ValueId, Vec<ResolvedBinding>)| view_rctor(a)),
        },
        ResolvedDefn::Fn { id, params, ret_ty, body } => RDefnV::Fn {
            id,
            params: view_rbindings(params@),
            ret_ty: view_rtype(ret_ty),
            body: view_rstmts(body@),
        },
    }
}

pub open spec fn view_rdefns<'a>(ds: Seq<ResolvedDefn<'a>>) -> Seq<RDefnV<'a>> {
    ds.map_values(|d: ResolvedDefn<'a>| view_rdefn(d))
}

pub proof fn lemma_view_rtypes_push(s: Seq<ResolvedType>, x: ResolvedType)
    ensures
        view_rtypes(s.push(x)) == view_rtypes(s).push(view_rtype(x)),
    decreases s.len(),
{
    if s.len() == 0 {
        assert(s.push(x).drop_first() =~= Seq::<ResolvedType>::empty());
        assert(view_rtypes(s.push(x).drop_first()) =~= Seq::<RTypeV>::empty());
        assert(view_rtypes(s.push(x)) =~= seq![view_rtype(x)]);
    } else {
        assert(s.push(x).drop_first() =~= s.drop_first().push(x));
        lemma_view_rtypes_push(s.drop_first(), x);
        assert(view_rtypes(s.push(x)) =~= view_rtypes(s).push(view_rtype(x)));
    }
}

pub proof fn lemma_view_rexprs_push<'a>(s: Seq<ResolvedExpr<'a>>, x: ResolvedExpr<'a>)
    ensures
        view_rexprs(s.push(x)) == view_rexprs(s).push(view_rexpr(x)),
    decreases s.len(),
{
    if s.len() == 0 {
        assert(s.push(x).drop_first() =~= Seq::<ResolvedExpr<'a>>::empty());
        assert(view_rexprs(s.push(x).drop_first()) =~= Seq::<RExprV<'a>>::empty());
        assert(view_rexprs(s.push(x)) =~= seq![view_rexpr(x)]);
    } else {
        assert(s.push(x).drop_first() =~= s.drop_first().push(x));
        lemma_view_rexprs_push(s.drop_first(), x);
        assert(view_rexprs(s.push(x)) =~= view_rexprs(s).push(view_rexpr(x)));
    }
}

pub proof fn lemma_view_rarms_push<'a>(s: Seq<ResolvedMatchArm<'a>>, x: ResolvedMatchArm<'a>)
    ensures
        view_rarms(s.push(x)) == view_rarms(s).push(
            RArmV { ctor: x.id, bindings: x.bindings@, body: view_rexpr(x.expr) },
        ),
    decreases s.len(),
{
    if s.len() == 0 {
        assert(s.push(x).drop_first() =~= Seq::<ResolvedMatchArm<'a>>::empty());
        assert(view_rarms(s.push(x).drop_first()) =~= Seq::<RArmV<'a>>::empty());
        assert(view_rarms(s.push(x)) =~= seq![
            RArmV { ctor: x.id, bindings: x.bindings@, body: view_rexpr(x.expr) },
        ]);
    } else {
        assert(s.push(x).drop_first() =~= s.drop_first().push(x));
        lemma_view_rarms_push(s.drop_first(), x);
        assert(view_rarms(s.push(x)) =~= view_rarms(s).push(
            RArmV { ctor: x.id, bindings: x.bindings@, body: view_rexpr(x.expr) },
        ));
    }
}

/// Builds the resolved expression for a unary operator.
pub fn make_unop<'a>(op: UnOp, x: ResolvedExpr<'a>) -> (e: ResolvedExpr<'a>)
    ensures
        view_rexpr(e) == RExprV::Unary(op, Box::new(view_rexpr(x))),
{
    match op {
        UnOp::Neg => ResolvedExpr::Neg(Box::new(x)),
        UnOp::FNeg => ResolvedExpr::FNeg(Box::new(x)),
        UnOp::Bang => ResolvedExpr::Bang(Box::new(x)),
    }
}

/// Builds the resolved expression for a binary operator.
pub fn make_binop<'a>(op: BinOp, l: ResolvedExpr<'a>, r: ResolvedExpr<'a>) -> (e: ResolvedExpr<'a>)
    ensures
        view_rexpr(e) == RExprV::Binary(op, Box::new(view_rexpr(l)), Box::new(view_rexpr(r))),
{
    let (l, r) = (Box::new(l), Box::new(r));
    match op {
        BinOp::Plus => ResolvedExpr::Plus(l, r),
        BinOp::Minus => ResolvedExpr::Minus(l, r),
        BinOp::Mult => ResolvedExpr::Mult(l, r),
        BinOp::Div => ResolvedExpr::Div(l, r),
        BinOp::FPlus => ResolvedExpr::FPlus(l, r),
        BinOp::FMinus => ResolvedExpr::FMinus(l, r),
        BinOp::FMult => ResolvedExpr::FMult(l, r),
        BinOp::FDiv => ResolvedExpr::FDiv(l, r),
        BinOp::Pipe => ResolvedExpr::Pipe(l, r),
        BinOp::Less => ResolvedExpr::Lt(l, r),
        BinOp::LessEq => ResolvedExpr::LtEq(l, r),
        BinOp::Greater => ResolvedExpr::Gt(l, r),
        BinOp::GreaterEq => ResolvedExpr::GtEq(l, r),
        BinOp::FLess => ResolvedExpr::FLt(l, r),
        BinOp::FLessEq => ResolvedExpr::FLtEq(l, r),
        BinOp::FGreater => ResolvedExpr::FGt(l, r),
        BinOp::FGreaterEq => ResolvedExpr::FGtEq(l, r),
        BinOp::Eq => ResolvedExpr::Eq(l, r),
        BinOp::NotEq => ResolvedExpr::NotEq(l, r),
        BinOp::Or => ResolvedExpr::Or(l, r),
        BinOp::And => ResolvedExpr::And(l, r),
    }
}


// ─── errors ─────────────────────────────────────────────────────────

/// Why a program could not be resolved.
#[derive(Debug, PartialEq, Eq, Clone, Copy)]
pub enum ResolveError<'a> {
    /// A name was to be declared while no scope was open.
    NoScope,
    /// The identifiers of one kind are exhausted.
    TooManyIds,
    /// The name is declared twice in one scope.
    Duplicate(&'a str),
    /// The name is not bound to a value.
    UnboundValue(&'a str),
    /// A match arm names no known constructor.
    UnknownVariant(&'a str),
    /// A type name is not in scope.
    UnknownType(&'a str),
    /// A constructor field uses a type parameter that the typedef does not declare.
    UnknownTypeParam(&'a str),
    /// A typedef whose name was not declared in the global scope.
    TypeNotInScope(&'a str),
    /// A constructor that was not declared in the global scope.
    ConstructorNotInScope(&'a str),
    /// A function that was not declared in the global scope.
    FunctionNotInScope(&'a str),
    /// The program has no `main` function.
    MissingMain,
}

/// The message that describes an error.
pub open spec fn error_message<'a>(e: ResolveError<'a>) -> Seq<char> {
    match e {
        ResolveError::NoScope => "No current scope to add a name to"@,
        ResolveError::TooManyIds => "Too many identifiers"@,
        ResolveError::Duplicate(x) => x@ + " is already defined in this scope"@,
        ResolveError::UnboundValue(x) => x@ + ": unbound or not a value"@,
        ResolveError::UnknownVariant(x) => "cannot find variant "@ + x@,
        ResolveError::UnknownType(x) => "TypeId "@ + x@ + " not found in context"@,
        ResolveError::UnknownTypeParam(x) => "type parameter not found in field "@ + x@,
        ResolveError::TypeNotInScope(x) => "Type "@ + x@ + " not found in scope"@,
        ResolveError::ConstructorNotInScope(x) => "Constructor "@ + x@ + " not found in scope"@,
        ResolveError::FunctionNotInScope(x) => "Function "@ + x@ + " not found in scope"@,
        ResolveError::MissingMain => "Program must contain a 'main' function"@,
    }
}

fn text2(a: &str, b: &str) -> (r: String)
    ensures
        r@ == a@ + b@,
{
    let mut s = String::from_str(a);
    s.append(b);
    s
}

fn text3(a: &str, b: &str, c: &str) -> (r: String)
    ensures
        r@ == a@ + b@ + c@,
{
    let mut s = String::from_str(a);
    s.append(b);
    s.append(c);
    s
}

impl<'a> ResolveError<'a> {
    /// A description of the error for the user.
    pub fn message(&self) -> (r: String)
        ensures
            r@ == error_message(*self),
    {
        match self {
            ResolveError::NoScope => String::from_str("No current scope to add a name to"),
            ResolveError::TooManyIds => String::from_str("Too many identifiers"),
            ResolveError::Duplicate(x) => text2(x, " is already defined in this scope"),
            ResolveError::UnboundValue(x) => text2(x, ": unbound or not a value"),
            ResolveError::UnknownVariant(x) => text2("cannot find variant ", x),
            ResolveError::UnknownType(x) => text3("TypeId ", x, " not found in context"),
            ResolveError::UnknownTypeParam(x) => text2("type parameter not found in field ", x),
            ResolveError::TypeNotInScope(x) => text3("Type ", x, " not found in scope"),
            ResolveError::ConstructorNotInScope(x) => text3("Constructor ", x, " not found in scope"),
            ResolveError::FunctionNotInScope(x) => text3("Function ", x, " not found in scope"),
            ResolveError::MissingMain => String::from_str("Program must contain a 'main' function"),
        }
    }
}

// ─── the symbol table ───────────────────────────────────────────────

/// One scope: the names declared in it, in order of declaration.
pub struct Env<'a> {
    pub values: Vec<(&'a str, Identifier)>,
}

impl<'a> Env<'a> {
    pub fn new() -> (r: Self)
        ensures
            r.values@.len() == 0,
    {
        Env { values: Vec::new() }
    }
}

impl<'a> Default for Env<'a> {
    fn default() -> (r: Self)
        ensures
            r.values@.len() == 0,
    {
        Env::new()
    }
}

/// A scope, as a sequence of (name, identifier) pairs.
pub type ScopeV = Seq<(Seq<char>, Identifier)>;

/// The model of a symbol table: how many identifiers of each kind have been
/// handed out, and the open scopes, innermost last.
pub struct CtxV {
    pub types: nat,
    pub params: nat,
    pub values: nat,
    pub scopes: Seq<ScopeV>,
}

pub open spec fn scope_view<'a>(e: Env<'a>) -> ScopeV {
    e.values@.map_values(|p: (&'a str, Identifier)| (p.0@, p.1))
}

/// The latest declaration of `name` in one scope.
pub open spec fn scope_find(sc: ScopeV, name: Seq<char>) -> Option<Identifier>
    decreases sc.len(),
{
    if sc.len() == 0 {
        None
    } else if sc.last().0 == name {
        Some(sc.last().1)
    } else {
        scope_find(sc.drop_last(), name)
    }
}

/// The declaration of `name` in the innermost scope that declares it.
pub open spec fn scopes_find(scs: Seq<ScopeV>, name: Seq<char>) -> Option<Identifier>
    decreases scs.len(),
{
    if scs.len() == 0 {
        None
    } else {
        match scope_find(scs.last(), name) {
            Some(id) => Some(id),
            None => scopes_find(scs.drop_last(), name),
        }
    }
}

pub open spec fn lookup_v(c: CtxV, name: Seq<char>) -> Option<Identifier> {
    scopes_find(c.scopes, name)
}

pub open spec fn lookup_value_v(c: CtxV, name: Seq<char>) -> Option<ValueId> {
    match lookup_v(c, name) {
        Some(Identifier::ValueId(v)) => Some(v),
        _ => None,
    }
}

pub open spec fn lookup_type_v(c: CtxV, name: Seq<char>) -> Option<TypeId> {
    match lookup_v(c, name) {
        Some(Identifier::TypeId(v)) => Some(v),
        _ => None,
    }
}

pub open spec fn lookup_typeparam_v(c: CtxV, name: Seq<char>) -> Option<TypeParamId> {
    match lookup_v(c, name) {
        Some(Identifier::TypeParamId(v)) => Some(v),
        _ => None,
    }
}

pub open spec fn push_scope_v(c: CtxV) -> CtxV {
    CtxV { types: c.types, params: c.params, values: c.values, scopes: c.scopes.push(Seq::empty()) }
}

pub open spec fn pop_scope_v(c: CtxV) -> CtxV {
    if c.scopes.len() == 0 {
        c
    } else {
        CtxV { types: c.types, params: c.params, values: c.values, scopes: c.scopes.drop_last() }
    }
}

/// Declares `name` as `id` in the innermost scope.
pub open spec fn bind_v(c: CtxV, name: Seq<char>, id: Identifier) -> CtxV {
    let n = c.scopes.len() - 1;
    CtxV {
        types: c.types,
        params: c.params,
        values: c.values,
        scopes: c.scopes.update(n, c.scopes[n].push((name, id))),
    }
}

/// Declares `name` as a fresh value.
pub open spec fn add_value_v<'a>(c: CtxV, name: &'a str) -> (CtxV, Result<ValueId, ResolveError<'a>>) {
    if c.scopes.len() == 0 {
        (c, Err(ResolveError::NoScope))
    } else if c.values >= usize::MAX {
        (c, Err(ResolveError::TooManyIds))
    } else {
        let id = ValueId(c.values as usize);
        let c2 = CtxV { types: c.types, params: c.params, values: c.values + 1, scopes: c.scopes };
        (bind_v(c2, name@, Identifier::ValueId(id)), Ok(id))
    }
}

/// Declares `name` as a fresh type.
pub open spec fn add_type_v<'a>(c: CtxV, name: &'a str) -> (CtxV, Result<TypeId, ResolveError<'a>>) {
    if c.scopes.len() == 0 {
        (c, Err(ResolveError::NoScope))
    } else if c.types >= usize::MAX {
        (c, Err(ResolveError::TooManyIds))
    } else {
        let id = TypeId(c.types as usize);
        let c2 = CtxV { types: c.types + 1, params: c.params, values: c.values, scopes: c.scopes };
        (bind_v(c2, name@, Identifier::TypeId(id)), Ok(id))
    }
}

/// Declares `name` as a fresh type parameter.
pub open spec fn add_typeparam_v<'a>(c: CtxV, name: &'a str) -> (CtxV, Result<TypeParamId, ResolveError<'a>>) {
    if c.scopes.len() == 0 {
        (c, Err(ResolveError::NoScope))
    } else if c.params >= usize::MAX {
        (c, Err(ResolveError::TooManyIds))
    } else {
        let id = TypeParamId(c.params as usize);
        let c2 = CtxV { types: c.types, params: c.params + 1, values: c.values, scopes: c.scopes };
        (bind_v(c2, name@, Identifier::TypeParamId(id)), Ok(id))
    }
}

/// Whether `name` is already declared in the innermost scope.
pub open spec fn declared_here(c: CtxV, name: Seq<char>) -> bool {
    c.scopes.len() > 0 && scope_find(c.scopes.last(), name) is Some
}

/// Declares `name` as a fresh value, refusing a second declaration in the
/// same scope.
pub open spec fn add_value_nodup_v<'a>(c: CtxV, name: &'a str) -> (CtxV, Result<ValueId, ResolveError<'a>>) {
    if declared_here(c, name@) {
        (c, Err(ResolveError::Duplicate(name)))
    } else {
        add_value_v(c, name)
    }
}

/// Declares `name` as a fresh type, refusing a second declaration in the
/// same scope.
pub open spec fn add_type_nodup_v<'a>(c: CtxV, name: &'a str) -> (CtxV, Result<TypeId, ResolveError<'a>>) {
    if declared_here(c, name@) {
        (c, Err(ResolveError::Duplicate(name)))
    } else {
        add_type_v(c, name)
    }
}

proof fn lemma_scope_find_take(sc: ScopeV, name: Seq<char>, j: int)
    requires
        0 < j <= sc.len(),
        sc[j - 1].0 != name,
    ensures
        scope_find(sc.take(j), name) == scope_find(sc.take(j - 1), name),
{
    assert(sc.take(j).drop_last() =~= sc.take(j - 1));
}

proof fn lemma_scopes_find_take(scs: Seq<ScopeV>, name: Seq<char>, i: int)
    requires
        0 < i <= scs.len(),
        scope_find(scs[i - 1], name) is None,
    ensures
        scopes_find(scs.take(i), name) == scopes_find(scs.take(i - 1), name),
{
    assert(scs.take(i).drop_last() =~= scs.take(i - 1));
}

/// The state of name resolution: counters for fresh identifiers and a stack
/// of scopes, innermost last.
pub struct ResolverCtx<'a> {
    num_typeids: usize,
    num_typeparamids: usize,
    num_valueids: usize,
    env: Vec<Env<'a>>,
}

impl<'a> View for ResolverCtx<'a> {
    type V = CtxV;

    closed spec fn view(&self) -> CtxV {
        CtxV {
            types: self.num_typeids as nat,
            params: self.num_typeparamids as nat,
            values: self.num_valueids as nat,
            scopes: self.env@.map_values(|e: Env<'a>| scope_view(e)),
        }
    }
}

impl<'a> ResolverCtx<'a> {
    /// A table with one empty (global) scope and no identifiers handed out.
    pub fn new() -> (r: Self)
        ensures
            r@ == (CtxV { types: 0, params: 0, values: 0, scopes: seq![Seq::empty()] }),
    {
        let mut env = Vec::new();
        env.push(Env::new());
        let r = ResolverCtx { num_typeids: 0, num_typeparamids: 0, num_valueids: 0, env };
        assert(scope_view(r.env@[0]) =~= Seq::<(Seq<char>, Identifier)>::empty());
        assert(r@.scopes =~= seq![Seq::<(Seq<char>, Identifier)>::empty()]);
        r
    }

    /// A fresh type identifier.
    pub fn next_typeid(&mut self) -> (id: TypeId)
        requires
            old(self)@.types < usize::MAX,
        ensures
            id.0 == old(self)@.types,
            final(self)@ == (CtxV { types: old(self)@.types + 1, ..old(self)@ }),
    {
        let id = TypeId(self.num_typeids);
        self.num_typeids = self.num_typeids + 1;
        id
    }

    /// A fresh type parameter identifier.
    pub fn next_typeparamid(&mut self) -> (id: TypeParamId)
        requires
            old(self)@.params < usize::MAX,
        ensures
            id.0 == old(self)@.params,
            final(self)@ == (CtxV { params: old(self)@.params + 1, ..old(self)@ }),
    {
        let id = TypeParamId(self.num_typeparamids);
        self.num_typeparamids = self.num_typeparamids + 1;
        id
    }

    /// A fresh value identifier.
    pub fn next_valueid(&mut self) -> (id: ValueId)
        requires
            old(self)@.values < usize::MAX,
        ensures
            id.0 == old(self)@.values,
            final(self)@ == (CtxV { values: old(self)@.values + 1, ..old(self)@ }),
    {
        let id = ValueId(self.num_valueids);
        self.num_valueids = self.num_valueids + 1;
        id
    }

    fn bind(&mut self, name: &'a str, id: Identifier)
        requires
            old(self)@.scopes.len() > 0,
        ensures
            final(self)@ == bind_v(old(self)@, name@, id),
    {
        let ghost n = self.env@.len() - 1;
        let mut scope = self.env.pop().unwrap();
        assert(scope_view(scope) == old(self)@.scopes[n]);
        scope.values.push((name, id));
        assert(scope_view(scope) =~= old(self)@.scopes[n].push((name@, id)));
        self.env.push(scope);
        assert(self@.scopes =~= bind_v(old(self)@, name@, id).scopes);
    }

    /// Declares `name` as a fresh value in the innermost scope.
    pub(crate) fn try_add_value(&mut self, name: &'a str) -> (r: Result<ValueId, ResolveError<'a>>)
        ensures
            (final(self)@, r) == add_value_v(old(self)@, name),
    {
        if self.env.len() == 0 {
            return Err(ResolveError::NoScope);
        }
        if self.num_valueids == usize::MAX {
            return Err(ResolveError::TooManyIds);
        }
        let id = self.next_valueid();
        self.bind(name, Identifier::ValueId(id));
        Ok(id)
    }

    /// Declares `name` as a fresh type in the innermost scope.
    pub(crate) fn try_add_type(&mut self, name: &'a str) -> (r: Result<TypeId, ResolveError<'a>>)
        ensures
            (final(self)@, r) == add_type_v(old(self)@, name),
    {
        if self.env.len() == 0 {
            return Err(ResolveError::NoScope);
        }
        if self.num_typeids == usize::MAX {
            return Err(ResolveError::TooManyIds);
        }
        let id = self.next_typeid();
        self.bind(name, Identifier::TypeId(id));
        Ok(id)
    }

    /// Declares `name` as a fresh type parameter in the innermost scope.
    pub(crate) fn try_add_typeparam(&mut self, name: &'a str) -> (r: Result<TypeParamId, ResolveError<'a>>)
        ensures
            (final(self)@, r) == add_typeparam_v(old(self)@, name),
    {
        if self.env.len() == 0 {
            return Err(ResolveError::NoScope);
        }
        if self.num_typeparamids == usize::MAX {
            return Err(ResolveError::TooManyIds);
        }
        let id = self.next_typeparamid();
        self.bind(name, Identifier::TypeParamId(id));
        Ok(id)
    }

    /// Whether `name` is declared in the innermost scope.
    pub fn is_declared_here(&self, name: &str) -> (r: bool)
        ensures
            r == declared_here(self@, name@),
    {
        if self.env.len() == 0 {
            return false;
        }
        let scope = &self.env[self.env.len() - 1];
        let ghost sc = scope_view(*scope);
        assert(sc == self@.scopes.last());
        let mut j = scope.values.len();
        assert(sc.take(j as int) =~= sc);
        while j > 0
            invariant
                j <= scope.values@.len(),
                sc == scope_view(*scope),
                sc == self@.scopes.last(),
                self@.scopes.len() > 0,
                scope_find(sc, name@) == scope_find(sc.take(j as int), name@),
            decreases j,
        {
            if str_eq(scope.values[j - 1].0, name) {
                assert(sc.take(j as int).last() == sc[j - 1]);
                return true;
            }
            proof {
                lemma_scope_find_take(sc, name@, j as int);
            }
            j = j - 1;
        }
        assert(sc.take(0) =~= Seq::<(Seq<char>, Identifier)>::empty());
        false
    }

    /// Declares `name` as a fresh value, refusing a name already declared in
    /// the innermost scope.
    pub fn add_value_nodup(&mut self, name: &'a str) -> (r: Result<ValueId, ResolveError<'a>>)
        ensures
            (final(self)@, r) == add_value_nodup_v(old(self)@, name),
    {
        if self.is_declared_here(name) {
            return Err(ResolveError::Duplicate(name));
        }
        self.try_add_value(name)
    }

    /// Declares `name` as a fresh type, refusing a name already declared in
    /// the innermost scope.
    pub fn add_type_nodup(&mut self, name: &'a str) -> (r: Result<TypeId, ResolveError<'a>>)
        ensures
            (final(self)@, r) == add_type_nodup_v(old(self)@, name),
    {
        if self.is_declared_here(name) {
            return Err(ResolveError::Duplicate(name));
        }
        self.try_add_type(name)
    }

    /// Declares `name` as a fresh value in the innermost scope.
    pub fn add_value(&mut self, name: &'a str) -> (id: ValueId)
        requires
            old(self)@.scopes.len() > 0,
            old(self)@.values < usize::MAX,
        ensures
            add_value_v(old(self)@, name) == (final(self)@, Ok::<ValueId, ResolveError<'a>>(id)),
    {
        let id = self.next_valueid();
        self.bind(name, Identifier::ValueId(id));
        id
    }

    /// Declares `name` as a fresh type in the innermost scope.
    pub fn add_type(&mut self, name: &'a str) -> (id: TypeId)
        requires
            old(self)@.scopes.len() > 0,
            old(self)@.types < usize::MAX,
        ensures
            add_type_v(old(self)@, name) == (final(self)@, Ok::<TypeId, ResolveError<'a>>(id)),
    {
        let id = self.next_typeid();
        self.bind(name, Identifier::TypeId(id));
        id
    }

    /// Declares `name` as a fresh type parameter in the innermost scope.
    pub fn add_typeparam(&mut self, name: &'a str) -> (id: TypeParamId)
        requires
            old(self)@.scopes.len() > 0,
            old(self)@.params < usize::MAX,
        ensures
            add_typeparam_v(old(self)@, name) == (final(self)@, Ok::<TypeParamId, ResolveError<'a>>(id)),
    {
        let id = self.next_typeparamid();
        self.bind(name, Identifier::TypeParamId(id));
        id
    }

    /// Opens a new innermost scope.
    pub fn push_scope(&mut self)
        ensures
            final(self)@ == push_scope_v(old(self)@),
    {
        self.env.push(Env::new());
        assert(scope_view(self.env@.last()) =~= Seq::<(Seq<char>, Identifier)>::empty());
        assert(self@.scopes =~= push_scope_v(old(self)@).scopes);
    }

    /// Closes the innermost scope, forgetting the names declared in it.
    pub fn pop_scope(&mut self)
        ensures
            final(self)@ == pop_scope_v(old(self)@),
    {
        if self.env.len() > 0 {
            let _ = self.env.pop();
            assert(self@.scopes =~= pop_scope_v(old(self)@).scopes);
        }
    }

    /// What `name` stands for in the innermost scope that declares it.
    pub fn lookup(&self, name: &str) -> (r: Option<Identifier>)
        ensures
            r == lookup_v(self@, name@),
    {
        let ghost scs = self@.scopes;
        let mut i = self.env.len();
        assert(scs.take(i as int) =~= scs);
        while i > 0
            invariant
                i <= self.env@.len(),
                scs == self@.scopes,
                scopes_find(scs, name@) == scopes_find(scs.take(i as int), name@),
            decreases i,
        {
            let scope = &self.env[i - 1];
            let ghost sc = scope_view(*scope);
            assert(sc == scs[i - 1]);
            let mut j = scope.values.len();
            assert(sc.take(j as int) =~= sc);
            while j > 0
                invariant
                    j <= scope.values@.len(),
                    sc == scope_view(*scope),
                    0 < i <= self.env@.len(),
                    scs == self@.scopes,
                    sc == scs[i - 1],
                    scopes_find(scs, name@) == scopes_find(scs.take(i as int), name@),
                    scope_find(sc, name@) == scope_find(sc.take(j as int), name@),
                decreases j,
            {
                if str_eq(scope.values[j - 1].0, name) {
                    assert(sc.take(j as int).last() == sc[j - 1]);
                    assert(scs.take(i as int).last() == scs[i - 1]);
                    return Some(scope.values[j - 1].1);
                }
                proof {
                    lemma_scope_find_take(sc, name@, j as int);
                }
                j = j - 1;
            }
            assert(sc.take(0) =~= Seq::<(Seq<char>, Identifier)>::empty());
            proof {
                lemma_scopes_find_take(scs, name@, i as int);
            }
            i = i - 1;
        }
        assert(scs.take(0) =~= Seq::<ScopeV>::empty());
        None
    }

    /// The value that `name` stands for, if its innermost declaration is a value.
    pub fn lookup_value(&self, name: &str) -> (r: Option<ValueId>)
        ensures
            r == lookup_value_v(self@, name@),
    {
        match self.lookup(name) {
            Some(Identifier::ValueId(v)) => Some(v),
            _ => None,
        }
    }

    /// The type that `name` stands for, if its innermost declaration is a type.
    pub fn lookup_type(&self, name: &str) -> (r: Option<TypeId>)
        ensures
            r == lookup_type_v(self@, name@),
    {
        match self.lookup(name) {
            Some(Identifier::TypeId(v)) => Some(v),
            _ => None,
        }
    }

    /// The type parameter that `name` stands for, if its innermost
    /// declaration is a type parameter.
    pub fn lookup_typeparam(&self, name: &str) -> (r: Option<TypeParamId>)
        ensures
            r == lookup_typeparam_v(self@, name@),
    {
        match self.lookup(name) {
            Some(Identifier::TypeParamId(v)) => Some(v),
            _ => None,
        }
    }
}


// ─── laws of the symbol table ───────────────────────────────────────

/// A name declared as a value is found again, as that value, by the next
/// lookup, whatever it was bound to before (the latest declaration wins).
pub proof fn lemma_lookup_after_add_value<'a>(c: CtxV, name: &'a str)
    requires
        add_value_v(c, name).1 is Ok,
    ensures
        lookup_value_v(add_value_v(c, name).0, name@) == Some(add_value_v(c, name).1->Ok_0),
        lookup_v(add_value_v(c, name).0, name@) == Some(Identifier::ValueId(add_value_v(c, name).1->Ok_0)),
{
    let c1 = add_value_v(c, name).0;
    assert(c1.scopes.last().last().0 == name@);
}

/// A name declared as a type is found again, as that type, by the next lookup.
pub proof fn lemma_lookup_after_add_type<'a>(c: CtxV, name: &'a str)
    requires
        add_type_v(c, name).1 is Ok,
    ensures
        lookup_type_v(add_type_v(c, name).0, name@) == Some(add_type_v(c, name).1->Ok_0),
{
    let c1 = add_type_v(c, name).0;
    assert(c1.scopes.last().last().0 == name@);
}

/// A name declared as a type parameter is found again, as that parameter,
/// by the next lookup.
pub proof fn lemma_lookup_after_add_typeparam<'a>(c: CtxV, name: &'a str)
    requires
        add_typeparam_v(c, name).1 is Ok,
    ensures
        lookup_typeparam_v(add_typeparam_v(c, name).0, name@) == Some(add_typeparam_v(c, name).1->Ok_0),
{
    let c1 = add_typeparam_v(c, name).0;
    assert(c1.scopes.last().last().0 == name@);
}

/// Declaring one name leaves the lookup of every other name unchanged.
pub proof fn lemma_add_value_keeps_other_names<'a>(c: CtxV, name: &'a str, other: Seq<char>)
    requires
        other != name@,
    ensures
        lookup_v(add_value_v(c, name).0, other) == lookup_v(c, other),
{
    let c1 = add_value_v(c, name).0;
    if c.scopes.len() > 0 && c.values < usize::MAX {
        let n = c.scopes.len() - 1;
        assert(c1.scopes.last().drop_last() =~= c.scopes.last());
        assert(c1.scopes.drop_last() =~= c.scopes.drop_last());
    }
}

/// Each kind of identifier is drawn from its own counter: a fresh value is
/// numbered by the values handed out so far, and only that counter moves.
pub proof fn lemma_fresh_value<'a>(c: CtxV, name: &'a str)
    requires
        add_value_v(c, name).1 is Ok,
    ensures
        add_value_v(c, name).1->Ok_0.0 == c.values,
        add_value_v(c, name).0.values == c.values + 1,
        add_value_v(c, name).0.types == c.types,
        add_value_v(c, name).0.params == c.params,
{
}

/// Within one scope, the latest declaration of a name wins: there is one
/// exactly when some entry declares the name, and it is the last such entry.
pub proof fn lemma_scope_find_latest(sc: ScopeV, name: Seq<char>)
    ensures
        scope_find(sc, name) is None <==> forall|i: int| 0 <= i < sc.len() ==> (#[trigger] sc[i]).0 != name,
        scope_find(sc, name) is Some ==> exists|i: int|
            0 <= i < sc.len() && (#[trigger] sc[i]).0 == name && scope_find(sc, name) == Some(sc[i].1) && forall|k: int|
                i < k < sc.len() ==> (#[trigger] sc[k]).0 != name,
    decreases sc.len(),
{
    if sc.len() > 0 {
        let p = sc.drop_last();
        lemma_scope_find_latest(p, name);
        if sc.last().0 == name {
            let i = sc.len() - 1;
            assert(sc[i].0 == name);
        } else {
            assert forall|i: int| 0 <= i < p.len() implies #[trigger] sc[i] == p[i] by {}
            if scope_find(sc, name) is Some {
                let i = choose|i: int|
                    0 <= i < p.len() && (#[trigger] p[i]).0 == name && scope_find(p, name) == Some(p[i].1)
                        && forall|k: int| i < k < p.len() ==> (#[trigger] p[k]).0 != name;
                assert(sc[i] == p[i]);
                assert forall|k: int| i < k < sc.len() implies (#[trigger] sc[k]).0 != name by {
                    if k < p.len() {
                        assert(sc[k] == p[k]);
                    }
                }
            } else {
                assert forall|i: int| 0 <= i < sc.len() implies (#[trigger] sc[i]).0 != name by {
                    if i < p.len() {
                        assert(sc[i] == p[i]);
                    }
                }
            }
        }
    }
}

/// Lookup goes by the innermost scope that declares the name: it finds
/// nothing exactly when no scope declares the name, and otherwise what some
/// scope declares, with no scope further in declaring the name.
pub proof fn lemma_lookup_innermost(scs: Seq<ScopeV>, name: Seq<char>)
    ensures
        scopes_find(scs, name) is None <==> forall|j: int| 0 <= j < scs.len() ==> scope_find(#[trigger] scs[j], name) is None,
        scopes_find(scs, name) is Some ==> exists|j: int|
            0 <= j < scs.len() && scopes_find(scs, name) == scope_find(#[trigger] scs[j], name) && forall|k: int|
                j < k < scs.len() ==> scope_find(#[trigger] scs[k], name) is None,
    decreases scs.len(),
{
    if scs.len() > 0 {
        let p = scs.drop_last();
        lemma_lookup_innermost(p, name);
        let j0 = scs.len() - 1;
        if scope_find(scs.last(), name) is Some {
            assert(scope_find(scs[j0], name) is Some);
        } else {
            assert forall|j: int| 0 <= j < p.len() implies #[trigger] scs[j] == p[j] by {}
            if scopes_find(scs, name) is Some {
                let j = choose|j: int|
                    0 <= j < p.len() && scopes_find(p, name) == scope_find(#[trigger] p[j], name) && forall|k: int|
                        j < k < p.len() ==> scope_find(#[trigger] p[k], name) is None;
                assert(scs[j] == p[j]);
                assert forall|k: int| j < k < scs.len() implies scope_find(#[trigger] scs[k], name) is None by {
                    if k < p.len() {
                        assert(scs[k] == p[k]);
                    }
                }
            } else {
                assert forall|j: int| 0 <= j < scs.len() implies scope_find(#[trigger] scs[j], name) is None by {
                    if j < p.len() {
                        assert(scs[j] == p[j]);
                    }
                }
            }
        }
    }
}

/// Opening a scope hides nothing, and closing it again forgets every name
/// declared inside, restoring the lookups of before.
pub proof fn lemma_scope_closes<'a>(c: CtxV, inner: ScopeV, name: Seq<char>)
    ensures
        lookup_v(push_scope_v(c), name) == lookup_v(c, name),
        lookup_v(
            pop_scope_v(CtxV { types: c.types, params: c.params, values: c.values, scopes: c.scopes.push(inner) }),
            name,
        ) == lookup_v(c, name),
{
    assert(push_scope_v(c).scopes.drop_last() =~= c.scopes);
    assert(c.scopes.push(inner).drop_last() =~= c.scopes);
}

/// A name declared in an inner scope shadows the outer declaration there.
pub proof fn lemma_inner_shadows<'a>(c: CtxV, name: &'a str)
    requires
        add_value_v(push_scope_v(c), name).1 is Ok,
    ensures
        lookup_value_v(add_value_v(push_scope_v(c), name).0, name@) == Some(
            add_value_v(push_scope_v(c), name).1->Ok_0,
        ),
        pop_scope_v(add_value_v(push_scope_v(c), name).0).scopes == c.scopes,
{
    lemma_lookup_after_add_value(push_scope_v(c), name);
    assert(pop_scope_v(add_value_v(push_scope_v(c), name).0).scopes =~= c.scopes);
}


/// `c2` differs from `c` at most in its innermost scope, and hands out no
/// identifier twice: its counters only grow.
pub open spec fn inner_change(c: CtxV, c2: CtxV) -> bool {
    &&& c2.scopes.len() == c.scopes.len()
    &&& c2.scopes.drop_last() == c.scopes.drop_last()
    &&& c2.types >= c.types
    &&& c2.params >= c.params
    &&& c2.values >= c.values
}

/// `c2` has the scopes of `c`, and counters at least as large.
pub open spec fn same_scopes(c: CtxV, c2: CtxV) -> bool {
    &&& c2.scopes == c.scopes
    &&& c2.types >= c.types
    &&& c2.params >= c.params
    &&& c2.values >= c.values
}

pub proof fn lemma_declare_inner<'a>(c: CtxV, name: &'a str)
    ensures
        inner_change(c, add_value_v(c, name).0),
        inner_change(c, add_type_v(c, name).0),
        inner_change(c, add_typeparam_v(c, name).0),
{
    if c.scopes.len() > 0 {
        assert(add_value_v(c, name).0.scopes.drop_last() =~= c.scopes.drop_last());
        assert(add_type_v(c, name).0.scopes.drop_last() =~= c.scopes.drop_last());
        assert(add_typeparam_v(c, name).0.scopes.drop_last() =~= c.scopes.drop_last());
    }
}

} // verus!
