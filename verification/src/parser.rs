//! A recursive-descent parser with precedence climbing for expressions.
//! Every parsing function computes the corresponding function of `grammar`
//! on the parser's tokens and position.
use vstd::prelude::*;

use crate::ast::{
    DefnV, StmtV, ArmBinding, Binding, Constructor, Defn, Expr, ExprKind, ExprKindV, is_binop_kind, spec_binop, MatchArm, ParsedArmBinding, ParsedBinding,
    ParsedDefn, ParsedExpr, ParsedStmt, Stmt, Type, lemma_view_arms_push, lemma_view_exprs_push,
    lemma_view_types_push, view_arm_binding, view_arm_bindings, view_arms,
    view_binding, view_bindings, view_expr, view_exprs, view_type, view_types,
};
use crate::grammar::{
    BV, DV, SV, defn_start_kinds, sp_body, sp_ctors_rest, sp_defn, sp_fn_sig, sp_fndef, sp_program,
    sp_stmt, sp_synchronize, sp_type_params, sp_type_params_rest, sp_typedef, stmt_start_kinds,
    EV, ParseErrorV, Step, Toks, adv, failed, binop_of, error_at, expr_start_kinds, kind_at, mk_expr,
    ok, prec_of, sp_args_rest, sp_arms, sp_atom, sp_call, sp_closure, sp_expr, sp_expr_prec, sp_if,
    sp_infix, sp_match, sp_null, sp_paren, sp_unary, sp_arm_binding,
    sp_arm_binding_list, sp_arm_binding_list_rest, sp_binding, sp_binding_list,
    sp_binding_list_rest, sp_expect, sp_expect_bool, sp_expect_float, sp_expect_id, sp_expect_int,
    sp_expect_many, sp_expect_type_param, sp_expect_typeid, sp_type, sp_type_args,
    sp_type_args_rest, type_start_kinds,
};
use crate::spanned::Spanned;
use crate::token::{SpannedToken, Token, TokenKind, token_kind};

verus! {

/// A parse error: the token kinds that would have been accepted, the token
/// found instead, and its offset.
#[derive(Debug)]
pub struct ParseError<'a> {
    pub expected: Vec<TokenKind>,
    pub actual: Token<'a>,
    pub offset: usize,
}

pub type ParseResult<'a, A> = Result<A, ParseError<'a>>;

pub open spec fn view_error<'a>(e: ParseError<'a>) -> ParseErrorV<'a> {
    ParseErrorV { expected: e.expected@, actual: e.actual, offset: e.offset }
}

/// `r` and the final position `pos` are what the step `s` of the grammar
/// describes, reading a value through `view`.
pub open spec fn step_is<'a, T, V>(
    s: Step<'a, V>,
    r: ParseResult<'a, T>,
    pos: usize,
    view: spec_fn(T) -> V,
) -> bool {
    &&& s.pos == pos
    &&& match r {
        Ok(x) => s.out matches Ok(v) && v == view(x),
        Err(e) => s.out matches Err(ev) && ev == view_error(e),
    }
}

impl<'a> ParseError<'a> {
    /// The error "expected `expected`, found `actual`".
    pub fn new<A>(expected: TokenKind, actual: &SpannedToken<'a>) -> (r: ParseResult<'a, A>)
        ensures
            r matches Err(e) && e.expected@ == seq![expected] && e.actual == actual.node && e.offset
                == actual.offset,
    {
        let mut v = Vec::new();
        v.push(expected);
        Err(ParseError { expected: v, actual: actual.node, offset: actual.offset })
    }

    /// The error "expected one of `expected`, found `actual`".
    pub fn many<A>(expected: &[TokenKind], actual: &SpannedToken<'a>) -> (r: ParseResult<'a, A>)
        ensures
            r matches Err(e) && e.expected@ == expected@ && e.actual == actual.node && e.offset
                == actual.offset,
    {
        let mut v: Vec<TokenKind> = Vec::new();
        let mut i: usize = 0;
        while i < expected.len()
            invariant
                0 <= i <= expected.len(),
                v@ == expected@.take(i as int),
            decreases expected.len() - i,
        {
            v.push(expected[i]);
            i = i + 1;
            assert(v@ =~= expected@.take(i as int));
        }
        assert(v@ =~= expected@);
        Err(ParseError { expected: v, actual: actual.node, offset: actual.offset })
    }
}

/// The parser's state: the tokens, ending with `EoF`, and the position of
/// the next token.
pub struct Parser<'a> {
    tokens: Vec<SpannedToken<'a>>,
    pos: usize,
    errors: Vec<ParseError<'a>>,
}

impl<'a> Parser<'a> {
    /// The tokens being parsed.
    pub closed spec fn toks(&self) -> Toks<'a> {
        self.tokens@
    }

    /// The position of the next token.
    pub closed spec fn position(&self) -> int {
        self.pos as int
    }

    /// The statement-level errors recorded so far, in order.
    pub closed spec fn recorded(&self) -> Seq<ParseErrorV<'a>> {
        self.errors@.map_values(|e: ParseError<'a>| view_error(e))
    }

    /// The tokens end with `EoF` and the position is inside them.
    pub closed spec fn wf(&self) -> bool {
        &&& self.tokens.len() > 0
        &&& self.pos < self.tokens.len()
        &&& token_kind(self.tokens@.last().node) == TokenKind::EoF
    }

    /// What well-formedness promises: the tokens end with `EoF`, and the
    /// position is that of one of them.
    pub proof fn lemma_wf(&self)
        requires
            self.wf(),
        ensures
            0 < self.toks().len() <= usize::MAX,
            0 <= self.position() < self.toks().len(),
            token_kind(self.toks().last().node) == TokenKind::EoF,
    {
    }

    /// The position of the next token.
    pub fn current_position(&self) -> (r: usize)
        ensures
            r == self.position(),
    {
        self.pos
    }

    /// A parser at the start of `tokens`, which must end with `EoF`.
    pub fn new(tokens: Vec<SpannedToken<'a>>) -> (r: Self)
        requires
            tokens.len() > 0,
            token_kind(tokens@.last().node) == TokenKind::EoF,
        ensures
            r.wf(),
            r.toks() == tokens@,
            r.position() == 0,
            r.recorded() == Seq::<ParseErrorV<'a>>::empty(),
    {
        let r = Parser { tokens, pos: 0, errors: Vec::new() };
        assert(r.recorded() =~= Seq::<ParseErrorV<'a>>::empty());
        r
    }

    /// The next token, without consuming it.
    pub fn peek(&self) -> (r: &SpannedToken<'a>)
        requires
            self.wf(),
        ensures
            *r == self.toks()[self.position()],
    {
        &self.tokens[self.pos]
    }

    /// Consumes and returns the next token; the final `EoF` is never
    /// consumed.
    pub fn advance(&mut self) -> (r: SpannedToken<'a>)
        requires
            old(self).wf(),
        ensures
            final(self).wf(),
            final(self).toks() == old(self).toks(),
            r == old(self).toks()[old(self).position()],
            final(self).position() == adv(old(self).toks(), old(self).position()),
    {
        let t = self.tokens[self.pos];
        if self.pos + 1 < self.tokens.len() {
            self.pos = self.pos + 1;
        }
        t
    }

    /// The error "no progress" at the current token, for a nested parse
    /// that did not move forward.
    fn stuck<A>(&self) -> (r: ParseResult<'a, A>)
        requires
            self.wf(),
        ensures
            r matches Err(e) && view_error(e) == error_at(self.toks(), self.position(), Seq::empty()),
    {
        let t = self.tokens[self.pos];
        Err(ParseError { expected: Vec::new(), actual: t.node, offset: t.offset })
    }

    /// Consumes a token of kind `expected`, or fails without consuming.
    pub fn expect(&mut self, expected: TokenKind) -> (r: ParseResult<'a, ()>)
        requires
            old(self).wf(),
        ensures
            final(self).wf(),
            final(self).toks() == old(self).toks(),
            step_is(sp_expect(old(self).toks(), old(self).position(), expected), r, final(self).position() as usize, |x: ()| x),
    {
        if self.peek().kind() == expected {
            self.advance();
            Ok(())
        } else {
            ParseError::new(expected, self.peek())
        }
    }

    /// Consumes the next token if it is of kind `kind`, and returns it.
    pub fn take_if(&mut self, kind: TokenKind) -> (r: Option<Token<'a>>)
        requires
            old(self).wf(),
        ensures
            final(self).wf(),
            final(self).toks() == old(self).toks(),
            kind_at(old(self).toks(), old(self).position()) == kind ==> r == Some(old(self).toks()[old(self).position()].node)
                && final(self).position() == adv(old(self).toks(), old(self).position()),
            kind_at(old(self).toks(), old(self).position()) != kind ==> r is None && final(self).position() == old(self).position(),
    {
        if self.peek().kind() == kind {
            Some(self.advance().node)
        } else {
            None
        }
    }

    /// Consumes an identifier and returns its name.
    pub fn expect_id(&mut self) -> (r: ParseResult<'a, &'a str>)
        requires
            old(self).wf(),
        ensures
            final(self).wf(),
            final(self).toks() == old(self).toks(),
            step_is(sp_expect_id(old(self).toks(), old(self).position()), r, final(self).position() as usize, |x: &'a str| x),
    {
        match self.take_if(TokenKind::Id) {
            Some(Token::Id(name)) => Ok(name),
            _ => ParseError::new(TokenKind::Id, self.peek()),
        }
    }

    /// Consumes an integer literal and returns its value.
    pub fn expect_int(&mut self) -> (r: ParseResult<'a, i64>)
        requires
            old(self).wf(),
        ensures
            final(self).wf(),
            final(self).toks() == old(self).toks(),
            step_is(sp_expect_int(old(self).toks(), old(self).position()), r, final(self).position() as usize, |x: i64| x),
    {
        match self.take_if(TokenKind::Int) {
            Some(Token::Int(val)) => Ok(val),
            _ => ParseError::new(TokenKind::Int, self.peek()),
        }
    }

    /// Consumes a float literal and returns its source text.
    pub fn expect_float(&mut self) -> (r: ParseResult<'a, &'a str>)
        requires
            old(self).wf(),
        ensures
            final(self).wf(),
            final(self).toks() == old(self).toks(),
            step_is(sp_expect_float(old(self).toks(), old(self).position()), r, final(self).position() as usize, |x: &'a str| x),
    {
        match self.take_if(TokenKind::Float) {
            Some(Token::Float(val)) => Ok(val),
            _ => ParseError::new(TokenKind::Float, self.peek()),
        }
    }

    /// Consumes a boolean literal and returns its value.
    pub fn expect_bool(&mut self) -> (r: ParseResult<'a, bool>)
        requires
            old(self).wf(),
        ensures
            final(self).wf(),
            final(self).toks() == old(self).toks(),
            step_is(sp_expect_bool(old(self).toks(), old(self).position()), r, final(self).position() as usize, |x: bool| x),
    {
        match self.take_if(TokenKind::Bool) {
            Some(Token::Bool(val)) => Ok(val),
            _ => ParseError::new(TokenKind::Bool, self.peek()),
        }
    }

    /// Consumes a type name and returns it.
    pub fn expect_typeid(&mut self) -> (r: ParseResult<'a, &'a str>)
        requires
            old(self).wf(),
        ensures
            final(self).wf(),
            final(self).toks() == old(self).toks(),
            step_is(sp_expect_typeid(old(self).toks(), old(self).position()), r, final(self).position() as usize, |x: &'a str| x),
    {
        match self.take_if(TokenKind::TypeId) {
            Some(Token::TypeId(name)) => Ok(name),
            _ => ParseError::new(TokenKind::TypeId, self.peek()),
        }
    }

    /// Consumes a type parameter and returns it.
    pub fn expect_type_param(&mut self) -> (r: ParseResult<'a, &'a str>)
        requires
            old(self).wf(),
        ensures
            final(self).wf(),
            final(self).toks() == old(self).toks(),
            step_is(sp_expect_type_param(old(self).toks(), old(self).position()), r, final(self).position() as usize, |x: &'a str| x),
    {
        match self.take_if(TokenKind::TypeParam) {
            Some(Token::TypeParam(name)) => Ok(name),
            _ => ParseError::new(TokenKind::TypeParam, self.peek()),
        }
    }

    /// Consumes the next token if its kind is one of `expected`.
    pub fn expect_many(&mut self, expected: &[TokenKind]) -> (r: ParseResult<'a, Token<'a>>)
        requires
            old(self).wf(),
        ensures
            final(self).wf(),
            final(self).toks() == old(self).toks(),
            step_is(sp_expect_many(old(self).toks(), old(self).position(), expected@), r, final(self).position() as usize, |x: Token<'a>| x),
    {
        let k = self.peek().kind();
        let ghost t0 = self.toks();
        let ghost p0 = self.position();
        let mut i: usize = 0;
        while i < expected.len()
            invariant
                self.wf(),
                self.toks() == t0,
                self.position() == p0,
                t0 == old(self).toks(),
                p0 == old(self).position(),
                k == kind_at(self.toks(), self.position()),
                0 <= i <= expected.len(),
                forall|j: int| 0 <= j < i ==> expected@[j] != k,
            decreases expected.len() - i,
        {
            if k == expected[i] {
                return Ok(self.advance().node);
            }
            i = i + 1;
        }
        assert(!expected@.contains(k));
        ParseError::many(expected, self.peek())
    }

    /// Records a statement-level error.
    fn push_error(&mut self, error: ParseError<'a>)
        requires
            old(self).wf(),
        ensures
            final(self).wf(),
            final(self).toks() == old(self).toks(),
            final(self).position() == old(self).position(),
            final(self).recorded() == old(self).recorded().push(view_error(error)),
    {
        self.errors.push(error);
        assert(self.recorded() =~= old(self).recorded().push(view_error(error)));
    }
}


// ─── types and bindings ─────────────────────────────────────────────

fn type_start() -> (r: Vec<TokenKind>)
    ensures
        r@ == type_start_kinds(),
{
    let mut v = Vec::new();
    v.push(TokenKind::IntType);
    v.push(TokenKind::FloatType);
    v.push(TokenKind::BoolType);
    v.push(TokenKind::TypeId);
    v.push(TokenKind::TypeParam);
    assert(v@ =~= type_start_kinds());
    v
}

/// Parses a type; `->` associates to the right.
pub fn parse_type<'a>(parser: &mut Parser<'a>) -> (r: ParseResult<'a, Type<'a>>)
    requires
        old(parser).wf(),
    ensures
        final(parser).wf(),
        final(parser).toks() == old(parser).toks(),
        step_is(sp_type(old(parser).toks(), old(parser).position()), r, final(parser).position() as usize, |x: Type<'a>| view_type(x)),
    decreases old(parser).toks().len() - old(parser).position(),
{
    let ghost t = parser.toks();
    let start = parser.pos;
    let kinds = type_start();
    let tok = match parser.expect_many(kinds.as_slice()) {
        Ok(tok) => tok,
        Err(e) => return Err(e),
    };
    let l_type = match tok {
        Token::IntType => Type::Int,
        Token::FloatType => Type::Float,
        Token::BoolType => Type::Bool,
        Token::TypeParam(x) => Type::TypeParam(x),
        Token::TypeId(x) => {
            if parser.peek().kind() == TokenKind::LParen {
                if parser.pos <= start {
                    return parser.stuck();
                }
                match parse_type_args(parser) {
                    Ok(args) => Type::TypeApp(x, args),
                    Err(e) => return Err(e),
                }
            } else {
                Type::TypeId(x)
            }
        },
        _ => return parser.stuck(),
    };
    if parser.peek().kind() == TokenKind::Arrow {
        parser.advance();
        if parser.pos <= start {
            return parser.stuck();
        }
        match parse_type(parser) {
            Ok(r_type) => Ok(Type::Fn(Box::new(l_type), Box::new(r_type))),
            Err(e) => Err(e),
        }
    } else {
        Ok(l_type)
    }
}

/// Parses `( <type>, ... )`.
fn parse_type_args<'a>(parser: &mut Parser<'a>) -> (r: ParseResult<'a, Vec<Type<'a>>>)
    requires
        old(parser).wf(),
    ensures
        final(parser).wf(),
        final(parser).toks() == old(parser).toks(),
        step_is(sp_type_args(old(parser).toks(), old(parser).position()), r, final(parser).position() as usize, |x: Vec<Type<'a>>| view_types(x@)),
    decreases old(parser).toks().len() - old(parser).position(),
{
    let ghost t = parser.toks();
    let start = parser.pos;
    match parser.expect(TokenKind::LParen) {
        Ok(()) => {},
        Err(e) => return Err(e),
    }
    if parser.pos <= start {
        return parser.stuck();
    }
    if parser.peek().kind() == TokenKind::RParen {
        return match parser.expect(TokenKind::RParen) {
            Ok(()) => Ok(Vec::new()),
            Err(e) => Err(e),
        };
    }
    let first = match parse_type(parser) {
        Ok(ty) => ty,
        Err(e) => return Err(e),
    };
    if parser.pos <= start {
        return parser.stuck();
    }
    let mut args: Vec<Type<'a>> = Vec::new();
    args.push(first);
    proof {
        lemma_view_types_push(Seq::empty(), first);
        assert(Seq::<Type<'a>>::empty().push(first) =~= args@);
    }
    loop
        invariant
            parser.wf(),
            parser.toks() == t,
            t == old(parser).toks(),
            parser.pos > start,
            start == old(parser).position(),
            sp_type_args_rest(t, parser.position(), view_types(args@)) == sp_type_args(t, start as int),
        decreases t.len() - parser.position(),
    {
        let here = parser.pos;
        if parser.peek().kind() == TokenKind::Comma {
            parser.advance();
            if parser.pos <= here {
                return parser.stuck();
            }
            let ty = match parse_type(parser) {
                Ok(ty) => ty,
                Err(e) => return Err(e),
            };
            if parser.pos <= here {
                return parser.stuck();
            }
            proof {
                lemma_view_types_push(args@, ty);
            }
            args.push(ty);
        } else {
            return match parser.expect(TokenKind::RParen) {
                Ok(()) => Ok(args),
                Err(e) => Err(e),
            };
        }
    }
}


/// Parses `<id> : <type>`, located at the identifier.
pub fn parse_binding<'a>(parser: &mut Parser<'a>) -> (r: ParseResult<'a, ParsedBinding<'a>>)
    requires
        old(parser).wf(),
    ensures
        final(parser).wf(),
        final(parser).toks() == old(parser).toks(),
        step_is(sp_binding(old(parser).toks(), old(parser).position()), r, final(parser).position() as usize, |x: ParsedBinding<'a>| view_binding(x)),
{
    let loc = parser.peek().offset;
    let id = match parser.expect_id() {
        Ok(id) => id,
        Err(e) => return Err(e),
    };
    match parser.expect(TokenKind::Colon) {
        Ok(()) => {},
        Err(e) => return Err(e),
    }
    match parse_type(parser) {
        Ok(typ) => Ok(Spanned { offset: loc, node: Binding { id, typ } }),
        Err(e) => Err(e),
    }
}

/// Parses `( <binding>, ... )`.
pub fn parse_binding_list<'a>(parser: &mut Parser<'a>) -> (r: ParseResult<'a, Vec<ParsedBinding<'a>>>)
    requires
        old(parser).wf(),
    ensures
        final(parser).wf(),
        final(parser).toks() == old(parser).toks(),
        step_is(sp_binding_list(old(parser).toks(), old(parser).position()), r, final(parser).position() as usize, |x: Vec<ParsedBinding<'a>>| view_bindings(x@)),
{
    let ghost t = parser.toks();
    match parser.expect(TokenKind::LParen) {
        Ok(()) => {},
        Err(e) => return Err(e),
    }
    let mut bindings: Vec<ParsedBinding<'a>> = Vec::new();
    assert(view_bindings(bindings@) =~= Seq::empty());
    if parser.peek().kind() == TokenKind::RParen {
        return match parser.expect(TokenKind::RParen) {
            Ok(()) => Ok(bindings),
            Err(e) => Err(e),
        };
    }
    match parse_binding(parser) {
        Ok(b) => bindings.push(b),
        Err(e) => return Err(e),
    }
    assert(view_bindings(bindings@) =~= seq![view_binding(bindings@[0])]);
    loop
        invariant
            parser.wf(),
            parser.toks() == t,
            t == old(parser).toks(),
            sp_binding_list_rest(t, parser.position(), view_bindings(bindings@)) == sp_binding_list(t, old(parser).position()),
        decreases t.len() - parser.position(),
    {
        let here = parser.pos;
        if parser.peek().kind() == TokenKind::Comma {
            parser.advance();
            let b = match parse_binding(parser) {
                Ok(b) => b,
                Err(e) => return Err(e),
            };
            if parser.pos <= here {
                return parser.stuck();
            }
            let ghost before = bindings@;
            bindings.push(b);
            assert(view_bindings(bindings@) =~= view_bindings(before).push(view_binding(b)));
        } else {
            return match parser.expect(TokenKind::RParen) {
                Ok(()) => Ok(bindings),
                Err(e) => Err(e),
            };
        }
    }
}

/// Parses a pattern variable `<id>` or `<id> : <type>`.
fn parse_arm_binding<'a>(parser: &mut Parser<'a>) -> (r: ParseResult<'a, ParsedArmBinding<'a>>)
    requires
        old(parser).wf(),
    ensures
        final(parser).wf(),
        final(parser).toks() == old(parser).toks(),
        step_is(sp_arm_binding(old(parser).toks(), old(parser).position()), r, final(parser).position() as usize, |x: ParsedArmBinding<'a>| view_arm_binding(x)),
{
    let loc = parser.peek().offset;
    let id = match parser.expect_id() {
        Ok(id) => id,
        Err(e) => return Err(e),
    };
    if parser.peek().kind() == TokenKind::Colon {
        parser.advance();
        match parse_type(parser) {
            Ok(typ) => Ok(Spanned { offset: loc, node: ArmBinding { id, typ: Some(typ) } }),
            Err(e) => Err(e),
        }
    } else {
        Ok(Spanned { offset: loc, node: ArmBinding { id, typ: None } })
    }
}

/// Parses `( <pattern variable>, ... )`.
fn parse_arm_binding_list<'a>(parser: &mut Parser<'a>) -> (r: ParseResult<'a, Vec<ParsedArmBinding<'a>>>)
    requires
        old(parser).wf(),
    ensures
        final(parser).wf(),
        final(parser).toks() == old(parser).toks(),
        step_is(sp_arm_binding_list(old(parser).toks(), old(parser).position()), r, final(parser).position() as usize, |x: Vec<ParsedArmBinding<'a>>| view_arm_bindings(x@)),
{
    let ghost t = parser.toks();
    match parser.expect(TokenKind::LParen) {
        Ok(()) => {},
        Err(e) => return Err(e),
    }
    let mut bindings: Vec<ParsedArmBinding<'a>> = Vec::new();
    assert(view_arm_bindings(bindings@) =~= Seq::empty());
    if parser.peek().kind() == TokenKind::RParen {
        return match parser.expect(TokenKind::RParen) {
            Ok(()) => Ok(bindings),
            Err(e) => Err(e),
        };
    }
    match parse_arm_binding(parser) {
        Ok(b) => bindings.push(b),
        Err(e) => return Err(e),
    }
    assert(view_arm_bindings(bindings@) =~= seq![view_arm_binding(bindings@[0])]);
    loop
        invariant
            parser.wf(),
            parser.toks() == t,
            t == old(parser).toks(),
            sp_arm_binding_list_rest(t, parser.position(), view_arm_bindings(bindings@)) == sp_arm_binding_list(t, old(parser).position()),
        decreases t.len() - parser.position(),
    {
        let here = parser.pos;
        if parser.peek().kind() == TokenKind::Comma {
            parser.advance();
            let b = match parse_arm_binding(parser) {
                Ok(b) => b,
                Err(e) => return Err(e),
            };
            if parser.pos <= here {
                return parser.stuck();
            }
            let ghost before = bindings@;
            bindings.push(b);
            assert(view_arm_bindings(bindings@) =~= view_arm_bindings(before).push(view_arm_binding(b)));
        } else {
            return match parser.expect(TokenKind::RParen) {
                Ok(()) => Ok(bindings),
                Err(e) => Err(e),
            };
        }
    }
}


// ─── expressions ────────────────────────────────────────────────────

/// The binding power of a token kind in infix position (see `prec_of`).
fn precedence_of(k: TokenKind) -> (r: i8)
    ensures
        r == prec_of(k),
        r > 0 && k != TokenKind::LParen ==> is_binop_kind(k),
{
    match k {
        TokenKind::Times | TokenKind::Divide | TokenKind::FTimes | TokenKind::FDivide => 7,
        TokenKind::Plus | TokenKind::Minus | TokenKind::FPlus | TokenKind::FMinus => 6,
        TokenKind::LessThan | TokenKind::LessThanOrEq | TokenKind::GreaterThan
        | TokenKind::GreaterThanOrEq | TokenKind::FLessThan | TokenKind::FLessThanOrEq
        | TokenKind::FGreaterThan | TokenKind::FGreaterThanOrEq => 5,
        TokenKind::Eq | TokenKind::NotEq => 4,
        TokenKind::And => 3,
        TokenKind::Or => 2,
        TokenKind::Pipe => 1,
        TokenKind::LParen => 8,
        _ => -1,
    }
}

proof fn lemma_binop_view<'a>(op: TokenKind, offset: usize, left: ParsedExpr<'a>, right: ParsedExpr<'a>)
    requires
        is_binop_kind(op),
    ensures
        view_expr(Spanned { offset, node: Expr { ann: (), kind: spec_binop(op, left, right) } })
            == mk_expr(offset, ExprKindV::Binary(binop_of(op), Box::new(view_expr(left)), Box::new(view_expr(right)))),
{
}

/// Parses an expression.
pub fn parse_expr<'a>(parser: &mut Parser<'a>) -> (r: ParseResult<'a, ParsedExpr<'a>>)
    requires
        old(parser).wf(),
    ensures
        final(parser).wf(),
        final(parser).toks() == old(parser).toks(),
        step_is(sp_expr(old(parser).toks(), old(parser).position()), r, final(parser).position() as usize, |x: ParsedExpr<'a>| view_expr(x)),
    decreases old(parser).toks().len() - old(parser).position(), 6int,
{
    parse_expr_prec(parser, -1)
}

/// Parses an expression whose infix operators bind tighter than `min`.
fn parse_expr_prec<'a>(parser: &mut Parser<'a>, min: i8) -> (r: ParseResult<'a, ParsedExpr<'a>>)
    requires
        old(parser).wf(),
        min >= -1,
    ensures
        final(parser).wf(),
        final(parser).toks() == old(parser).toks(),
        step_is(sp_expr_prec(old(parser).toks(), old(parser).position(), min as int), r, final(parser).position() as usize, |x: ParsedExpr<'a>| view_expr(x)),
    decreases old(parser).toks().len() - old(parser).position(), 5int,
{
    let ghost t = parser.toks();
    let start = parser.pos;
    let mut left = match parse_null_denotation(parser) {
        Ok(l) => l,
        Err(e) => return Err(e),
    };
    if parser.pos <= start {
        return parser.stuck();
    }
    loop
        invariant
            parser.wf(),
            parser.toks() == t,
            t == old(parser).toks(),
            start == old(parser).position(),
            parser.pos > start,
            min >= -1,
            sp_infix(t, parser.position(), min as int, view_expr(left)) == sp_expr_prec(t, start as int, min as int),
        decreases t.len() - parser.position(),
    {
        let here = parser.pos;
        let k = parser.peek().kind();
        let prec = precedence_of(k);
        if prec <= min {
            return Ok(left);
        }
        if k == TokenKind::LParen {
            left = match parse_call_expr(parser, left) {
                Ok(l) => l,
                Err(e) => return Err(e),
            };
            if parser.pos <= here {
                return parser.stuck();
            }
        } else {
            let op = parser.advance().kind();
            if parser.pos <= here {
                return parser.stuck();
            }
            let right = match parse_expr_prec(parser, prec) {
                Ok(r) => r,
                Err(e) => return Err(e),
            };
            if parser.pos <= here {
                return parser.stuck();
            }
            let loc = left.offset;
            proof {
                lemma_binop_view(op, loc, left, right);
            }
            left = ParsedExpr::new(loc, ExprKind::binop(op, left, right));
        }
    }
}

/// Parses the arguments of a call of `left`: `( <expr>, ... )`.
fn parse_call_expr<'a>(parser: &mut Parser<'a>, left: ParsedExpr<'a>) -> (r: ParseResult<'a, ParsedExpr<'a>>)
    requires
        old(parser).wf(),
    ensures
        final(parser).wf(),
        final(parser).toks() == old(parser).toks(),
        step_is(sp_call(old(parser).toks(), old(parser).position(), view_expr(left)), r, final(parser).position() as usize, |x: ParsedExpr<'a>| view_expr(x)),
    decreases old(parser).toks().len() - old(parser).position(), 1int,
{
    let ghost t = parser.toks();
    let start = parser.pos;
    match parser.expect(TokenKind::LParen) {
        Ok(()) => {},
        Err(e) => return Err(e),
    }
    if parser.pos <= start {
        return parser.stuck();
    }
    let loc = left.offset;
    let mut args: Vec<ParsedExpr<'a>> = Vec::new();
    if parser.peek().kind() == TokenKind::RParen {
        return match parser.expect(TokenKind::RParen) {
            Ok(()) => {
                assert(view_exprs(args@) =~= Seq::empty());
                Ok(ParsedExpr::new(loc, ExprKind::Call(Box::new(left), args)))
            },
            Err(e) => Err(e),
        };
    }
    let first = match parse_expr(parser) {
        Ok(a) => a,
        Err(e) => return Err(e),
    };
    if parser.pos <= start {
        return parser.stuck();
    }
    let ghost rest0 = sp_args_rest(t, parser.position(), seq![view_expr(first)]);
    proof {
        lemma_view_exprs_push(Seq::empty(), first);
        assert(Seq::<ParsedExpr<'a>>::empty().push(first) =~= seq![first]);
    }
    args.push(first);
    assert(args@ =~= seq![first]);
    loop
        invariant
            parser.wf(),
            parser.toks() == t,
            t == old(parser).toks(),
            parser.pos > start,
            start == old(parser).position(),
            sp_args_rest(t, parser.position(), view_exprs(args@)) == rest0,
            rest0.out is Ok ==> sp_call(t, start as int, view_expr(left)) == ok(mk_expr(loc, ExprKindV::Call(Box::new(view_expr(left)), rest0.out->Ok_0)), rest0.pos),
            rest0.out is Err ==> sp_call(t, start as int, view_expr(left)) == failed::<Seq<EV<'a>>, EV<'a>>(rest0),
            loc == left.offset,
        decreases t.len() - parser.position(),
    {
        let here = parser.pos;
        if parser.peek().kind() == TokenKind::Comma {
            parser.advance();
            if parser.pos <= here {
                return parser.stuck();
            }
            let a = match parse_expr(parser) {
                Ok(a) => a,
                Err(e) => return Err(e),
            };
            if parser.pos <= here {
                return parser.stuck();
            }
            proof {
                lemma_view_exprs_push(args@, a);
            }
            args.push(a);
        } else {
            return match parser.expect(TokenKind::RParen) {
                Ok(()) => Ok(ParsedExpr::new(loc, ExprKind::Call(Box::new(left), args))),
                Err(e) => Err(e),
            };
        }
    }
}

/// Parses an expression's first part.
fn parse_null_denotation<'a>(parser: &mut Parser<'a>) -> (r: ParseResult<'a, ParsedExpr<'a>>)
    requires
        old(parser).wf(),
    ensures
        final(parser).wf(),
        final(parser).toks() == old(parser).toks(),
        step_is(sp_null(old(parser).toks(), old(parser).position()), r, final(parser).position() as usize, |x: ParsedExpr<'a>| view_expr(x)),
    decreases old(parser).toks().len() - old(parser).position(), 4int,
{
    match parser.peek().kind() {
        TokenKind::Int | TokenKind::Float | TokenKind::Bool | TokenKind::Id => parse_atom_expr(parser),
        TokenKind::Minus | TokenKind::FMinus | TokenKind::Not => parse_unary_expr(parser),
        TokenKind::LParen => parse_paren_expr(parser),
        TokenKind::Fn => parse_closure_expr(parser),
        TokenKind::If => parse_if_expr(parser),
        TokenKind::Match => parse_match_expr(parser),
        _ => {
            let mut kinds = Vec::new();
            kinds.push(TokenKind::Int);
            kinds.push(TokenKind::Float);
            kinds.push(TokenKind::Bool);
            kinds.push(TokenKind::Id);
            kinds.push(TokenKind::Minus);
            kinds.push(TokenKind::FMinus);
            kinds.push(TokenKind::Not);
            kinds.push(TokenKind::LParen);
            kinds.push(TokenKind::Fn);
            kinds.push(TokenKind::If);
            kinds.push(TokenKind::Match);
            assert(kinds@ =~= expr_start_kinds());
            ParseError::many(kinds.as_slice(), parser.peek())
        },
    }
}

/// Parses a literal or identifier.
fn parse_atom_expr<'a>(parser: &mut Parser<'a>) -> (r: ParseResult<'a, ParsedExpr<'a>>)
    requires
        old(parser).wf(),
    ensures
        final(parser).wf(),
        final(parser).toks() == old(parser).toks(),
        step_is(sp_atom(old(parser).toks(), old(parser).position()), r, final(parser).position() as usize, |x: ParsedExpr<'a>| view_expr(x)),
{
    let loc = parser.peek().offset;
    match parser.peek().kind() {
        TokenKind::Int => match parser.expect_int() {
            Ok(v) => Ok(ParsedExpr::new(loc, ExprKind::Int(v))),
            Err(e) => Err(e),
        },
        TokenKind::Float => match parser.expect_float() {
            Ok(v) => Ok(ParsedExpr::new(loc, ExprKind::Float(v))),
            Err(e) => Err(e),
        },
        TokenKind::Bool => match parser.expect_bool() {
            Ok(v) => Ok(ParsedExpr::new(loc, ExprKind::Bool(v))),
            Err(e) => Err(e),
        },
        TokenKind::Id => match parser.expect_id() {
            Ok(v) => Ok(ParsedExpr::new(loc, ExprKind::Id(v))),
            Err(e) => Err(e),
        },
        _ => parser.stuck(),
    }
}

/// Parses `- <expr>`, `-. <expr>` or `! <expr>`.
fn parse_unary_expr<'a>(parser: &mut Parser<'a>) -> (r: ParseResult<'a, ParsedExpr<'a>>)
    requires
        old(parser).wf(),
    ensures
        final(parser).wf(),
        final(parser).toks() == old(parser).toks(),
        step_is(sp_unary(old(parser).toks(), old(parser).position()), r, final(parser).position() as usize, |x: ParsedExpr<'a>| view_expr(x)),
    decreases old(parser).toks().len() - old(parser).position(), 3int,
{
    let start = parser.pos;
    let loc = parser.peek().offset;
    let k = parser.advance().kind();
    if parser.pos <= start {
        return parser.stuck();
    }
    let e = match parse_expr_prec(parser, 7) {
        Ok(e) => e,
        Err(err) => return Err(err),
    };
    if k == TokenKind::Minus {
        Ok(ParsedExpr::new(loc, ExprKind::Neg(Box::new(e))))
    } else if k == TokenKind::FMinus {
        Ok(ParsedExpr::new(loc, ExprKind::FNeg(Box::new(e))))
    } else {
        Ok(ParsedExpr::new(loc, ExprKind::Bang(Box::new(e))))
    }
}

/// Parses `( <expr> )`; the result is located at the opening parenthesis.
fn parse_paren_expr<'a>(parser: &mut Parser<'a>) -> (r: ParseResult<'a, ParsedExpr<'a>>)
    requires
        old(parser).wf(),
    ensures
        final(parser).wf(),
        final(parser).toks() == old(parser).toks(),
        step_is(sp_paren(old(parser).toks(), old(parser).position()), r, final(parser).position() as usize, |x: ParsedExpr<'a>| view_expr(x)),
    decreases old(parser).toks().len() - old(parser).position(), 3int,
{
    let start = parser.pos;
    let loc = parser.peek().offset;
    match parser.expect(TokenKind::LParen) {
        Ok(()) => {},
        Err(e) => return Err(e),
    }
    if parser.pos <= start {
        return parser.stuck();
    }
    let e = match parse_expr(parser) {
        Ok(e) => e,
        Err(err) => return Err(err),
    };
    match parser.expect(TokenKind::RParen) {
        Ok(()) => Ok(Spanned { offset: loc, node: e.node }),
        Err(err) => Err(err),
    }
}

/// Parses `fn ( <binding> ) -> <expr>`.
fn parse_closure_expr<'a>(parser: &mut Parser<'a>) -> (r: ParseResult<'a, ParsedExpr<'a>>)
    requires
        old(parser).wf(),
    ensures
        final(parser).wf(),
        final(parser).toks() == old(parser).toks(),
        step_is(sp_closure(old(parser).toks(), old(parser).position()), r, final(parser).position() as usize, |x: ParsedExpr<'a>| view_expr(x)),
    decreases old(parser).toks().len() - old(parser).position(), 3int,
{
    let start = parser.pos;
    let loc = parser.peek().offset;
    match parser.expect(TokenKind::Fn) {
        Ok(()) => {},
        Err(e) => return Err(e),
    }
    match parser.expect(TokenKind::LParen) {
        Ok(()) => {},
        Err(e) => return Err(e),
    }
    let binding = match parse_binding(parser) {
        Ok(b) => b,
        Err(e) => return Err(e),
    };
    match parser.expect(TokenKind::RParen) {
        Ok(()) => {},
        Err(e) => return Err(e),
    }
    match parser.expect(TokenKind::Arrow) {
        Ok(()) => {},
        Err(e) => return Err(e),
    }
    if parser.pos <= start {
        return parser.stuck();
    }
    match parse_expr(parser) {
        Ok(body) => Ok(ParsedExpr::new(loc, ExprKind::Fn(binding, Box::new(body)))),
        Err(e) => Err(e),
    }
}

/// Parses `if <expr> then <expr> else <expr>`.
fn parse_if_expr<'a>(parser: &mut Parser<'a>) -> (r: ParseResult<'a, ParsedExpr<'a>>)
    requires
        old(parser).wf(),
    ensures
        final(parser).wf(),
        final(parser).toks() == old(parser).toks(),
        step_is(sp_if(old(parser).toks(), old(parser).position()), r, final(parser).position() as usize, |x: ParsedExpr<'a>| view_expr(x)),
    decreases old(parser).toks().len() - old(parser).position(), 3int,
{
    let start = parser.pos;
    let loc = parser.peek().offset;
    match parser.expect(TokenKind::If) {
        Ok(()) => {},
        Err(e) => return Err(e),
    }
    if parser.pos <= start {
        return parser.stuck();
    }
    let cond = match parse_expr(parser) {
        Ok(e) => e,
        Err(e) => return Err(e),
    };
    match parser.expect(TokenKind::Then) {
        Ok(()) => {},
        Err(e) => return Err(e),
    }
    if parser.pos <= start {
        return parser.stuck();
    }
    let then_branch = match parse_expr(parser) {
        Ok(e) => e,
        Err(e) => return Err(e),
    };
    match parser.expect(TokenKind::Else) {
        Ok(()) => {},
        Err(e) => return Err(e),
    }
    if parser.pos <= start {
        return parser.stuck();
    }
    match parse_expr(parser) {
        Ok(else_branch) => Ok(
            ParsedExpr::new(
                loc,
                ExprKind::If(Box::new(cond), Box::new(then_branch), Box::new(else_branch)),
            ),
        ),
        Err(e) => Err(e),
    }
}

/// Parses `match <expr> { <arm>, ... }`.
fn parse_match_expr<'a>(parser: &mut Parser<'a>) -> (r: ParseResult<'a, ParsedExpr<'a>>)
    requires
        old(parser).wf(),
    ensures
        final(parser).wf(),
        final(parser).toks() == old(parser).toks(),
        step_is(sp_match(old(parser).toks(), old(parser).position()), r, final(parser).position() as usize, |x: ParsedExpr<'a>| view_expr(x)),
    decreases old(parser).toks().len() - old(parser).position(), 3int,
{
    let start = parser.pos;
    let loc = parser.peek().offset;
    match parser.expect(TokenKind::Match) {
        Ok(()) => {},
        Err(e) => return Err(e),
    }
    if parser.pos <= start {
        return parser.stuck();
    }
    let scrutinee = match parse_expr(parser) {
        Ok(e) => e,
        Err(e) => return Err(e),
    };
    match parser.expect(TokenKind::LBrace) {
        Ok(()) => {},
        Err(e) => return Err(e),
    }
    if parser.pos <= start {
        return parser.stuck();
    }
    let arms = match parse_match_arms(parser) {
        Ok(a) => a,
        Err(e) => return Err(e),
    };
    match parser.expect(TokenKind::RBrace) {
        Ok(()) => Ok(ParsedExpr::new(loc, ExprKind::Match(Box::new(scrutinee), arms))),
        Err(e) => Err(e),
    }
}

/// Parses match arms up to the closing brace.
fn parse_match_arms<'a>(parser: &mut Parser<'a>) -> (r: ParseResult<'a, Vec<MatchArm<'a, ()>>>)
    requires
        old(parser).wf(),
    ensures
        final(parser).wf(),
        final(parser).toks() == old(parser).toks(),
        step_is(sp_arms(old(parser).toks(), old(parser).position(), Seq::empty()), r, final(parser).position() as usize, |x: Vec<MatchArm<'a, ()>>| view_arms(x@)),
    decreases old(parser).toks().len() - old(parser).position(), 0int,
{
    let ghost t = parser.toks();
    let start = parser.pos;
    let mut arms: Vec<MatchArm<'a, ()>> = Vec::new();
    assert(view_arms(arms@) =~= Seq::empty());
    loop
        invariant
            parser.wf(),
            parser.toks() == t,
            t == old(parser).toks(),
            start == old(parser).position(),
            parser.pos >= start,
            sp_arms(t, parser.position(), view_arms(arms@)) == sp_arms(t, start as int, Seq::empty()),
        decreases t.len() - parser.position(),
    {
        let here = parser.pos;
        if parser.peek().kind() == TokenKind::RBrace {
            return Ok(arms);
        }
        let ctor = match parser.expect_id() {
            Ok(c) => c,
            Err(e) => return Err(e),
        };
        let bindings = match parse_arm_binding_list(parser) {
            Ok(b) => b,
            Err(e) => return Err(e),
        };
        match parser.expect(TokenKind::Arrow) {
            Ok(()) => {},
            Err(e) => return Err(e),
        }
        if parser.pos <= here {
            return parser.stuck();
        }
        let body = match parse_expr(parser) {
            Ok(e) => e,
            Err(e) => return Err(e),
        };
        let arm = (ctor, bindings, body);
        proof {
            lemma_view_arms_push(arms@, arm);
        }
        if parser.peek().kind() == TokenKind::Comma {
            parser.advance();
            if parser.pos <= here {
                return parser.stuck();
            }
            arms.push(arm);
        } else {
            arms.push(arm);
            return Ok(arms);
        }
    }
}


// ─── statements ─────────────────────────────────────────────────────

pub open spec fn view_stmt<'a>(s: ParsedStmt<'a>) -> SV<'a> {
    Spanned {
        offset: s.offset,
        node: match s.node {
            Stmt::Let(x, e) => StmtV::Let(x, view_expr(e)),
            Stmt::Read(ty, x) => StmtV::Read(view_type(ty), x),
            Stmt::Echo(ty, e) => StmtV::Echo(view_type(ty), view_expr(e)),
            Stmt::Return(e) => StmtV::Return(view_expr(e)),
        },
    }
}

pub open spec fn view_stmts<'a>(ss: Seq<ParsedStmt<'a>>) -> Seq<SV<'a>> {
    ss.map_values(|s: ParsedStmt<'a>| view_stmt(s))
}

/// Parses a statement.
pub fn parse_stmt<'a>(parser: &mut Parser<'a>) -> (r: ParseResult<'a, ParsedStmt<'a>>)
    requires
        old(parser).wf(),
    ensures
        final(parser).wf(),
        final(parser).toks() == old(parser).toks(),
        step_is(sp_stmt(old(parser).toks(), old(parser).position()), r, final(parser).position() as usize, |x: ParsedStmt<'a>| view_stmt(x)),
{
    let loc = parser.peek().offset;
    match parser.peek().kind() {
        TokenKind::Let => {
            parser.advance();
            let id = match parser.expect_id() {
                Ok(id) => id,
                Err(e) => return Err(e),
            };
            match parser.expect(TokenKind::Assign) {
                Ok(()) => {},
                Err(e) => return Err(e),
            }
            let expr = match parse_expr(parser) {
                Ok(e) => e,
                Err(e) => return Err(e),
            };
            match parser.expect(TokenKind::Semicolon) {
                Ok(()) => Ok(ParsedStmt::make_let(loc, id, expr)),
                Err(e) => Err(e),
            }
        },
        TokenKind::Read => {
            parser.advance();
            let read_type = match parse_type(parser) {
                Ok(t) => t,
                Err(e) => return Err(e),
            };
            let id = match parser.expect_id() {
                Ok(id) => id,
                Err(e) => return Err(e),
            };
            match parser.expect(TokenKind::Semicolon) {
                Ok(()) => Ok(ParsedStmt::make_read(loc, read_type, id)),
                Err(e) => Err(e),
            }
        },
        TokenKind::Echo => {
            parser.advance();
            let echo_type = match parse_type(parser) {
                Ok(t) => t,
                Err(e) => return Err(e),
            };
            let expr = match parse_expr(parser) {
                Ok(e) => e,
                Err(e) => return Err(e),
            };
            match parser.expect(TokenKind::Semicolon) {
                Ok(()) => Ok(ParsedStmt::make_echo(loc, echo_type, expr)),
                Err(e) => Err(e),
            }
        },
        TokenKind::Return => {
            parser.advance();
            let expr = match parse_expr(parser) {
                Ok(e) => e,
                Err(e) => return Err(e),
            };
            match parser.expect(TokenKind::Semicolon) {
                Ok(()) => Ok(ParsedStmt::make_return(loc, expr)),
                Err(e) => Err(e),
            }
        },
        _ => {
            let mut kinds = Vec::new();
            kinds.push(TokenKind::Let);
            kinds.push(TokenKind::Read);
            kinds.push(TokenKind::Echo);
            kinds.push(TokenKind::Return);
            assert(kinds@ =~= stmt_start_kinds());
            ParseError::many(kinds.as_slice(), parser.peek())
        },
    }
}

impl<'a> Parser<'a> {
    /// Error recovery: skips tokens up to the next `}`, statement keyword,
    /// or the end of input.
    fn synchronize(&mut self)
        requires
            old(self).wf(),
        ensures
            final(self).wf(),
            final(self).toks() == old(self).toks(),
            final(self).position() == sp_synchronize(old(self).toks(), old(self).position()),
    {
        let ghost t = self.toks();
        let ghost target = sp_synchronize(t, self.position());
        loop
            invariant
                self.wf(),
                self.toks() == t,
                t == old(self).toks(),
                sp_synchronize(t, self.position()) == target,
            ensures
                self.wf(),
                self.toks() == t,
                self.position() == target,
            decreases t.len() - self.position(),
        {
            let k = self.peek().kind();
            if k == TokenKind::EoF || k == TokenKind::RBrace || k == TokenKind::Let || k == TokenKind::Read
                || k == TokenKind::Echo || k == TokenKind::Return {
                break;
            }
            let here = self.pos;
            self.advance();
            if self.pos <= here {
                break;
            }
        }
    }
}

// ─── definitions ────────────────────────────────────────────────────

pub open spec fn view_ctor<'a>(c: Constructor<'a>) -> (&'a str, Seq<BV<'a>>) {
    (c.0, view_bindings(c.1@))
}

pub open spec fn view_defn<'a>(d: ParsedDefn<'a>) -> DV<'a> {
    Spanned {
        offset: d.offset,
        node: match d.node {
            Defn::Typedef { id, ty_vars, arms } => DefnV::Typedef {
                id,
                ty_vars: ty_vars@,
                arms: arms@.map_values(|c: Constructor<'a>| view_ctor(c)),
            },
            Defn::Fn { name, bindings, ret_ty, body } => DefnV::Fn {
                name,
                bindings: view_bindings(bindings@),
                ret_ty: view_type(ret_ty),
                body: view_stmts(body@),
            },
        },
    }
}

pub open spec fn view_defns<'a>(ds: Seq<ParsedDefn<'a>>) -> Seq<DV<'a>> {
    ds.map_values(|d: ParsedDefn<'a>| view_defn(d))
}

/// Parses `<id>(<binding>, ...)`.
fn parse_fn_sig<'a>(parser: &mut Parser<'a>) -> (r: ParseResult<'a, Constructor<'a>>)
    requires
        old(parser).wf(),
    ensures
        final(parser).wf(),
        final(parser).toks() == old(parser).toks(),
        step_is(sp_fn_sig(old(parser).toks(), old(parser).position()), r, final(parser).position() as usize, |x: Constructor<'a>| view_ctor(x)),
{
    let id = match parser.expect_id() {
        Ok(id) => id,
        Err(e) => return Err(e),
    };
    match parse_binding_list(parser) {
        Ok(bindings) => Ok((id, bindings)),
        Err(e) => Err(e),
    }
}

/// Parses `( <'param>, ... )`.
fn parse_type_params<'a>(parser: &mut Parser<'a>) -> (r: ParseResult<'a, Vec<&'a str>>)
    requires
        old(parser).wf(),
    ensures
        final(parser).wf(),
        final(parser).toks() == old(parser).toks(),
        step_is(sp_type_params(old(parser).toks(), old(parser).position()), r, final(parser).position() as usize, |x: Vec<&'a str>| x@),
{
    let ghost t = parser.toks();
    match parser.expect(TokenKind::LParen) {
        Ok(()) => {},
        Err(e) => return Err(e),
    }
    let mut params: Vec<&'a str> = Vec::new();
    if parser.peek().kind() == TokenKind::RParen {
        return match parser.expect(TokenKind::RParen) {
            Ok(()) => {
                assert(params@ =~= Seq::empty());
                Ok(params)
            },
            Err(e) => Err(e),
        };
    }
    match parser.expect_type_param() {
        Ok(x) => params.push(x),
        Err(e) => return Err(e),
    }
    assert(params@ =~= seq![params@[0]]);
    loop
        invariant
            parser.wf(),
            parser.toks() == t,
            t == old(parser).toks(),
            sp_type_params_rest(t, parser.position(), params@) == sp_type_params(t, old(parser).position()),
        decreases t.len() - parser.position(),
    {
        let here = parser.pos;
        if parser.peek().kind() == TokenKind::Comma {
            parser.advance();
            let x = match parser.expect_type_param() {
                Ok(x) => x,
                Err(e) => return Err(e),
            };
            if parser.pos <= here {
                return parser.stuck();
            }
            params.push(x);
        } else {
            return match parser.expect(TokenKind::RParen) {
                Ok(()) => Ok(params),
                Err(e) => Err(e),
            };
        }
    }
}

/// Parses a definition.
pub fn parse_defn<'a>(parser: &mut Parser<'a>) -> (r: ParseResult<'a, ParsedDefn<'a>>)
    requires
        old(parser).wf(),
    ensures
        final(parser).wf(),
        final(parser).toks() == old(parser).toks(),
        step_is(sp_defn(old(parser).toks(), old(parser).position()), r, final(parser).position() as usize, |x: ParsedDefn<'a>| view_defn(x)),
{
    match parser.peek().kind() {
        TokenKind::Fn => parse_fndef(parser),
        TokenKind::Typedef => parse_typedef(parser),
        _ => {
            let mut kinds = Vec::new();
            kinds.push(TokenKind::Fn);
            kinds.push(TokenKind::Typedef);
            assert(kinds@ =~= defn_start_kinds());
            ParseError::many(kinds.as_slice(), parser.peek())
        },
    }
}

/// Parses `typedef <TypeId> ( <'param>, ... )? { <id>(<binding>, ...), ... }`.
#[verifier::loop_isolation(false)]
fn parse_typedef<'a>(parser: &mut Parser<'a>) -> (r: ParseResult<'a, ParsedDefn<'a>>)
    requires
        old(parser).wf(),
        kind_at(old(parser).toks(), old(parser).position()) == TokenKind::Typedef,
    ensures
        final(parser).wf(),
        final(parser).toks() == old(parser).toks(),
        step_is(sp_typedef(old(parser).toks(), old(parser).position()), r, final(parser).position() as usize, |x: ParsedDefn<'a>| view_defn(x)),
{
    let ghost t = parser.toks();
    let loc = parser.peek().offset;
    parser.advance();
    let name = match parser.expect_typeid() {
        Ok(n) => n,
        Err(e) => return Err(e),
    };
    let ty_vars = if parser.peek().kind() == TokenKind::LParen {
        match parse_type_params(parser) {
            Ok(v) => v,
            Err(e) => return Err(e),
        }
    } else {
        let v: Vec<&'a str> = Vec::new();
        assert(v@ =~= Seq::empty());
        v
    };
    match parser.expect(TokenKind::LBrace) {
        Ok(()) => {},
        Err(e) => return Err(e),
    }
    let ghost p_ctors = parser.position();
    let mut signatures: Vec<Constructor<'a>> = Vec::new();
    if parser.peek().kind() != TokenKind::RBrace {
        match parse_fn_sig(parser) {
            Ok(sig) => signatures.push(sig),
            Err(e) => return Err(e),
        }
        let ghost v0 = view_ctor(signatures@[0]);
        assert(signatures@.map_values(|c: Constructor<'a>| view_ctor(c)) =~= seq![v0]);
        let ghost first_pos = parser.position();
        loop
            invariant
                parser.wf(),
                parser.toks() == t,
                t == old(parser).toks(),
                sp_ctors_rest(t, parser.position(), signatures@.map_values(|c: Constructor<'a>| view_ctor(c)))
                    == sp_ctors_rest(t, first_pos, seq![v0]),
            decreases t.len() - parser.position(),
        {
            let here = parser.pos;
            if parser.peek().kind() == TokenKind::Comma {
                parser.advance();
                let sig = match parse_fn_sig(parser) {
                    Ok(s) => s,
                    Err(e) => return Err(e),
                };
                if parser.pos <= here {
                    return parser.stuck();
                }
                let ghost before = signatures@;
                signatures.push(sig);
                assert(signatures@.map_values(|c: Constructor<'a>| view_ctor(c)) =~= before.map_values(|c: Constructor<'a>| view_ctor(c)).push(view_ctor(sig)));
            } else {
                break;
            }
        }
    } else {
        assert(signatures@.map_values(|c: Constructor<'a>| view_ctor(c)) =~= Seq::empty());
    }
    match parser.expect(TokenKind::RBrace) {
        Ok(()) => Ok(ParsedDefn::make_generic_typedef(loc, name, ty_vars, signatures)),
        Err(e) => Err(e),
    }
}

/// Parses `fn <id>(<binding>, ...) -> <type> { <stmt> ... }`. A malformed
/// statement is recorded and skipped (see `Parser::synchronize`); when
/// neither the statement nor the recovery advances, that statement's error
/// is returned.
#[verifier::loop_isolation(false)]
fn parse_fndef<'a>(parser: &mut Parser<'a>) -> (r: ParseResult<'a, ParsedDefn<'a>>)
    requires
        old(parser).wf(),
        kind_at(old(parser).toks(), old(parser).position()) == TokenKind::Fn,
    ensures
        final(parser).wf(),
        final(parser).toks() == old(parser).toks(),
        step_is(sp_fndef(old(parser).toks(), old(parser).position()), r, final(parser).position() as usize, |x: ParsedDefn<'a>| view_defn(x)),
{
    let ghost t = parser.toks();
    let loc = parser.peek().offset;
    parser.advance();
    let header = match parse_fn_sig(parser) {
        Ok(h) => h,
        Err(e) => return Err(e),
    };
    match parser.expect(TokenKind::Arrow) {
        Ok(()) => {},
        Err(e) => return Err(e),
    }
    let return_type = match parse_type(parser) {
        Ok(ty) => ty,
        Err(e) => return Err(e),
    };
    match parser.expect(TokenKind::LBrace) {
        Ok(()) => {},
        Err(e) => return Err(e),
    }
    let ghost body_start = parser.position();
    let mut statements: Vec<ParsedStmt<'a>> = Vec::new();
    assert(view_stmts(statements@) =~= Seq::empty());
    loop
        invariant
            parser.wf(),
            parser.toks() == t,
            t == old(parser).toks(),
            sp_body(t, parser.position(), view_stmts(statements@)) == sp_body(t, body_start, Seq::empty()),
        decreases t.len() - parser.position(),
    {
        let here = parser.pos;
        if parser.peek().kind() == TokenKind::RBrace {
            break;
        }
        match parse_stmt(parser) {
            Ok(stmt) => {
                if parser.pos <= here {
                    return parser.stuck();
                }
                let ghost before = statements@;
                statements.push(stmt);
                assert(view_stmts(statements@) =~= view_stmts(before).push(view_stmt(stmt)));
            },
            Err(e) => {
                parser.synchronize();
                if parser.pos <= here {
                    return Err(e);
                }
                parser.push_error(e);
            },
        }
    }
    match parser.expect(TokenKind::RBrace) {
        Ok(()) => Ok(ParsedDefn::make_fn(loc, header.0, header.1, return_type, statements)),
        Err(e) => Err(e),
    }
}

/// Parses every definition up to the end of input, stopping at the first
/// definition that does not parse.
pub fn try_parse<'a>(tokens: Vec<SpannedToken<'a>>) -> (r: ParseResult<'a, Vec<ParsedDefn<'a>>>)
    requires
        tokens.len() > 0,
        token_kind(tokens@.last().node) == TokenKind::EoF,
    ensures
        match (sp_program(tokens@, 0, Seq::empty()).out, r) {
            (Ok(v), Ok(ds)) => view_defns(ds@) == v,
            (Err(ev), Err(e)) => view_error(e) == ev,
            _ => false,
        },
{
    let mut parser = Parser::new(tokens);
    let ghost t = parser.toks();
    let mut defns: Vec<ParsedDefn<'a>> = Vec::new();
    assert(view_defns(defns@) =~= Seq::empty());
    loop
        invariant
            parser.wf(),
            parser.toks() == t,
            t == tokens@,
            sp_program(t, parser.position(), view_defns(defns@)) == sp_program(t, 0, Seq::empty()),
        decreases t.len() - parser.position(),
    {
        let here = parser.pos;
        if parser.peek().kind() == TokenKind::EoF {
            return Ok(defns);
        }
        match parse_defn(&mut parser) {
            Ok(defn) => {
                if parser.pos <= here {
                    return parser.stuck();
                }
                let ghost before = defns@;
                defns.push(defn);
                assert(view_defns(defns@) =~= view_defns(before).push(view_defn(defn)));
            },
            Err(e) => return Err(e),
        }
    }
}

/// Parses a whole program, which must parse (see `try_parse`).
pub fn parse<'a>(tokens: Vec<SpannedToken<'a>>) -> (r: Vec<ParsedDefn<'a>>)
    requires
        tokens.len() > 0,
        token_kind(tokens@.last().node) == TokenKind::EoF,
        sp_program(tokens@, 0, Seq::empty()).out is Ok,
    ensures
        sp_program(tokens@, 0, Seq::empty()).out == Ok::<Seq<DV<'a>>, ParseErrorV<'a>>(view_defns(r@)),
{
    match try_parse(tokens) {
        Ok(defns) => defns,
        Err(_) => {
            assert(false);
            Vec::new()
        },
    }
}

} // verus!
