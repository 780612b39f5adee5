use lib::ast::ParsedExpr;
use lib::lexer::lex;
use lib::parser::{parse_expr, Parser};
use lib::typechecker::inference::context::{Context, InferredExpr};
use lib::typechecker::inference::infer::infer;
use lib::typechecker::types::{TypeError, TypeValue};

fn parsed_unification(input: &str) -> ParsedExpr<'_> {
    let mut parser = Parser::new(lex(input).unwrap());
    parse_expr(&mut parser).unwrap()
}

#[test]
fn arithmetic_is_int() {
    let mut ctx = Context::new();
    let e = infer(parsed_unification("1 + 2 * 3"), &mut ctx).unwrap();
    assert_eq!(e.ty(), ctx.int_id());
    assert_eq!(ctx.resolve(&e), TypeValue::Int);
}

#[test]
fn conditional_gets_a_variable_solved_by_its_branches() {
    let mut ctx = Context::new();
    let e = infer(parsed_unification("if true then 1.5 else 2.5"), &mut ctx).unwrap();
    assert_ne!(e.ty(), ctx.float_id());
    assert_eq!(ctx.resolve(&e), TypeValue::Float);
}

#[test]
fn equality_needs_operands_of_one_type() {
    let mut ctx = Context::new();
    let error = infer(parsed_unification("1 == 2.5"), &mut ctx).unwrap_err();
    assert_eq!(error, TypeError { expected: TypeValue::Int, actual: TypeValue::Float, offset: 5 });
    let mut ctx = Context::new();
    let e = infer(parsed_unification("true != false"), &mut ctx).unwrap();
    assert_eq!(ctx.resolve(&e), TypeValue::Bool);
}

#[test]
fn operands_are_checked_against_the_operator() {
    let mut ctx = Context::new();
    let error = infer(parsed_unification("-true"), &mut ctx).unwrap_err();
    assert_eq!(error, TypeError { expected: TypeValue::Int, actual: TypeValue::Bool, offset: 1 });
}

#[test]
fn names_are_solved_by_their_uses() {
    let mut ctx = Context::new();
    let v = ctx.new_tyvar();
    ctx.extend("x", v);
    let probe = InferredExpr::new(0, v, lib::ast::ExprKind::Int(0));
    assert_eq!(ctx.resolve(&probe), TypeValue::Var(v.0));
    let e = infer(parsed_unification("x +. 1.0"), &mut ctx).unwrap();
    assert_eq!(ctx.resolve(&e), TypeValue::Float);
    assert_eq!(ctx.resolve(&probe), TypeValue::Float);
}
