use lib::ast::ExprKind;
use lib::lexer::lex;
use lib::parser::{parse_expr, Parser};
use lib::typechecker::typecheck_expr::typecheck_expr;
use lib::typechecker::types::{Env, TypeValue, TypedExpr};

fn typeck_typecheck_expr(input: &str) -> TypedExpr<'_> {
    let mut parser = Parser::new(lex(input).unwrap());
    let parsed_expr = parse_expr(&mut parser).unwrap();
    let env = Env::Global(Vec::new());
    typecheck_expr(parsed_expr, &env).unwrap()
}

#[test]
fn tests_test_int() {
    let expr = typeck_typecheck_expr("42");
    assert_eq!(expr, TypedExpr::new(0, TypeValue::Int, ExprKind::Int(42)));
}

#[test]
fn tests_test_float() {
    let expr = typeck_typecheck_expr("3.14");
    assert_eq!(
        expr,
        TypedExpr::new(0, TypeValue::Float, ExprKind::Float("3.14"))
    );
}

#[test]
fn tests_test_bool() {
    let expr = typeck_typecheck_expr("true");
    assert_eq!(
        expr,
        TypedExpr::new(0, TypeValue::Bool, ExprKind::Bool(true))
    );
}

#[test]
fn tests_test_add() {
    let expr = typeck_typecheck_expr("1 + 2");
    assert_eq!(
        expr,
        TypedExpr::new(
            0,
            TypeValue::Int,
            ExprKind::Plus(
                Box::new(TypedExpr::new(0, TypeValue::Int, ExprKind::Int(1))),
                Box::new(TypedExpr::new(4, TypeValue::Int, ExprKind::Int(2)))
            )
        )
    );
}
