use lib::ast::{ExprKind, ParsedExpr, ParsedStmt, Type};
use lib::lexer::lex;
use lib::parser::Parser;

fn parser_from_parse_stmt(input: &str) -> Parser<'_> {
    Parser::new(lex(input).unwrap())
}

fn parse_parse_stmt(input: &str) -> ParsedStmt<'_> {
    let mut p = parser_from_parse_stmt(input);
    lib::parser::parse_stmt(&mut p).unwrap()
}

// ─── let ────────────────────────────────────────────────────────────

#[test]
fn let_int_literal() {
    assert_eq!(
        parse_parse_stmt("let x = 42;"),
        ParsedStmt::make_let(0, "x", ParsedExpr::new(8, ExprKind::Int(42)))
    );
}

#[test]
fn let_bool_literal() {
    assert_eq!(
        parse_parse_stmt("let flag = true;"),
        ParsedStmt::make_let(0, "flag", ParsedExpr::new(11, ExprKind::Bool(true)))
    );
}

#[test]
fn let_with_binary_expr() {
    assert_eq!(
        parse_parse_stmt("let x = 1 + 2;"),
        ParsedStmt::make_let(
            0,
            "x",
            ParsedExpr::new(
                8,
                ExprKind::Plus(
                    Box::new(ParsedExpr::new(8, ExprKind::Int(1))),
                    Box::new(ParsedExpr::new(12, ExprKind::Int(2)))
                )
            )
        )
    );
}

#[test]
fn let_with_identifier() {
    assert_eq!(
        parse_parse_stmt("let y = x;"),
        ParsedStmt::make_let(0, "y", ParsedExpr::new(8, ExprKind::Id("x")))
    );
}

#[test]
fn let_error_missing_semicolon() {
    let mut p = parser_from_parse_stmt("let x = 42");
    assert!(lib::parser::parse_stmt(&mut p).is_err());
}

#[test]
fn let_error_missing_assign() {
    let mut p = parser_from_parse_stmt("let x 42;");
    assert!(lib::parser::parse_stmt(&mut p).is_err());
}

// ─── read ───────────────────────────────────────────────────────────

#[test]
fn read_int() {
    assert_eq!(parse_parse_stmt("read Int x;"), ParsedStmt::make_read(0, Type::Int, "x"));
}

#[test]
fn read_float() {
    assert_eq!(
        parse_parse_stmt("read Float y;"),
        ParsedStmt::make_read(0, Type::Float, "y")
    );
}

#[test]
fn read_bool() {
    assert_eq!(parse_parse_stmt("read Bool z;"), ParsedStmt::make_read(0, Type::Bool, "z"));
}

#[test]
fn read_error_missing_semicolon() {
    let mut p = parser_from_parse_stmt("read Int x");
    assert!(lib::parser::parse_stmt(&mut p).is_err());
}

#[test]
fn read_error_missing_type() {
    let mut p = parser_from_parse_stmt("read x;");
    assert!(lib::parser::parse_stmt(&mut p).is_err());
}

// ─── echo ───────────────────────────────────────────────────────────

#[test]
fn echo_int_literal() {
    assert_eq!(
        parse_parse_stmt("echo Int 42;"),
        ParsedStmt::make_echo(0, Type::Int, ParsedExpr::new(9, ExprKind::Int(42)))
    );
}

#[test]
fn echo_float_literal() {
    assert_eq!(
        parse_parse_stmt("echo Float 3.14;"),
        ParsedStmt::make_echo(0, Type::Float, ParsedExpr::new(11, ExprKind::Float("3.14")))
    );
}

#[test]
fn echo_bool_literal() {
    assert_eq!(
        parse_parse_stmt("echo Bool true;"),
        ParsedStmt::make_echo(0, Type::Bool, ParsedExpr::new(10, ExprKind::Bool(true)))
    );
}

#[test]
fn echo_with_expression() {
    assert_eq!(
        parse_parse_stmt("echo Int x + 1;"),
        ParsedStmt::make_echo(
            0,
            Type::Int,
            ParsedExpr::new(
                9,
                ExprKind::Plus(
                    Box::new(ParsedExpr::new(9, ExprKind::Id("x"))),
                    Box::new(ParsedExpr::new(13, ExprKind::Int(1)))
                )
            )
        )
    );
}

#[test]
fn echo_error_missing_semicolon() {
    let mut p = parser_from_parse_stmt("echo Int 42");
    assert!(lib::parser::parse_stmt(&mut p).is_err());
}

// ─── return ─────────────────────────────────────────────────────────

#[test]
fn return_int_literal() {
    assert_eq!(
        parse_parse_stmt("return 42;"),
        ParsedStmt::make_return(0, ParsedExpr::new(7, ExprKind::Int(42)))
    );
}

#[test]
fn return_identifier() {
    assert_eq!(
        parse_parse_stmt("return x;"),
        ParsedStmt::make_return(0, ParsedExpr::new(7, ExprKind::Id("x")))
    );
}

#[test]
fn return_with_expression() {
    assert_eq!(
        parse_parse_stmt("return a + b;"),
        ParsedStmt::make_return(
            0,
            ParsedExpr::new(
                7,
                ExprKind::Plus(
                    Box::new(ParsedExpr::new(7, ExprKind::Id("a"))),
                    Box::new(ParsedExpr::new(11, ExprKind::Id("b")))
                )
            )
        )
    );
}

#[test]
fn return_error_missing_semicolon() {
    let mut p = parser_from_parse_stmt("return 42");
    assert!(lib::parser::parse_stmt(&mut p).is_err());
}

// ─── dispatch errors ────────────────────────────────────────────────

#[test]
fn error_on_int_literal() {
    let mut p = parser_from_parse_stmt("42;");
    assert!(lib::parser::parse_stmt(&mut p).is_err());
}

#[test]
fn error_on_identifier() {
    let mut p = parser_from_parse_stmt("foo;");
    assert!(lib::parser::parse_stmt(&mut p).is_err());
}

#[test]
fn error_on_operator() {
    let mut p = parser_from_parse_stmt("+;");
    assert!(lib::parser::parse_stmt(&mut p).is_err());
}
