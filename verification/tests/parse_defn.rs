use lib::ast::{ExprKind, ParsedBinding, ParsedDefn, ParsedExpr, ParsedStmt, Type};
use lib::lexer::lex;
use lib::parser::Parser;

fn parser_from_parse_defn(input: &str) -> Parser<'_> {
    Parser::new(lex(input).unwrap())
}

fn parse_parse_defn(input: &str) -> ParsedDefn<'_> {
    let mut p = parser_from_parse_defn(input);
    lib::parser::parse_defn(&mut p).unwrap()
}

// ─── fn definitions ─────────────────────────────────────────────────

#[test]
fn fn_no_params() {
    assert_eq!(
        parse_parse_defn("fn main() -> Int { return 0; }"),
        ParsedDefn::make_fn(
            0,
            "main",
            vec![],
            Type::Int,
            vec![ParsedStmt::make_return(19, ParsedExpr::new(26, ExprKind::Int(0)))]
        )
    );
}

#[test]
fn fn_one_param() {
    assert_eq!(
        parse_parse_defn("fn id(x: Int) -> Int { return x; }"),
        ParsedDefn::make_fn(
            0,
            "id",
            vec![ParsedBinding::new(6, "x", Type::Int)],
            Type::Int,
            vec![ParsedStmt::make_return(
                23,
                ParsedExpr::new(30, ExprKind::Id("x"))
            )]
        )
    );
}

#[test]
fn fn_two_params() {
    assert_eq!(
        parse_parse_defn("fn add(a: Int, b: Int) -> Int { return a + b; }"),
        ParsedDefn::make_fn(
            0,
            "add",
            vec![
                ParsedBinding::new(7, "a", Type::Int),
                ParsedBinding::new(15, "b", Type::Int),
            ],
            Type::Int,
            vec![ParsedStmt::make_return(
                32,
                ParsedExpr::new(
                    39,
                    ExprKind::Plus(
                        Box::new(ParsedExpr::new(39, ExprKind::Id("a"))),
                        Box::new(ParsedExpr::new(43, ExprKind::Id("b")))
                    )
                )
            )]
        )
    );
}

#[test]
fn fn_multiple_statements() {
    assert_eq!(
        parse_parse_defn("fn foo() -> Int { let x = 1; let y = 2; return x + y; }"),
        ParsedDefn::make_fn(
            0,
            "foo",
            vec![],
            Type::Int,
            vec![
                ParsedStmt::make_let(18, "x", ParsedExpr::new(26, ExprKind::Int(1))),
                ParsedStmt::make_let(29, "y", ParsedExpr::new(37, ExprKind::Int(2))),
                ParsedStmt::make_return(
                    40,
                    ParsedExpr::new(
                        47,
                        ExprKind::Plus(
                            Box::new(ParsedExpr::new(47, ExprKind::Id("x"))),
                            Box::new(ParsedExpr::new(51, ExprKind::Id("y")))
                        )
                    )
                ),
            ]
        )
    );
}

#[test]
fn fn_with_float_return() {
    assert_eq!(
        parse_parse_defn("fn pi() -> Float { return 3.14; }"),
        ParsedDefn::make_fn(
            0,
            "pi",
            vec![],
            Type::Float,
            vec![ParsedStmt::make_return(19, ParsedExpr::new(26, ExprKind::Float("3.14")))]
        )
    );
}

#[test]
fn fn_with_bool_return() {
    assert_eq!(
        parse_parse_defn("fn yes() -> Bool { return true; }"),
        ParsedDefn::make_fn(
            0,
            "yes",
            vec![],
            Type::Bool,
            vec![ParsedStmt::make_return(19, ParsedExpr::new(26, ExprKind::Bool(true)))]
        )
    );
}

#[test]
fn fn_with_fn_type_param() {
    assert_eq!(
        parse_parse_defn("fn apply(f: Int -> Int, x: Int) -> Int { return f(x); }"),
        ParsedDefn::make_fn(
            0,
            "apply",
            vec![
                ParsedBinding::new(9, "f", Type::Fn(Box::new(Type::Int), Box::new(Type::Int))),
                ParsedBinding::new(24, "x", Type::Int),
            ],
            Type::Int,
            vec![ParsedStmt::make_return(
                41,
                ParsedExpr::new(
                    48,
                    ExprKind::Call(
                        Box::new(ParsedExpr::new(48, ExprKind::Id("f"))),
                        vec![ParsedExpr::new(50, ExprKind::Id("x"))]
                    )
                )
            )]
        )
    );
}

#[test]
fn fn_empty_body() {
    // A function with no statements (unusual but parseable)
    assert_eq!(
        parse_parse_defn("fn noop() -> Int { }"),
        ParsedDefn::make_fn(0, "noop", vec![], Type::Int, vec![])
    );
}

#[test]
fn fn_with_read_and_echo() {
    assert_eq!(
        parse_parse_defn("fn main() -> Int { read Int x; echo Int x; return 0; }"),
        ParsedDefn::make_fn(
            0,
            "main",
            vec![],
            Type::Int,
            vec![
                ParsedStmt::make_read(19, Type::Int, "x"),
                ParsedStmt::make_echo(31, Type::Int, ParsedExpr::new(40, ExprKind::Id("x"))),
                ParsedStmt::make_return(43, ParsedExpr::new(50, ExprKind::Int(0))),
            ]
        )
    );
}

// ─── typedef ────────────────────────────────────────────────────────

#[test]
fn typedef_empty() {
    assert_eq!(
        parse_parse_defn("typedef Empty { }"),
        ParsedDefn::make_typedef(0, "Empty", vec![])
    );
}

#[test]
fn typedef_single_nullary_constructor() {
    assert_eq!(
        parse_parse_defn("typedef Unit { unit() }"),
        ParsedDefn::make_typedef(0, "Unit", vec![("unit", vec![])])
    );
}

#[test]
fn typedef_single_constructor_with_field() {
    assert_eq!(
        parse_parse_defn("typedef Wrapper { wrap(x: Int) }"),
        ParsedDefn::make_typedef(
            0,
            "Wrapper",
            vec![("wrap", vec![ParsedBinding::new(23, "x", Type::Int)])]
        )
    );
}

#[test]
fn typedef_multiple_constructors() {
    assert_eq!(
        parse_parse_defn("typedef Color { red(), green(), blue() }"),
        ParsedDefn::make_typedef(
            0,
            "Color",
            vec![
                ("red", vec![]),
                ("green", vec![]),
                ("blue", vec![]),
            ]
        )
    );
}

#[test]
fn typedef_constructors_with_fields() {
    assert_eq!(
        parse_parse_defn("typedef Shape { circle(r: Float), rect(w: Float, h: Float) }"),
        ParsedDefn::make_typedef(
            0,
            "Shape",
            vec![
                ("circle", vec![ParsedBinding::new(23, "r", Type::Float)]),
                (
                    "rect",
                    vec![
                        ParsedBinding::new(39, "w", Type::Float),
                        ParsedBinding::new(49, "h", Type::Float),
                    ]
                ),
            ]
        )
    );
}

#[test]
fn typedef_option_pattern() {
    assert_eq!(
        parse_parse_defn("typedef Option { some(x: Int), none() }"),
        ParsedDefn::make_typedef(
            0,
            "Option",
            vec![
                ("some", vec![ParsedBinding::new(22, "x", Type::Int)]),
                ("none", vec![]),
            ]
        )
    );
}

// ─── dispatch errors ────────────────────────────────────────────────

#[test]
fn defn_error_on_int_literal() {
    let mut p = parser_from_parse_defn("42");
    assert!(lib::parser::parse_defn(&mut p).is_err());
}

#[test]
fn error_on_let_keyword() {
    let mut p = parser_from_parse_defn("let x = 1;");
    assert!(lib::parser::parse_defn(&mut p).is_err());
}

#[test]
fn error_on_return_keyword() {
    let mut p = parser_from_parse_defn("return 0;");
    assert!(lib::parser::parse_defn(&mut p).is_err());
}
