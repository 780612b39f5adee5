use lib::ast::{ExprKind, ParsedExpr};
use lib::lexer::lex;
use lib::parser::{parse_expr, parse_type, Parser};
use lib::show::{int_to_text, show_expr, show_type};
use lib::typechecker::context::Context as CheckContext;
use lib::typechecker::infer::infer;
use lib::typechecker::typecheck_expr::typecheck_expr;
use lib::typechecker::inference::context::{Context, InferredExpr};
use lib::typechecker::types::{Env, TypeError, TypeValue};

fn parsed_typing_and_printing(input: &str) -> ParsedExpr<'_> {
    let mut parser = Parser::new(lex(input).unwrap());
    parse_expr(&mut parser).unwrap()
}

fn type_error(input: &str) -> TypeError {
    infer(parsed_typing_and_printing(input), &Env::Global(Vec::new())).unwrap_err()
}

fn err(expected: TypeValue, actual: TypeValue, offset: usize) -> TypeError {
    TypeError { expected, actual, offset }
}

#[test]
fn operand_type_errors() {
    assert_eq!(type_error("-true"), err(TypeValue::Int, TypeValue::Bool, 0));
    assert_eq!(type_error("!1"), err(TypeValue::Bool, TypeValue::Int, 1));
    assert_eq!(type_error("1 + 2.5"), err(TypeValue::Int, TypeValue::Float, 4));
    assert_eq!(type_error("1 < true"), err(TypeValue::Int, TypeValue::Bool, 4));
    assert_eq!(type_error("1.5 +. 2"), err(TypeValue::Float, TypeValue::Int, 7));
    assert_eq!(type_error("1 +. 2.5"), err(TypeValue::Float, TypeValue::Int, 0));
    assert_eq!(type_error("true || 1"), err(TypeValue::Bool, TypeValue::Int, 8));
    assert_eq!(type_error("-.1"), err(TypeValue::Float, TypeValue::Int, 0));
}

#[test]
fn checking_places_prefix_operations_at_their_operand() {
    let env = Env::Global(Vec::new());
    let checked = typecheck_expr(parsed_typing_and_printing("-7"), &env).unwrap();
    assert_eq!(checked.offset, 1);
    assert_eq!(checked.ty(), TypeValue::Int);
    let inferred = infer(parsed_typing_and_printing("-7"), &env).unwrap();
    assert_eq!(inferred.offset, 0);
    let checked = typecheck_expr(parsed_typing_and_printing("! true"), &env).unwrap();
    assert_eq!(checked.offset, 2);
    assert_eq!(checked.ty(), TypeValue::Bool);
    let failed = typecheck_expr(parsed_typing_and_printing("- true"), &env).unwrap_err();
    assert_eq!(failed, err(TypeValue::Int, TypeValue::Bool, 2));
    let failed = typecheck_expr(parsed_typing_and_printing("!1"), &env).unwrap_err();
    assert_eq!(failed, err(TypeValue::Bool, TypeValue::Int, 1));
}

#[test]
fn conditional_type_errors() {
    assert_eq!(type_error("if 1 then 2 else 3"), err(TypeValue::Bool, TypeValue::Int, 3));
    assert_eq!(type_error("if true then 1 else false"), err(TypeValue::Int, TypeValue::Bool, 20));
}

#[test]
fn names_take_their_type_from_the_environment() {
    let mut env = Env::Global(Vec::new());
    env.extend("x", TypeValue::Float);
    let typed = infer(parsed_typing_and_printing("x +. 1.0"), &env).unwrap();
    assert_eq!(typed.ty(), TypeValue::Float);
    env.extend("x", TypeValue::Bool);
    assert_eq!(env.lookup("x"), Some(TypeValue::Bool));
    assert_eq!(infer(parsed_typing_and_printing("y"), &env).unwrap_err(), err(TypeValue::Var(0), TypeValue::Var(0), 0));
}

#[test]
fn float_operators_and_comparisons() {
    let env = Env::Global(Vec::new());
    assert_eq!(infer(parsed_typing_and_printing("-.1.5"), &env).unwrap().ty(), TypeValue::Float);
    assert_eq!(infer(parsed_typing_and_printing("1.5 <. 2.5"), &env).unwrap().ty(), TypeValue::Bool);
    assert_eq!(infer(parsed_typing_and_printing("1.5 == 2.5"), &env).unwrap().ty(), TypeValue::Bool);
    assert_eq!(infer(parsed_typing_and_printing("-2.5"), &env).unwrap().ty(), TypeValue::Float);
}

#[test]
fn inference_keeps_the_expression() {
    let typed = infer(parsed_typing_and_printing("1 + 2 * 3"), &Env::Global(Vec::new())).unwrap();
    assert_eq!(show_expr(&typed), "(1 + (2 * 3))");
    assert_eq!(show_expr(&typed), show_expr(&parsed_typing_and_printing("1 + 2 * 3")));
}

#[test]
fn unification_merges_classes() {
    let mut ctx = Context::new();
    let a = ctx.new_tyvar();
    let b = ctx.new_tyvar();
    assert_eq!(ctx.resolve(&InferredExpr::new(0, a, ExprKind::Int(0))), TypeValue::Var(a.0));
    assert!(ctx.unify(a, b));
    assert!(ctx.unify(b, ctx.float_id()));
    assert_eq!(ctx.resolve(&InferredExpr::new(0, a, ExprKind::Int(0))), TypeValue::Float);
    assert!(!ctx.unify(a, ctx.int_id()));
    assert!(!ctx.unify(ctx.int_id(), ctx.bool_id()));
    assert!(ctx.unify(a, b));
}

#[test]
fn inference_context_names() {
    let mut ctx = Context::new();
    let a = ctx.new_tyvar();
    let int = ctx.int_id();
    ctx.extend("x", a);
    assert_eq!(ctx.lookup("x"), Some(a));
    ctx.extend("x", int);
    assert_eq!(ctx.lookup("x"), Some(int));
    assert_eq!(ctx.lookup("y"), None);
}

#[test]
fn checking_context_records_failed_unifications() {
    let mut ctx = CheckContext::new();
    ctx.extend("f", TypeValue::Fn(vec![TypeValue::Int], Box::new(TypeValue::Bool)));
    assert_eq!(ctx.lookup("f"), Some(TypeValue::Fn(vec![TypeValue::Int], Box::new(TypeValue::Bool))));
    assert_eq!(ctx.lookup("g"), None);
    ctx.unify(TypeValue::Int, TypeValue::Int);
    assert!(ctx.is_consistent());
    ctx.unify(TypeValue::Adt("List".to_string()), TypeValue::Adt("Tree".to_string()));
    assert!(!ctx.is_consistent());
}

#[test]
fn integers_print_in_decimal() {
    assert_eq!(int_to_text(0), "0");
    assert_eq!(int_to_text(-42), "-42");
    assert_eq!(int_to_text(1907), "1907");
    assert_eq!(int_to_text(i64::MIN), "-9223372036854775808");
    assert_eq!(int_to_text(i64::MAX), "9223372036854775807");
}

#[test]
fn expressions_print_with_their_grouping() {
    assert_eq!(show_expr(&parsed_typing_and_printing("if a then f(1, x) else -b")), "if a then f(1, x) else -b");
    assert_eq!(show_expr(&parsed_typing_and_printing("fn(x: Int) -> x")), "(fn (x: int) -> x)");
    assert_eq!(
        show_expr(&parsed_typing_and_printing("match o { some(v) -> v, none() -> 0 }")),
        "match o { some(v) -> v, none() -> 0 }"
    );
    assert_eq!(show_expr(&parsed_typing_and_printing("1 - 2 - 3")), "((1 - 2) - 3)");
    assert_eq!(show_expr(&parsed_typing_and_printing("x |> f")), "(x |> f)");
}

#[test]
fn stronger_operators_group_first() {
    assert_eq!(show_expr(&parsed_typing_and_printing("1 + 2 * 3")), "(1 + (2 * 3))");
    assert_eq!(show_expr(&parsed_typing_and_printing("1 * 2 + 3")), "((1 * 2) + 3)");
    assert_eq!(show_expr(&parsed_typing_and_printing("a || b && c")), "(a || (b && c))");
    assert_eq!(show_expr(&parsed_typing_and_printing("a == b < c")), "(a == (b < c))");
    assert_eq!(show_expr(&parsed_typing_and_printing("1 * 2 / 3")), "((1 * 2) / 3)");
    assert_eq!(show_expr(&parsed_typing_and_printing("-b * c")), "(-b * c)");
    assert_eq!(show_expr(&parsed_typing_and_printing("!a && b")), "(!a && b)");
    let sum = parsed_typing_and_printing("x + y * z");
    match sum.node.kind {
        ExprKind::Plus(l, r) => {
            assert_eq!(l.offset, 0);
            assert_eq!(r.offset, 4);
        }
        _ => panic!("expected an addition"),
    }
}

#[test]
fn types_print_with_their_grouping() {
    let mut parser = Parser::new(lex("Map(Int, List('a)) -> Bool").unwrap());
    let ty = parse_type(&mut parser).unwrap();
    assert_eq!(show_type(&ty), "(Map(int, List('a)) -> bool)");
}

#[test]
fn written_types_become_type_values() {
    let mut parser = Parser::new(lex("Int -> Float -> Bool").unwrap());
    let ty = parse_type(&mut parser).unwrap();
    assert_eq!(
        TypeValue::from_type(ty),
        TypeValue::Fn(
            vec![TypeValue::Int],
            Box::new(TypeValue::Fn(vec![TypeValue::Float], Box::new(TypeValue::Bool)))
        )
    );
}
