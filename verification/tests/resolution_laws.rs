use lib::lexer::lex;
use lib::parser::{parse, parse_expr, parse_stmt, parse_type, Parser};
use lib::resolution::{init_global_scope, resolve, try_resolve};
use lib::resolution::resolve_expr::{resolve_expr, try_resolve_expr};
use lib::resolution::resolve_stmt::try_resolve_stmt;
use lib::resolution::resolve_type::try_add_type;
use lib::resolution::types::{Identifier, ResolveError, ResolvedExpr, ResolverCtx};

fn resolve_expr_checked<'a>(ctx: &mut ResolverCtx<'a>, input: &'a str) -> Result<ResolvedExpr<'a>, ResolveError<'a>> {
    let mut parser = Parser::new(lex(input).unwrap());
    try_resolve_expr(ctx, parse_expr(&mut parser).unwrap())
}

#[test]
fn failed_closure_resolution_does_not_leak_its_scope() {
    let mut ctx = ResolverCtx::new();
    let result = resolve_expr_checked(&mut ctx, "fn(parameter: Int) -> missing");
    assert_eq!(result, Err(ResolveError::UnboundValue("missing")));
    assert_eq!(ctx.lookup_value("parameter"), None);
}

#[test]
fn failed_match_arm_does_not_leak_its_scope() {
    let mut ctx = ResolverCtx::new();
    ctx.add_value("option");
    ctx.add_value("some");
    let result = resolve_expr_checked(&mut ctx, "match option { some(value) -> missing }");
    assert_eq!(result, Err(ResolveError::UnboundValue("missing")));
    assert_eq!(ctx.lookup_value("value"), None);
    assert!(ctx.lookup_value("option").is_some());
}

#[test]
fn lookup_after_declaration_finds_the_new_identifier() {
    let mut ctx = ResolverCtx::new();
    let first = ctx.add_value("x");
    assert_eq!(ctx.lookup("x"), Some(Identifier::ValueId(first)));
    let shadow = ctx.add_typeparam("x");
    assert_eq!(ctx.lookup("x"), Some(Identifier::TypeParamId(shadow)));
    assert_eq!(ctx.lookup_value("x"), None);
    assert_eq!(ctx.lookup_typeparam("x"), Some(shadow));
}

#[test]
fn identifiers_of_each_kind_are_counted_separately() {
    let mut ctx = ResolverCtx::new();
    let v0 = ctx.add_value("a");
    let t0 = ctx.add_type("A");
    let v1 = ctx.add_value("b");
    let p0 = ctx.add_typeparam("'a");
    assert_eq!((v0.0, v1.0, t0.0, p0.0), (0, 1, 0, 0));
}

#[test]
fn duplicate_names_in_one_scope_are_refused() {
    let mut ctx = ResolverCtx::new();
    assert!(ctx.add_value_nodup("f").is_ok());
    assert_eq!(ctx.add_value_nodup("f"), Err(ResolveError::Duplicate("f")));
    ctx.push_scope();
    assert!(ctx.add_value_nodup("f").is_ok());
}

#[test]
fn declaring_without_a_scope_is_an_error() {
    let mut ctx = ResolverCtx::new();
    ctx.pop_scope();
    let mut parser = Parser::new(lex("let x = 1;").unwrap());
    let stmt = parse_stmt(&mut parser).unwrap();
    assert_eq!(try_resolve_stmt(&mut ctx, stmt), Err(ResolveError::NoScope));
}

#[test]
fn program_errors_and_their_messages() {
    let missing_main = try_resolve(parse(lex("fn helper() -> Int { return 0; }").unwrap())).unwrap_err();
    assert_eq!(missing_main, ResolveError::MissingMain);
    assert_eq!(missing_main.message(), "Program must contain a 'main' function");

    let duplicate = try_resolve(parse(
        lex("fn main() -> Int { return 0; } fn main() -> Int { return 1; }").unwrap(),
    ))
    .unwrap_err();
    assert_eq!(duplicate, ResolveError::Duplicate("main"));
    assert_eq!(duplicate.message(), "main is already defined in this scope");

    let unknown_param = try_resolve(parse(
        lex("typedef Box('a) { box(value: 'b) } fn main() -> Int { return 0; }").unwrap(),
    ))
    .unwrap_err();
    assert_eq!(unknown_param, ResolveError::UnknownTypeParam("value"));
    assert_eq!(unknown_param.message(), "type parameter not found in field value");
}

#[test]
fn expression_errors_and_their_messages() {
    let mut ctx = ResolverCtx::new();
    let unbound = resolve_expr_checked(&mut ctx, "1 + y").unwrap_err();
    assert_eq!(unbound.message(), "y: unbound or not a value");

    ctx.add_value("v");
    let variant = resolve_expr_checked(&mut ctx, "match v { nope() -> 0 }").unwrap_err();
    assert_eq!(variant, ResolveError::UnknownVariant("nope"));
    assert_eq!(variant.message(), "cannot find variant nope");

    let mut parser = Parser::new(lex("Int -> Missing").unwrap());
    let ty = parse_type(&mut parser).unwrap();
    let unknown = try_add_type(&mut ctx, ty).unwrap_err();
    assert_eq!(unknown, ResolveError::UnknownType("Missing"));
    assert_eq!(unknown.message(), "TypeId Missing not found in context");
}

#[test]
fn whole_program_resolution_numbers_globals_first() {
    let defns = try_resolve(parse(
        lex("fn main() -> Int { return helper(1); } fn helper(x: Int) -> Int { return x; }").unwrap(),
    ))
    .unwrap();
    assert_eq!(defns.len(), 2);
}

#[test]
fn resolving_what_resolves_gives_the_checked_result() {
    let mut first = ResolverCtx::new();
    first.add_value("x");
    let mut second = ResolverCtx::new();
    second.add_value("x");
    let mut parser = Parser::new(lex("x + 1").unwrap());
    let once = parse_expr(&mut parser).unwrap();
    let mut parser = Parser::new(lex("x + 1").unwrap());
    let twice = parse_expr(&mut parser).unwrap();
    assert_eq!(resolve_expr(&mut first, once), try_resolve_expr(&mut second, twice).unwrap());

    let program = "fn main() -> Int { return 0; }";
    assert_eq!(resolve(parse(lex(program).unwrap())).len(), 1);
    let defns = parse(lex(program).unwrap());
    let mut ctx = ResolverCtx::new();
    init_global_scope(&mut ctx, &defns);
    assert!(ctx.lookup_value("main").is_some());
}
