//! The checking entry point for expressions.
use vstd::prelude::*;

use crate::ast::{view_expr, ParsedExpr};
use crate::typechecker::infer::{infer_with_mode, reaches_unsupported, typecheck_s, view_infer_result};
use crate::typechecker::types::{env_bindings, Env, TypeResult, TypedExpr};

verus! {

/// Annotates an expression with its type by the rules of inference; a
/// prefix operation (`-`, `-.`, `!`) takes its operand's offset, which is
/// also where a failed one is reported. See `typecheck_s`.
pub fn typecheck_expr<'a>(expr: ParsedExpr<'a>, env: &Env) -> (r: TypeResult<TypedExpr<'a>>)
    requires
        !reaches_unsupported(env_bindings(*env), view_expr(expr), true),
    ensures
        view_infer_result(r) == typecheck_s(env_bindings(*env), view_expr(expr)),
{
    infer_with_mode(expr, env, true)
}

} // verus!
