//! Resolution of statements.
use vstd::prelude::*;

use crate::ast::{ParsedStmt, Stmt, StmtV};
use crate::grammar::SV;
use crate::parser::view_stmt;
use crate::resolution::resolve_expr::{lemma_resolve_expr_keeps_scopes, try_resolve_expr, resolve_expr_s};
use crate::resolution::resolve_type::{try_add_type, add_type_s, lemma_add_type_inner};
use crate::resolution::types::{
    add_value_v, inner_change, lemma_declare_inner, view_rstmt, CtxV, RStmtV, ResolveError,
    ResolvedStmt, ResolverCtx,
};

verus! {

/// The result of resolving a statement, as a model.
pub open spec fn view_rstmt_result<'a>(r: Result<ResolvedStmt<'a>, ResolveError<'a>>) -> Result<RStmtV<'a>, ResolveError<'a>> {
    match r {
        Ok(s) => Ok(view_rstmt(s)),
        Err(e) => Err(e),
    }
}

/// Resolves a statement. `let` resolves its expression before it declares
/// its name, so the name may shadow an outer one that the expression uses;
/// `read` declares its name, then resolves its type.
pub open spec fn resolve_stmt_s<'a>(c: CtxV, s: SV<'a>) -> (CtxV, Result<RStmtV<'a>, ResolveError<'a>>) {
    match s.node {
        StmtV::Let(name, e) => {
            let (c1, re) = resolve_expr_s(c, e);
            match re {
                Err(err) => (c1, Err(err)),
                Ok(x) => {
                    let (c2, rid) = add_value_v(c1, name);
                    match rid {
                        Err(err) => (c2, Err(err)),
                        Ok(id) => (c2, Ok(RStmtV::Let(id, x))),
                    }
                },
            }
        },
        StmtV::Read(t, name) => {
            let (c1, rid) = add_value_v(c, name);
            match rid {
                Err(err) => (c1, Err(err)),
                Ok(id) => {
                    let (c2, rt) = add_type_s(c1, t);
                    match rt {
                        Err(err) => (c2, Err(err)),
                        Ok(ty) => (c2, Ok(RStmtV::Read(id, ty))),
                    }
                },
            }
        },
        StmtV::Echo(t, e) => {
            let (c1, rt) = add_type_s(c, t);
            match rt {
                Err(err) => (c1, Err(err)),
                Ok(ty) => {
                    let (c2, re) = resolve_expr_s(c1, e);
                    match re {
                        Err(err) => (c2, Err(err)),
                        Ok(x) => (c2, Ok(RStmtV::Echo(ty, x))),
                    }
                },
            }
        },
        StmtV::Return(e) => {
            let (c1, re) = resolve_expr_s(c, e);
            match re {
                Err(err) => (c1, Err(err)),
                Ok(x) => (c1, Ok(RStmtV::Return(x))),
            }
        },
    }
}

/// Resolves a statement; see `resolve_stmt_s`.
pub fn try_resolve_stmt<'a>(ctx: &mut ResolverCtx<'a>, stmt: ParsedStmt<'a>) -> (r: Result<ResolvedStmt<'a>, ResolveError<'a>>)
    ensures
        (final(ctx)@, view_rstmt_result(r)) == resolve_stmt_s(old(ctx)@, view_stmt(stmt)),
{
    match stmt.node {
        Stmt::Let(name, e) => {
            let x = match try_resolve_expr(ctx, e) {
                Ok(x) => x,
                Err(err) => {
                    return Err(err);
                },
            };
            match ctx.try_add_value(name) {
                Ok(id) => Ok(ResolvedStmt::Let(id, x)),
                Err(err) => Err(err),
            }
        },
        Stmt::Read(t, name) => {
            let id = match ctx.try_add_value(name) {
                Ok(id) => id,
                Err(err) => {
                    return Err(err);
                },
            };
            match try_add_type(ctx, t) {
                Ok(ty) => Ok(ResolvedStmt::Read(id, ty)),
                Err(err) => Err(err),
            }
        },
        Stmt::Echo(t, e) => {
            let ty = match try_add_type(ctx, t) {
                Ok(ty) => ty,
                Err(err) => {
                    return Err(err);
                },
            };
            match try_resolve_expr(ctx, e) {
                Ok(x) => Ok(ResolvedStmt::Echo(ty, x)),
                Err(err) => Err(err),
            }
        },
        Stmt::Return(e) => match try_resolve_expr(ctx, e) {
            Ok(x) => Ok(ResolvedStmt::Return(x)),
            Err(err) => Err(err),
        },
    }
}


/// Resolving a statement declares names only in the innermost scope.
pub proof fn lemma_resolve_stmt_inner<'a>(c: CtxV, s: SV<'a>)
    ensures
        inner_change(c, resolve_stmt_s(c, s).0),
{
    match s.node {
        StmtV::Let(name, e) => {
            lemma_resolve_expr_keeps_scopes(c, e);
            let c1 = resolve_expr_s(c, e).0;
            lemma_declare_inner(c1, name);
        },
        StmtV::Read(t, name) => {
            lemma_declare_inner(c, name);
            lemma_add_type_inner(add_value_v(c, name).0, t);
        },
        StmtV::Echo(t, e) => {
            lemma_add_type_inner(c, t);
            lemma_resolve_expr_keeps_scopes(add_type_s(c, t).0, e);
        },
        StmtV::Return(e) => {
            lemma_resolve_expr_keeps_scopes(c, e);
        },
    }
}

/// Resolves a statement that resolves without error; `try_resolve_stmt`
/// also takes those that do not, and reports why.
pub fn resolve_stmt<'a>(ctx: &mut ResolverCtx<'a>, stmt: ParsedStmt<'a>) -> (r: ResolvedStmt<'a>)
    requires
        resolve_stmt_s(old(ctx)@, view_stmt(stmt)).1 is Ok,
    ensures
        (final(ctx)@, view_rstmt_result(Ok(r))) == resolve_stmt_s(old(ctx)@, view_stmt(stmt)),
{
    try_resolve_stmt(ctx, stmt).unwrap()
}

} // verus!
