//! Name resolution: every name of the program is replaced by the identifier
//! of the declaration it refers to.
pub mod types;
pub mod resolve_type;
pub mod resolve_expr;
pub mod resolve_stmt;
pub mod resolve_defn;

use vstd::prelude::*;

use crate::ast::{Defn, DefnV, ParsedDefn};
use crate::grammar::{BV, DV};
use crate::parser::{view_defn, view_defns};
use crate::resolution::resolve_defn::{try_resolve_defn, resolve_defn_s};
use crate::resolution::types::{
    add_type_nodup_v, add_value_nodup_v, view_rdefn, view_rdefns, CtxV, RDefnV,
    ResolveError, ResolvedDefn, ResolverCtx,
};
use crate::text::str_eq;

verus! {

/// Declares the constructors `arms` as values of the global scope, refusing
/// names declared twice.
pub open spec fn declare_ctors_rest<'a>(c: CtxV, arms: Seq<(&'a str, Seq<BV<'a>>)>) -> (CtxV, Result<(), ResolveError<'a>>)
    decreases arms.len(),
{
    if arms.len() == 0 {
        (c, Ok(()))
    } else {
        let (c1, r) = add_value_nodup_v(c, arms[0].0);
        match r {
            Err(e) => (c1, Err(e)),
            Ok(_) => declare_ctors_rest(c1, arms.drop_first()),
        }
    }
}

/// Declares the definitions `ds` in the global scope, in order: a typedef
/// declares its type and then its constructors, a function its name; every
/// name at most once. The result says whether a function named `main` was
/// seen (or `seen` already held).
pub open spec fn declare_globals_rest<'a>(c: CtxV, ds: Seq<DV<'a>>, seen: bool) -> (CtxV, Result<bool, ResolveError<'a>>)
    decreases ds.len(),
{
    if ds.len() == 0 {
        (c, Ok(seen))
    } else {
        match ds[0].node {
            DefnV::Typedef { id, ty_vars: _, arms } => {
                let (c1, r) = add_type_nodup_v(c, id);
                match r {
                    Err(e) => (c1, Err(e)),
                    Ok(_) => {
                        let (c2, r2) = declare_ctors_rest(c1, arms);
                        match r2 {
                            Err(e) => (c2, Err(e)),
                            Ok(_) => declare_globals_rest(c2, ds.drop_first(), seen),
                        }
                    },
                }
            },
            DefnV::Fn { name, bindings: _, ret_ty: _, body: _ } => {
                let (c1, r) = add_value_nodup_v(c, name);
                match r {
                    Err(e) => (c1, Err(e)),
                    Ok(_) => declare_globals_rest(c1, ds.drop_first(), seen || name@ == "main"@),
                }
            },
        }
    }
}

/// Fills the global scope with the definitions `ds`; the program must
/// define `main`.
pub open spec fn init_global_scope_s<'a>(c: CtxV, ds: Seq<DV<'a>>) -> (CtxV, Result<(), ResolveError<'a>>) {
    let (c1, r) = declare_globals_rest(c, ds, false);
    match r {
        Err(e) => (c1, Err(e)),
        Ok(true) => (c1, Ok(())),
        Ok(false) => (c1, Err(ResolveError::MissingMain)),
    }
}

/// Resolves the definitions `ds` in order, after those in `acc`.
pub open spec fn resolve_defns_rest<'a>(c: CtxV, ds: Seq<DV<'a>>, acc: Seq<RDefnV<'a>>) -> (CtxV, Result<Seq<RDefnV<'a>>, ResolveError<'a>>)
    decreases ds.len(),
{
    if ds.len() == 0 {
        (c, Ok(acc))
    } else {
        let (c1, r) = resolve_defn_s(c, ds[0]);
        match r {
            Err(e) => (c1, Err(e)),
            Ok(d) => resolve_defns_rest(c1, ds.drop_first(), acc.push(d)),
        }
    }
}

/// The symbol table that resolution of a program starts from: one empty
/// global scope, no identifier handed out.
pub open spec fn empty_ctx() -> CtxV {
    CtxV { types: 0, params: 0, values: 0, scopes: seq![Seq::empty()] }
}

/// Resolves a whole program: all top-level names are declared first, so a
/// definition may refer to any other; then each definition is resolved.
pub open spec fn resolve_s<'a>(ds: Seq<DV<'a>>) -> Result<Seq<RDefnV<'a>>, ResolveError<'a>> {
    let (c1, r) = init_global_scope_s(empty_ctx(), ds);
    match r {
        Err(e) => Err(e),
        Ok(_) => resolve_defns_rest(c1, ds, Seq::empty()).1,
    }
}

#[verifier::loop_isolation(false)]
fn declare_ctors<'a>(ctx: &mut ResolverCtx<'a>, arms: &Vec<(&'a str, Vec<crate::ast::SpannedBinding<'a>>)>) -> (r: Result<(), ResolveError<'a>>)
    ensures
        (final(ctx)@, r) == declare_ctors_rest(
            old(ctx)@,
            arms@.map_values(|a: (&'a str, Vec<crate::ast::SpannedBinding<'a>>)| crate::parser::view_ctor(a)),
        ),
{
    let ghost all = arms@.map_values(|a: (&'a str, Vec<crate::ast::SpannedBinding<'a>>)| crate::parser::view_ctor(a));
    let mut i: usize = 0;
    assert(all.skip(0) =~= all);
    while i < arms.len()
        invariant
            i <= arms@.len(),
            declare_ctors_rest(old(ctx)@, all) == declare_ctors_rest(ctx@, all.skip(i as int)),
        decreases arms@.len() - i,
    {
        assert(all.skip(i as int).drop_first() =~= all.skip(i + 1));
        match ctx.add_value_nodup(arms[i].0) {
            Ok(_) => {},
            Err(e) => {
                return Err(e);
            },
        }
        i = i + 1;
    }
    Ok(())
}

/// Fills the global scope with the names of the definitions: each typedef's
/// type and constructors, each function's name. A name declared twice gives
/// `Duplicate`; a program without a function `main` gives `MissingMain`.
#[verifier::loop_isolation(false)]
pub fn try_init_global_scope<'a>(ctx: &mut ResolverCtx<'a>, defns: &[ParsedDefn<'a>]) -> (r: Result<(), ResolveError<'a>>)
    ensures
        (final(ctx)@, r) == init_global_scope_s(old(ctx)@, view_defns(defns@)),
{
    let ghost all = view_defns(defns@);
    let mut has_main = false;
    let mut i: usize = 0;
    assert(all.skip(0) =~= all);
    while i < defns.len()
        invariant
            i <= defns@.len(),
            all == view_defns(defns@),
            declare_globals_rest(old(ctx)@, all, false) == declare_globals_rest(
                ctx@,
                all.skip(i as int),
                has_main,
            ),
        decreases defns@.len() - i,
    {
        assert(all.skip(i as int).drop_first() =~= all.skip(i + 1));
        assert(all.skip(i as int)[0] == view_defn(defns@[i as int]));
        match &defns[i].node {
            Defn::Typedef { id, ty_vars: _, arms } => {
                match ctx.add_type_nodup(id) {
                    Ok(_) => {},
                    Err(e) => {
                        return Err(e);
                    },
                }
                match declare_ctors(ctx, arms) {
                    Ok(_) => {},
                    Err(e) => {
                        return Err(e);
                    },
                }
            },
            Defn::Fn { name, bindings: _, ret_ty: _, body: _ } => {
                if str_eq(name, "main") {
                    has_main = true;
                }
                match ctx.add_value_nodup(name) {
                    Ok(_) => {},
                    Err(e) => {
                        return Err(e);
                    },
                }
            },
        }
        i = i + 1;
    }
    if has_main {
        Ok(())
    } else {
        Err(ResolveError::MissingMain)
    }
}

/// Resolves a whole program; see `resolve_s`.
#[verifier::loop_isolation(false)]
pub fn try_resolve<'a>(defns: Vec<ParsedDefn<'a>>) -> (r: Result<Vec<ResolvedDefn<'a>>, ResolveError<'a>>)
    ensures
        match r {
            Ok(ds) => resolve_s(view_defns(defns@)) == Ok::<Seq<RDefnV<'a>>, ResolveError<'a>>(view_rdefns(ds@)),
            Err(e) => resolve_s(view_defns(defns@)) == Err::<Seq<RDefnV<'a>>, ResolveError<'a>>(e),
        },
{
    let mut ctx = ResolverCtx::new();
    match try_init_global_scope(&mut ctx, defns.as_slice()) {
        Ok(_) => {},
        Err(e) => {
            return Err(e);
        },
    }
    let ghost c1 = ctx@;
    let ghost all = defns@;
    let mut rest = defns;
    let mut out: Vec<ResolvedDefn<'a>> = Vec::new();
    let ghost mut k: int = 0;
    assert(all.skip(0) =~= all);
    assert(view_rdefns(out@) =~= Seq::<RDefnV<'a>>::empty());
    while rest.len() > 0
        invariant
            0 <= k <= all.len(),
            rest@ == all.skip(k),
            resolve_defns_rest(c1, view_defns(all), Seq::empty()) == resolve_defns_rest(
                ctx@,
                view_defns(rest@),
                view_rdefns(out@),
            ),
        decreases rest@.len(),
    {
        let ghost before = rest@;
        let d = rest.remove(0);
        assert(rest@ =~= all.skip(k + 1));
        assert(view_defns(before).drop_first() =~= view_defns(rest@));
        match try_resolve_defn(&mut ctx, d) {
            Ok(rd) => {
                assert(view_rdefns(out@.push(rd)) =~= view_rdefns(out@).push(view_rdefn(rd)));
                out.push(rd);
            },
            Err(e) => {
                return Err(e);
            },
        }
        proof {
            k = k + 1;
        }
    }
    Ok(out)
}

/// Fills the global scope of a program that declares no name twice and
/// defines `main`; `try_init_global_scope` also takes the others, and
/// reports why.
pub fn init_global_scope<'a>(ctx: &mut ResolverCtx<'a>, defns: &[ParsedDefn<'a>])
    requires
        init_global_scope_s(old(ctx)@, view_defns(defns@)).1 is Ok,
    ensures
        final(ctx)@ == init_global_scope_s(old(ctx)@, view_defns(defns@)).0,
{
    try_init_global_scope(ctx, defns).unwrap()
}

/// Resolves a program that resolves without error; `try_resolve` also takes
/// those that do not, and reports why.
pub fn resolve<'a>(defns: Vec<ParsedDefn<'a>>) -> (r: Vec<ResolvedDefn<'a>>)
    requires
        resolve_s(view_defns(defns@)) is Ok,
    ensures
        resolve_s(view_defns(defns@)) == Ok::<Seq<RDefnV<'a>>, ResolveError<'a>>(view_rdefns(r@)),
{
    try_resolve(defns).unwrap()
}

} // verus!
