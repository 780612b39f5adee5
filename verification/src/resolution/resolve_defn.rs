//! Resolution of top-level definitions.
use vstd::prelude::*;

use crate::ast::{view_bindings, Constructor, Defn, DefnV, ParsedBinding, ParsedDefn, ParsedStmt, Type};
use crate::grammar::{BV, DV, SV};
use crate::parser::{view_ctor, view_defn, view_stmts};
use crate::resolution::resolve_stmt::{lemma_resolve_stmt_inner, try_resolve_stmt, resolve_stmt_s};
use crate::resolution::resolve_type::{
    add_binding_existing_s, try_add_binding_no_shadowing, add_binding_no_shadowing_s, try_add_type,
    add_type_s, lemma_add_type_inner, try_add_binding_existing,
};
use crate::resolution::types::{
    add_typeparam_v, add_value_nodup_v, add_value_v, inner_change, lemma_declare_inner, lookup_type_v,
    lookup_value_v, pop_scope_v, push_scope_v, same_scopes,
    view_rbinding, view_rbindings, view_rctor, view_rdefn, view_rstmt, view_rstmts,
    CtxV, RBindingV, RDefnV, RStmtV, ResolveError, ResolvedBinding, ResolvedDefn, ResolvedStmt,
    ResolverCtx, TypeParamId, ValueId,
};

verus! {

/// The result of resolving a definition, as a model.
pub open spec fn view_rdefn_result<'a>(r: Result<ResolvedDefn<'a>, ResolveError<'a>>) -> Result<RDefnV<'a>, ResolveError<'a>> {
    match r {
        Ok(d) => Ok(view_rdefn(d)),
        Err(e) => Err(e),
    }
}

/// Declares the type parameters `names` in order, after those in `acc`.
pub open spec fn add_typeparams_rest<'a>(c: CtxV, names: Seq<&'a str>, acc: Seq<TypeParamId>) -> (CtxV, Result<Seq<TypeParamId>, ResolveError<'a>>)
    decreases names.len(),
{
    if names.len() == 0 {
        (c, Ok(acc))
    } else {
        let (c1, r) = add_typeparam_v(c, names[0]);
        match r {
            Err(e) => (c1, Err(e)),
            Ok(id) => add_typeparams_rest(c1, names.drop_first(), acc.push(id)),
        }
    }
}

/// Resolves the fields `bs` of a constructor in order, after those in `acc`:
/// each field's name is declared, then declared again with its type, which
/// may use only names already in scope.
pub open spec fn ctor_fields_rest<'a>(c: CtxV, bs: Seq<BV<'a>>, acc: Seq<RBindingV>) -> (CtxV, Result<Seq<RBindingV>, ResolveError<'a>>)
    decreases bs.len(),
{
    if bs.len() == 0 {
        (c, Ok(acc))
    } else {
        let (c1, r1) = add_value_v(c, bs[0].node.id);
        match r1 {
            Err(e) => (c1, Err(e)),
            Ok(_) => {
                let (c2, r2) = add_binding_existing_s(c1, bs[0]);
                match r2 {
                    Err(e) => (c2, Err(e)),
                    Ok(None) => (c2, Err(ResolveError::UnknownTypeParam(bs[0].node.id))),
                    Ok(Some(b)) => ctor_fields_rest(c2, bs.drop_first(), acc.push(b)),
                }
            },
        }
    }
}

/// Resolves the constructors `arms` of a typedef in order, after `acc`: each
/// must already be declared as a value; its fields live in a scope of their
/// own.
pub open spec fn resolve_ctors_rest<'a>(c: CtxV, arms: Seq<(&'a str, Seq<BV<'a>>)>, acc: Seq<(ValueId, Seq<RBindingV>)>) -> (CtxV, Result<Seq<(ValueId, Seq<RBindingV>)>, ResolveError<'a>>)
    decreases arms.len(),
{
    if arms.len() == 0 {
        (c, Ok(acc))
    } else {
        match lookup_value_v(c, arms[0].0@) {
            None => (c, Err(ResolveError::ConstructorNotInScope(arms[0].0))),
            Some(id) => {
                let (c1, r) = ctor_fields_rest(push_scope_v(c), arms[0].1, Seq::empty());
                match r {
                    Err(e) => (pop_scope_v(c1), Err(e)),
                    Ok(fs) => resolve_ctors_rest(pop_scope_v(c1), arms.drop_first(), acc.push((id, fs))),
                }
            },
        }
    }
}

/// Declares the parameters `bs` of a function in order, after `acc`,
/// refusing a name declared twice.
pub open spec fn add_params_rest<'a>(c: CtxV, bs: Seq<BV<'a>>, acc: Seq<RBindingV>) -> (CtxV, Result<Seq<RBindingV>, ResolveError<'a>>)
    decreases bs.len(),
{
    if bs.len() == 0 {
        (c, Ok(acc))
    } else {
        let (c1, r) = add_binding_no_shadowing_s(c, bs[0]);
        match r {
            Err(e) => (c1, Err(e)),
            Ok(b) => add_params_rest(c1, bs.drop_first(), acc.push(b)),
        }
    }
}

/// Resolves the statements `ss` in order, after those in `acc`.
pub open spec fn resolve_stmts_rest<'a>(c: CtxV, ss: Seq<SV<'a>>, acc: Seq<RStmtV<'a>>) -> (CtxV, Result<Seq<RStmtV<'a>>, ResolveError<'a>>)
    decreases ss.len(),
{
    if ss.len() == 0 {
        (c, Ok(acc))
    } else {
        let (c1, r) = resolve_stmt_s(c, ss[0]);
        match r {
            Err(e) => (c1, Err(e)),
            Ok(s) => resolve_stmts_rest(c1, ss.drop_first(), acc.push(s)),
        }
    }
}

/// Resolves a definition. A typedef's name and its constructors, and a
/// function's name, must already be declared (in the global scope); the
/// type parameters, parameters and locals live in a scope of their own that
/// is closed again afterwards, also when resolution fails inside it.
pub open spec fn resolve_defn_s<'a>(c: CtxV, d: DV<'a>) -> (CtxV, Result<RDefnV<'a>, ResolveError<'a>>) {
    match d.node {
        DefnV::Typedef { id, ty_vars, arms } => match lookup_type_v(c, id@) {
            None => (c, Err(ResolveError::TypeNotInScope(id))),
            Some(tid) => {
                let (c1, rp) = add_typeparams_rest(push_scope_v(c), ty_vars, Seq::empty());
                match rp {
                    Err(e) => (pop_scope_v(c1), Err(e)),
                    Ok(ps) => {
                        let (c2, ra) = resolve_ctors_rest(c1, arms, Seq::empty());
                        match ra {
                            Err(e) => (pop_scope_v(c2), Err(e)),
                            Ok(xs) => (pop_scope_v(c2), Ok(RDefnV::Typedef { id: tid, params: ps, arms: xs })),
                        }
                    },
                }
            },
        },
        DefnV::Fn { name, bindings, ret_ty, body } => {
            let c1 = push_scope_v(c);
            match lookup_value_v(c1, name@) {
                None => (pop_scope_v(c1), Err(ResolveError::FunctionNotInScope(name))),
                Some(fid) => {
                    let (c2, rt) = add_type_s(c1, ret_ty);
                    match rt {
                        Err(e) => (pop_scope_v(c2), Err(e)),
                        Ok(t) => {
                            let (c3, rb) = add_params_rest(c2, bindings, Seq::empty());
                            match rb {
                                Err(e) => (pop_scope_v(c3), Err(e)),
                                Ok(bs) => {
                                    let (c4, rs) = resolve_stmts_rest(c3, body, Seq::empty());
                                    match rs {
                                        Err(e) => (pop_scope_v(c4), Err(e)),
                                        Ok(ss) => (
                                            pop_scope_v(c4),
                                            Ok(RDefnV::Fn { id: fid, params: bs, ret_ty: t, body: ss }),
                                        ),
                                    }
                                },
                            }
                        },
                    }
                },
            }
        },
    }
}

#[verifier::loop_isolation(false)]
fn add_typeparams<'a>(ctx: &mut ResolverCtx<'a>, names: &Vec<&'a str>) -> (r: Result<Vec<TypeParamId>, ResolveError<'a>>)
    ensures
        (final(ctx)@, match r {
            Ok(ps) => Ok(ps@),
            Err(e) => Err(e),
        }) == add_typeparams_rest(old(ctx)@, names@, Seq::empty()),
{
    let mut out: Vec<TypeParamId> = Vec::new();
    let mut i: usize = 0;
    assert(names@.skip(0) =~= names@);
    while i < names.len()
        invariant
            i <= names@.len(),
            add_typeparams_rest(old(ctx)@, names@, Seq::empty()) == add_typeparams_rest(
                ctx@,
                names@.skip(i as int),
                out@,
            ),
        decreases names@.len() - i,
    {
        assert(names@.skip(i as int).drop_first() =~= names@.skip(i + 1));
        match ctx.try_add_typeparam(names[i]) {
            Ok(id) => out.push(id),
            Err(e) => {
                return Err(e);
            },
        }
        i = i + 1;
    }
    Ok(out)
}

#[verifier::loop_isolation(false)]
fn ctor_fields<'a>(ctx: &mut ResolverCtx<'a>, fields: Vec<ParsedBinding<'a>>) -> (r: Result<Vec<ResolvedBinding>, ResolveError<'a>>)
    ensures
        (final(ctx)@, match r {
            Ok(bs) => Ok(view_rbindings(bs@)),
            Err(e) => Err(e),
        }) == ctor_fields_rest(old(ctx)@, view_bindings(fields@), Seq::empty()),
{
    let ghost all = fields@;
    let mut rest = fields;
    let mut out: Vec<ResolvedBinding> = Vec::new();
    let ghost mut k: int = 0;
    assert(all.skip(0) =~= all);
    assert(view_rbindings(out@) =~= Seq::<RBindingV>::empty());
    while rest.len() > 0
        invariant
            0 <= k <= all.len(),
            rest@ == all.skip(k),
            ctor_fields_rest(old(ctx)@, view_bindings(all), Seq::empty()) == ctor_fields_rest(
                ctx@,
                view_bindings(rest@),
                view_rbindings(out@),
            ),
        decreases rest@.len(),
    {
        let ghost before = rest@;
        let b = rest.remove(0);
        assert(rest@ =~= all.skip(k + 1));
        assert(view_bindings(before).drop_first() =~= view_bindings(rest@));
        let name = b.node.id;
        match ctx.try_add_value(name) {
            Ok(_) => {},
            Err(e) => {
                return Err(e);
            },
        }
        match try_add_binding_existing(ctx, b) {
            Ok(Some(rb)) => {
                assert(view_rbindings(out@.push(rb)) =~= view_rbindings(out@).push(view_rbinding(rb)));
                out.push(rb);
            },
            Ok(None) => {
                return Err(ResolveError::UnknownTypeParam(name));
            },
            Err(e) => {
                return Err(e);
            },
        }
        proof {
            k = k + 1;
        }
    }
    Ok(out)
}

#[verifier::loop_isolation(false)]
fn resolve_typedef<'a>(
    ctx: &mut ResolverCtx<'a>,
    id: &'a str,
    ty_vars: Vec<&'a str>,
    arms: Vec<Constructor<'a>>,
) -> (r: Result<ResolvedDefn<'a>, ResolveError<'a>>)
    ensures
        (final(ctx)@, view_rdefn_result(r)) == resolve_defn_s(
            old(ctx)@,
            view_defn(ParsedDefn { offset: 0, node: Defn::Typedef { id, ty_vars, arms } }),
        ),
{
    let type_id = match ctx.lookup_type(id) {
        Some(t) => t,
        None => {
            return Err(ResolveError::TypeNotInScope(id));
        },
    };
    ctx.push_scope();
    let params = match add_typeparams(ctx, &ty_vars) {
        Ok(ps) => ps,
        Err(e) => {
            ctx.pop_scope();
            return Err(e);
        },
    };
    let ghost c1 = ctx@;
    let ghost all = arms@;
    let ghost all_v = arms@.map_values(|c: Constructor<'a>| view_ctor(c));
    let mut rest = arms;
    let mut out: Vec<(ValueId, Vec<ResolvedBinding>)> = Vec::new();
    let ghost mut k: int = 0;
    assert(all_v.skip(0) =~= all_v);
    assert(out@.map_values(|a: (ValueId, Vec<ResolvedBinding>)| view_rctor(a)) =~= Seq::<(ValueId, Seq<RBindingV>)>::empty());
    while rest.len() > 0
        invariant
            0 <= k <= all.len(),
            rest@ == all.skip(k),
            all_v == all.map_values(|c: Constructor<'a>| view_ctor(c)),
            resolve_ctors_rest(c1, all_v, Seq::empty()) == resolve_ctors_rest(
                ctx@,
                all_v.skip(k),
                out@.map_values(|a: (ValueId, Vec<ResolvedBinding>)| view_rctor(a)),
            ),
        decreases rest@.len(),
    {
        let (name, fields) = rest.remove(0);
        assert(all_v.skip(k).drop_first() =~= all_v.skip(k + 1));
        assert(all_v.skip(k)[0] == view_ctor((name, fields)));
        let ctor = match ctx.lookup_value(name) {
            Some(v) => v,
            None => {
                ctx.pop_scope();
                return Err(ResolveError::ConstructorNotInScope(name));
            },
        };
        ctx.push_scope();
        let fs = match ctor_fields(ctx, fields) {
            Ok(fs) => fs,
            Err(e) => {
                ctx.pop_scope();
                ctx.pop_scope();
                return Err(e);
            },
        };
        ctx.pop_scope();
        let ghost prev = out@;
        out.push((ctor, fs));
        assert(out@.map_values(|a: (ValueId, Vec<ResolvedBinding>)| view_rctor(a)) =~= prev.map_values(
            |a: (ValueId, Vec<ResolvedBinding>)| view_rctor(a),
        ).push((ctor, view_rbindings(fs@))));
        proof {
            k = k + 1;
        }
    }
    ctx.pop_scope();
    Ok(ResolvedDefn::Typedef { id: type_id, params, arms: out })
}


#[verifier::loop_isolation(false)]
fn add_params<'a>(ctx: &mut ResolverCtx<'a>, params: Vec<ParsedBinding<'a>>) -> (r: Result<Vec<ResolvedBinding>, ResolveError<'a>>)
    ensures
        (final(ctx)@, match r {
            Ok(bs) => Ok(view_rbindings(bs@)),
            Err(e) => Err(e),
        }) == add_params_rest(old(ctx)@, view_bindings(params@), Seq::empty()),
{
    let ghost all = params@;
    let mut rest = params;
    let mut out: Vec<ResolvedBinding> = Vec::new();
    let ghost mut k: int = 0;
    assert(all.skip(0) =~= all);
    assert(view_rbindings(out@) =~= Seq::<RBindingV>::empty());
    while rest.len() > 0
        invariant
            0 <= k <= all.len(),
            rest@ == all.skip(k),
            add_params_rest(old(ctx)@, view_bindings(all), Seq::empty()) == add_params_rest(
                ctx@,
                view_bindings(rest@),
                view_rbindings(out@),
            ),
        decreases rest@.len(),
    {
        let ghost before = rest@;
        let b = rest.remove(0);
        assert(rest@ =~= all.skip(k + 1));
        assert(view_bindings(before).drop_first() =~= view_bindings(rest@));
        match try_add_binding_no_shadowing(ctx, b) {
            Ok(rb) => {
                assert(view_rbindings(out@.push(rb)) =~= view_rbindings(out@).push(view_rbinding(rb)));
                out.push(rb);
            },
            Err(e) => {
                return Err(e);
            },
        }
        proof {
            k = k + 1;
        }
    }
    Ok(out)
}

#[verifier::loop_isolation(false)]
fn resolve_body<'a>(ctx: &mut ResolverCtx<'a>, body: Vec<ParsedStmt<'a>>) -> (r: Result<Vec<ResolvedStmt<'a>>, ResolveError<'a>>)
    ensures
        (final(ctx)@, match r {
            Ok(ss) => Ok(view_rstmts(ss@)),
            Err(e) => Err(e),
        }) == resolve_stmts_rest(old(ctx)@, view_stmts(body@), Seq::empty()),
{
    let ghost all = body@;
    let mut rest = body;
    let mut out: Vec<ResolvedStmt<'a>> = Vec::new();
    let ghost mut k: int = 0;
    assert(all.skip(0) =~= all);
    assert(view_rstmts(out@) =~= Seq::<RStmtV<'a>>::empty());
    while rest.len() > 0
        invariant
            0 <= k <= all.len(),
            rest@ == all.skip(k),
            resolve_stmts_rest(old(ctx)@, view_stmts(all), Seq::empty()) == resolve_stmts_rest(
                ctx@,
                view_stmts(rest@),
                view_rstmts(out@),
            ),
        decreases rest@.len(),
    {
        let ghost before = rest@;
        let st = rest.remove(0);
        assert(rest@ =~= all.skip(k + 1));
        assert(view_stmts(before).drop_first() =~= view_stmts(rest@));
        match try_resolve_stmt(ctx, st) {
            Ok(rs) => {
                assert(view_rstmts(out@.push(rs)) =~= view_rstmts(out@).push(view_rstmt(rs)));
                out.push(rs);
            },
            Err(e) => {
                return Err(e);
            },
        }
        proof {
            k = k + 1;
        }
    }
    Ok(out)
}

fn resolve_fn<'a>(
    ctx: &mut ResolverCtx<'a>,
    name: &'a str,
    bindings: Vec<ParsedBinding<'a>>,
    ret_ty: Type<'a>,
    body: Vec<ParsedStmt<'a>>,
) -> (r: Result<ResolvedDefn<'a>, ResolveError<'a>>)
    ensures
        (final(ctx)@, view_rdefn_result(r)) == resolve_defn_s(
            old(ctx)@,
            view_defn(ParsedDefn { offset: 0, node: Defn::Fn { name, bindings, ret_ty, body } }),
        ),
{
    ctx.push_scope();
    let fn_id = match ctx.lookup_value(name) {
        Some(v) => v,
        None => {
            ctx.pop_scope();
            return Err(ResolveError::FunctionNotInScope(name));
        },
    };
    let ret = match try_add_type(ctx, ret_ty) {
        Ok(t) => t,
        Err(e) => {
            ctx.pop_scope();
            return Err(e);
        },
    };
    let params = match add_params(ctx, bindings) {
        Ok(ps) => ps,
        Err(e) => {
            ctx.pop_scope();
            return Err(e);
        },
    };
    let stmts = match resolve_body(ctx, body) {
        Ok(ss) => ss,
        Err(e) => {
            ctx.pop_scope();
            return Err(e);
        },
    };
    ctx.pop_scope();
    Ok(ResolvedDefn::Fn { id: fn_id, params, ret_ty: ret, body: stmts })
}

/// Resolves a definition; see `resolve_defn_s`.
pub fn try_resolve_defn<'a>(ctx: &mut ResolverCtx<'a>, defn: ParsedDefn<'a>) -> (r: Result<ResolvedDefn<'a>, ResolveError<'a>>)
    ensures
        (final(ctx)@, view_rdefn_result(r)) == resolve_defn_s(old(ctx)@, view_defn(defn)),
{
    match defn.node {
        Defn::Typedef { id, ty_vars, arms } => resolve_typedef(ctx, id, ty_vars, arms),
        Defn::Fn { name, bindings, ret_ty, body } => resolve_fn(ctx, name, bindings, ret_ty, body),
    }
}


// ─── scopes ─────────────────────────────────────────────────────────

proof fn lemma_typeparams_inner<'a>(c: CtxV, names: Seq<&'a str>, acc: Seq<TypeParamId>)
    ensures
        inner_change(c, add_typeparams_rest(c, names, acc).0),
    decreases names.len(),
{
    if names.len() > 0 {
        lemma_declare_inner(c, names[0]);
        let (c1, r) = add_typeparam_v(c, names[0]);
        if r is Ok {
            lemma_typeparams_inner(c1, names.drop_first(), acc.push(r->Ok_0));
        }
    }
}

proof fn lemma_ctor_fields_inner<'a>(c: CtxV, bs: Seq<BV<'a>>, acc: Seq<RBindingV>)
    ensures
        inner_change(c, ctor_fields_rest(c, bs, acc).0),
    decreases bs.len(),
{
    if bs.len() > 0 {
        lemma_declare_inner(c, bs[0].node.id);
        let (c1, r1) = add_value_v(c, bs[0].node.id);
        if r1 is Ok {
            lemma_declare_inner(c1, bs[0].node.id);
            let (c2, r2) = add_binding_existing_s(c1, bs[0]);
            if let Ok(Some(b)) = r2 {
                lemma_ctor_fields_inner(c2, bs.drop_first(), acc.push(b));
            }
        }
    }
}

proof fn lemma_ctors_same<'a>(c: CtxV, arms: Seq<(&'a str, Seq<BV<'a>>)>, acc: Seq<(ValueId, Seq<RBindingV>)>)
    ensures
        same_scopes(c, resolve_ctors_rest(c, arms, acc).0),
    decreases arms.len(),
{
    if arms.len() > 0 {
        if let Some(id) = lookup_value_v(c, arms[0].0@) {
            let c0 = push_scope_v(c);
            assert(c0.scopes.drop_last() =~= c.scopes);
            lemma_ctor_fields_inner(c0, arms[0].1, Seq::empty());
            let (c1, r) = ctor_fields_rest(c0, arms[0].1, Seq::empty());
            if r is Ok {
                lemma_ctors_same(pop_scope_v(c1), arms.drop_first(), acc.push((id, r->Ok_0)));
            }
        }
    }
}

proof fn lemma_params_inner<'a>(c: CtxV, bs: Seq<BV<'a>>, acc: Seq<RBindingV>)
    ensures
        inner_change(c, add_params_rest(c, bs, acc).0),
    decreases bs.len(),
{
    if bs.len() > 0 {
        lemma_declare_inner(c, bs[0].node.id);
        let c1 = add_value_nodup_v(c, bs[0].node.id).0;
        lemma_add_type_inner(c1, bs[0].node.typ);
        let (c2, r) = add_binding_no_shadowing_s(c, bs[0]);
        if r is Ok {
            lemma_params_inner(c2, bs.drop_first(), acc.push(r->Ok_0));
        }
    }
}

proof fn lemma_stmts_inner<'a>(c: CtxV, ss: Seq<SV<'a>>, acc: Seq<RStmtV<'a>>)
    ensures
        inner_change(c, resolve_stmts_rest(c, ss, acc).0),
    decreases ss.len(),
{
    if ss.len() > 0 {
        lemma_resolve_stmt_inner(c, ss[0]);
        let (c1, r) = resolve_stmt_s(c, ss[0]);
        if r is Ok {
            lemma_stmts_inner(c1, ss.drop_first(), acc.push(r->Ok_0));
        }
    }
}

/// Resolving a definition declares nothing that outlives it: the type
/// parameters, parameters, fields and locals go out of scope with the
/// definition, also when its resolution fails. Only the counters of
/// identifiers move, and only upwards.
pub proof fn lemma_resolve_defn_keeps_scopes<'a>(c: CtxV, d: DV<'a>)
    ensures
        same_scopes(c, resolve_defn_s(c, d).0),
{
    let c0 = push_scope_v(c);
    assert(c0.scopes.drop_last() =~= c.scopes);
    match d.node {
        DefnV::Typedef { id, ty_vars, arms } => {
            if lookup_type_v(c, id@) is Some {
                lemma_typeparams_inner(c0, ty_vars, Seq::empty());
                let (c1, rp) = add_typeparams_rest(c0, ty_vars, Seq::empty());
                if rp is Ok {
                    lemma_ctors_same(c1, arms, Seq::empty());
                }
            }
        },
        DefnV::Fn { name, bindings, ret_ty, body } => {
            if lookup_value_v(c0, name@) is Some {
                lemma_add_type_inner(c0, ret_ty);
                let (c2, rt) = add_type_s(c0, ret_ty);
                if rt is Ok {
                    lemma_params_inner(c2, bindings, Seq::empty());
                    let (c3, rb) = add_params_rest(c2, bindings, Seq::empty());
                    if rb is Ok {
                        lemma_stmts_inner(c3, body, Seq::empty());
                    }
                }
            }
        },
    }
}

/// Resolves a definition that resolves without error; `try_resolve_defn`
/// also takes those that do not, and reports why.
pub fn resolve_defn<'a>(ctx: &mut ResolverCtx<'a>, defn: ParsedDefn<'a>) -> (r: ResolvedDefn<'a>)
    requires
        resolve_defn_s(old(ctx)@, view_defn(defn)).1 is Ok,
    ensures
        (final(ctx)@, view_rdefn_result(Ok(r))) == resolve_defn_s(old(ctx)@, view_defn(defn)),
{
    try_resolve_defn(ctx, defn).unwrap()
}

} // verus!
