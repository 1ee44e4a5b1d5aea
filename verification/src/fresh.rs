//! Fresh names: every type variable and struct identity that occurs in an
//! environment lies below the environment's counters, and checking keeps it
//! so.  What a declaration takes from the counters is therefore new to the
//! environment it is declared in.
use vstd::prelude::*;
use crate::env::{add_type, add_var, begin_scope, end_scope, look_type, look_var, EnvV, VEntry};
use crate::infer::{lookup_tv, subst_fields, subst_tycon, subst_type, subst_types, zip_subst};
use crate::progress::{lemma_lookup_member, lemma_lookup_tv_member};
use crate::syntax::{Call, Expression, Function, Spanned, Statement, Struct, StructLit, StructLitField, Ty, TyAlias, Var};
use crate::types::{Symbol, TypeVar, Unique, VTyCon, VType};
use crate::typing::{
    alias_spec, bind_params, bind_type_params, block_spec, call_spec, expr_list_spec, expr_spec, field_decl_tys,
    field_exprs_spec, field_type, incr_spec, cond_spec, fresh_vars, function_spec, lit_fields_spec, min, name_fields, param_tys, stmt_spec,
    struct_lit_spec, struct_spec, ty_list_spec, ty_spec, var_spec, Outcome,
};

verus! {

/// Every type variable in `vs` is below `tv`.
pub open spec fn vars_below(vs: Seq<TypeVar>, tv: u32) -> bool {
    forall|k: int| 0 <= k < vs.len() ==> (#[trigger] vs[k]).0 < tv
}

/// Every type variable in `t` is below `tv` and every struct identity in it
/// below `un`.
pub open spec fn type_below(t: VType, tv: u32, un: u32) -> bool
    decreases t, 0nat,
{
    match t {
        VType::App(c, ts) => tycon_below(c, tv, un) && forall|k: int| 0 <= k < ts.len() ==> type_below(#[trigger] ts[k], tv, un),
        VType::Struct(_, fs, u) => u.0 < un && forall|k: int| 0 <= k < fs.len() ==> type_below(#[trigger] fs[k].1, tv, un),
        VType::Var(v) => v.0 < tv,
        VType::Poly(vs, b) => vars_below(vs, tv) && type_below(*b, tv, un),
        VType::Nil => true,
    }
}

pub open spec fn tycon_below(c: VTyCon, tv: u32, un: u32) -> bool
    decreases c, 0nat,
{
    match c {
        VTyCon::Fun(vs, b) => vars_below(vs, tv) && type_below(*b, tv, un),
        _ => true,
    }
}

pub open spec fn types_below(ts: Seq<VType>, tv: u32, un: u32) -> bool {
    forall|k: int| 0 <= k < ts.len() ==> type_below(#[trigger] ts[k], tv, un)
}

pub open spec fn fields_below(fs: Seq<(Symbol, VType)>, tv: u32, un: u32) -> bool {
    forall|k: int| 0 <= k < fs.len() ==> type_below(#[trigger] fs[k].1, tv, un)
}

pub open spec fn entry_below(e: VEntry, tv: u32, un: u32) -> bool {
    match e {
        VEntry::Ty(t) => type_below(t, tv, un),
        VEntry::TyCon(c) => tycon_below(c, tv, un),
    }
}

/// Every type variable and struct identity bound in the environment is one
/// it has already handed out: each lies below its counter.
pub open spec fn names_handed_out(env: EnvV) -> bool {
    &&& forall|k: int|
        0 <= k < env.types.bindings.len() ==> entry_below(#[trigger] env.types.bindings[k].1, env.next_tyvar, env.next_unique)
    &&& forall|k: int|
        0 <= k < env.vars.bindings.len() ==> type_below(#[trigger] env.vars.bindings[k].1, env.next_tyvar, env.next_unique)
}

// ---------------------------------------------------------------- basics

proof fn lemma_below_grows(t: VType, tv: u32, un: u32, tv2: u32, un2: u32)
    requires
        type_below(t, tv, un),
        tv <= tv2,
        un <= un2,
    ensures
        type_below(t, tv2, un2),
    decreases t, 0nat,
{
    reveal_with_fuel(type_below, 3);
    reveal_with_fuel(tycon_below, 3);
    match t {
        VType::App(c, ts) => {
            match c {
                VTyCon::Fun(_, b) => lemma_below_grows(*b, tv, un, tv2, un2),
                _ => {},
            }
            assert forall|k: int| 0 <= k < ts.len() implies type_below(#[trigger] ts[k], tv2, un2) by {
                lemma_below_grows(ts[k], tv, un, tv2, un2);
            }
        },
        VType::Struct(_, fs, _) => {
            assert forall|k: int| 0 <= k < fs.len() implies type_below(#[trigger] fs[k].1, tv2, un2) by {
                lemma_below_grows(fs[k].1, tv, un, tv2, un2);
            }
        },
        VType::Poly(_, b) => lemma_below_grows(*b, tv, un, tv2, un2),
        _ => {},
    }
}

proof fn lemma_entry_below_grows(e: VEntry, tv: u32, un: u32, tv2: u32, un2: u32)
    requires
        entry_below(e, tv, un),
        tv <= tv2,
        un <= un2,
    ensures
        entry_below(e, tv2, un2),
{
    reveal_with_fuel(tycon_below, 2);
    match e {
        VEntry::Ty(t) => lemma_below_grows(t, tv, un, tv2, un2),
        VEntry::TyCon(c) => match c {
            VTyCon::Fun(_, b) => lemma_below_grows(*b, tv, un, tv2, un2),
            _ => {},
        },
    }
}

/// Raising the counters keeps every name below them.
proof fn lemma_handed_out_grows(env: EnvV, tv2: u32, un2: u32)
    requires
        names_handed_out(env),
        env.next_tyvar <= tv2,
        env.next_unique <= un2,
    ensures
        names_handed_out(EnvV { next_tyvar: tv2, next_unique: un2, ..env }),
{
    assert forall|k: int| 0 <= k < env.types.bindings.len() implies entry_below(
        #[trigger] env.types.bindings[k].1,
        tv2,
        un2,
    ) by {
        lemma_entry_below_grows(env.types.bindings[k].1, env.next_tyvar, env.next_unique, tv2, un2);
    }
    assert forall|k: int| 0 <= k < env.vars.bindings.len() implies type_below(#[trigger] env.vars.bindings[k].1, tv2, un2) by {
        lemma_below_grows(env.vars.bindings[k].1, env.next_tyvar, env.next_unique, tv2, un2);
    }
}

proof fn lemma_look_below(env: EnvV, s: Symbol)
    requires
        names_handed_out(env),
    ensures
        look_var(env, s) matches Some(t) ==> type_below(t, env.next_tyvar, env.next_unique),
        look_type(env, s) matches Some(e) ==> entry_below(e, env.next_tyvar, env.next_unique),
{
    lemma_lookup_member(env.vars.bindings, s);
    lemma_lookup_member(env.types.bindings, s);
}

proof fn lemma_add_var_below(env: EnvV, s: Symbol, t: VType)
    requires
        names_handed_out(env),
        type_below(t, env.next_tyvar, env.next_unique),
    ensures
        names_handed_out(add_var(env, s, t)),
{
    let b = add_var(env, s, t).vars.bindings;
    assert forall|k: int| 0 <= k < b.len() implies type_below(#[trigger] b[k].1, env.next_tyvar, env.next_unique) by {
        if k < env.vars.bindings.len() {
            assert(b[k] == env.vars.bindings[k]);
        }
    }
}

proof fn lemma_add_type_below(env: EnvV, s: Symbol, e: VEntry)
    requires
        names_handed_out(env),
        entry_below(e, env.next_tyvar, env.next_unique),
    ensures
        names_handed_out(add_type(env, s, e)),
{
    let b = add_type(env, s, e).types.bindings;
    assert forall|k: int| 0 <= k < b.len() implies entry_below(#[trigger] b[k].1, env.next_tyvar, env.next_unique) by {
        if k < env.types.bindings.len() {
            assert(b[k] == env.types.bindings[k]);
        }
    }
}

pub open spec fn subst_below(m: Seq<(TypeVar, VType)>, tv: u32, un: u32) -> bool {
    forall|k: int| 0 <= k < m.len() ==> type_below(#[trigger] m[k].1, tv, un)
}

proof fn lemma_zip_below(vs: Seq<TypeVar>, ts: Seq<VType>, tv: u32, un: u32)
    requires
        types_below(ts, tv, un),
    ensures
        subst_below(zip_subst(vs, ts), tv, un),
{
    assert forall|k: int| 0 <= k < zip_subst(vs, ts).len() implies type_below(#[trigger] zip_subst(vs, ts)[k].1, tv, un) by {
        assert(zip_subst(vs, ts)[k].1 == ts[k]);
    }
}

proof fn lemma_subst_below(t: VType, m: Seq<(TypeVar, VType)>, tv: u32, un: u32)
    requires
        type_below(t, tv, un),
        subst_below(m, tv, un),
    ensures
        type_below(subst_type(t, m), tv, un),
    decreases t, 0nat,
{
    reveal_with_fuel(type_below, 3);
    reveal_with_fuel(tycon_below, 3);
    match t {
        VType::App(c, ts) => {
            match c {
                VTyCon::Fun(_, b) => lemma_subst_below(*b, m, tv, un),
                _ => {},
            }
            let r = subst_type(t, m)->App_1;
            assert forall|k: int| 0 <= k < r.len() implies type_below(#[trigger] r[k], tv, un) by {
                lemma_subst_below(ts[k], m, tv, un);
            }
            assert(tycon_below(subst_tycon(c, m), tv, un));
        },
        VType::Struct(_, fs, _) => {
            let r = subst_type(t, m)->Struct_1;
            assert forall|k: int| 0 <= k < r.len() implies type_below(#[trigger] r[k].1, tv, un) by {
                lemma_subst_below(fs[k].1, m, tv, un);
            }
        },
        VType::Var(v) => lemma_lookup_tv_member(m, v),
        VType::Poly(_, b) => lemma_subst_below(*b, m, tv, un),
        VType::Nil => {},
    }
}

proof fn lemma_subst_fields_below(fs: Seq<(Symbol, VType)>, m: Seq<(TypeVar, VType)>, tv: u32, un: u32)
    requires
        fields_below(fs, tv, un),
        subst_below(m, tv, un),
    ensures
        fields_below(subst_fields(fs, m), tv, un),
{
    assert forall|k: int| 0 <= k < subst_fields(fs, m).len() implies type_below(
        #[trigger] subst_fields(fs, m)[k].1,
        tv,
        un,
    ) by {
        lemma_subst_below(fs[k].1, m, tv, un);
    }
}

// ---------------------------------------------------------------- types

/// A written type stands for a type made of names the environment has
/// handed out.
pub proof fn law_ty_below(t: Spanned<Ty>, env: EnvV)
    requires
        names_handed_out(env),
    ensures
        ty_spec(t, env).0 matches Outcome::Done(x) ==> type_below(x, env.next_tyvar, env.next_unique),
    decreases t, 0nat,
{
    reveal_with_fuel(type_below, 3);
    reveal_with_fuel(tycon_below, 3);
    let tv = env.next_tyvar;
    let un = env.next_unique;
    match t.value {
        Ty::Simple(id) => lemma_look_below(env, id.value),
        Ty::Poly(id, args) => {
            lemma_look_below(env, id.value);
            match look_type(env, id.value) {
                Some(VEntry::Ty(VType::Poly(tvs, inner))) => {
                    let n = min(tvs.len() as int, args@.len() as int);
                    lemma_ty_list_below(args@, 0, n, env);
                    match (*inner, ty_list_spec(args@, 0, n, env).0) {
                        (VType::Struct(_, fields, _), Outcome::Done(ts)) => {
                            lemma_zip_below(tvs, ts, tv, un);
                            lemma_subst_fields_below(fields, zip_subst(tvs, ts), tv, un);
                        },
                        _ => {},
                    }
                },
                _ => {},
            }
        },
        Ty::Func(ps, r) => {
            lemma_ty_list_below(ps@, 0, ps@.len() as int, env);
            match r {
                Some(x) => law_ty_below(*x, env),
                None => {},
            }
            match ty_list_spec(ps@, 0, ps@.len() as int, env).0 {
                Outcome::Done(pts) => {
                    match r {
                        Some(x) => match ty_spec(*x, env).0 {
                            Outcome::Done(rt) => {
                                assert(types_below(pts.push(rt), tv, un));
                            },
                            _ => {},
                        },
                        None => {
                            assert(types_below(pts.push(VType::Nil), tv, un));
                        },
                    }
                },
                _ => {},
            }
        },
        _ => {},
    }
}

proof fn lemma_ty_list_below(ts: Seq<Spanned<Ty>>, i: int, n: int, env: EnvV)
    requires
        names_handed_out(env),
    ensures
        ty_list_spec(ts, i, n, env).0 matches Outcome::Done(r) ==> types_below(r, env.next_tyvar, env.next_unique),
    decreases ts, n - i,
{
    if 0 <= i < n && i < ts.len() {
        law_ty_below(ts[i], env);
        lemma_ty_list_below(ts, i + 1, n, env);
        match (ty_spec(ts[i], env).0, ty_list_spec(ts, i + 1, n, env).0) {
            (Outcome::Done(t), Outcome::Done(rest)) => {
                assert(types_below(seq![t] + rest, env.next_tyvar, env.next_unique));
            },
            _ => {},
        }
    }
}

// ---------------------------------------------------------------- expressions

/// The type of an expression is made of names the environment has handed
/// out.
pub proof fn law_expr_below(e: Spanned<Expression>, env: EnvV)
    requires
        names_handed_out(env),
    ensures
        expr_spec(e, env).0 matches Outcome::Done(t) ==> type_below(t, env.next_tyvar, env.next_unique),
    decreases e, 0nat,
{
    reveal_with_fuel(type_below, 3);
    reveal_with_fuel(tycon_below, 3);
    match e.value {
        Expression::Assign { name, value } => {
            lemma_var_below(name, env);
            law_expr_below(*value, env);
        },
        Expression::Binary { lhs, op, rhs } => {
            law_expr_below(*lhs, env);
            law_expr_below(*rhs, env);
        },
        Expression::Cast { from, to } => {
            law_expr_below(*from, env);
            law_ty_below(to, env);
        },
        Expression::Call(c) => lemma_call_below(c, env),
        Expression::Grouping { expr } => law_expr_below(*expr, env),
        Expression::StructLit(sl) => lemma_struct_lit_below(sl, env),
        Expression::Unary { op, expr } => law_expr_below(*expr, env),
        Expression::Var(v) => lemma_var_below(v, env),
        Expression::Literal(_) => {},
    }
}

proof fn lemma_expr_list_below(es: Seq<Spanned<Expression>>, i: int, n: int, env: EnvV)
    requires
        names_handed_out(env),
    ensures
        expr_list_spec(es, i, n, env).0 matches Outcome::Done(r) ==> types_below(r, env.next_tyvar, env.next_unique),
    decreases es, n - i,
{
    if 0 <= i < n && i < es.len() {
        law_expr_below(es[i], env);
        lemma_expr_list_below(es, i + 1, n, env);
        match (expr_spec(es[i], env).0, expr_list_spec(es, i + 1, n, env).0) {
            (Outcome::Done(t), Outcome::Done(rest)) => {
                assert(types_below(seq![t] + rest, env.next_tyvar, env.next_unique));
            },
            _ => {},
        }
    }
}

proof fn lemma_call_below(c: Spanned<Call>, env: EnvV)
    requires
        names_handed_out(env),
    ensures
        call_spec(c, env).0 matches Outcome::Done(t) ==> type_below(t, env.next_tyvar, env.next_unique),
    decreases c, 0nat,
{
    reveal_with_fuel(type_below, 3);
    reveal_with_fuel(tycon_below, 3);
    let tv = env.next_tyvar;
    let un = env.next_unique;
    match c.value {
        Call::Simple { callee, args } => {
            lemma_look_below(env, callee.value);
            match look_var(env, callee.value) {
                Some(VType::Poly(tvs, ret)) => {
                    let n = min(tvs.len() as int, args@.len() as int);
                    lemma_expr_list_below(args@, 0, n, env);
                    match (*ret, expr_list_spec(args@, 0, n, env).0) {
                        (VType::App(VTyCon::Arrow, fts), Outcome::Done(ats)) => {
                            if fts.len() > 0 {
                                lemma_zip_below(tvs, ats, tv, un);
                                assert(type_below(fts[fts.len() - 1], tv, un));
                                lemma_subst_below(fts.last(), zip_subst(tvs, ats), tv, un);
                            }
                        },
                        _ => {},
                    }
                },
                _ => {},
            }
        },
        Call::Instantiation { callee, tys, args } => {
            lemma_look_below(env, callee.value);
            match look_var(env, callee.value) {
                Some(VType::Poly(tvs, ret)) => {
                    lemma_ty_list_below(tys.value@, 0, tys.value@.len() as int, env);
                    match (*ret, ty_list_spec(tys.value@, 0, tys.value@.len() as int, env).0) {
                        (VType::App(VTyCon::Arrow, fts), Outcome::Done(targs)) => {
                            if fts.len() > 0 {
                                lemma_zip_below(tvs, targs, tv, un);
                                assert(type_below(fts[fts.len() - 1], tv, un));
                                lemma_subst_below(fts.last(), zip_subst(tvs, targs), tv, un);
                            }
                        },
                        _ => {},
                    }
                },
                _ => {},
            }
        },
    }
}

proof fn lemma_lit_fields_below(
    decl: Seq<(Symbol, VType)>,
    fs: Seq<Spanned<StructLitField>>,
    m: Seq<(TypeVar, VType)>,
    owner: Symbol,
    flip: bool,
    i: int,
    found: bool,
    inst: Seq<(Symbol, VType)>,
    env: EnvV,
)
    requires
        names_handed_out(env),
        fields_below(inst, env.next_tyvar, env.next_unique),
    ensures
        lit_fields_spec(decl, fs, m, owner, flip, i, found, inst, env).0 matches Outcome::Done(p) ==> fields_below(
            p.1,
            env.next_tyvar,
            env.next_unique,
        ),
    decreases fs, fs.len() - i,
{
    if 0 <= i < decl.len() && i < fs.len() {
        if decl[i].0 == fs[i].value.ident.value {
            law_expr_below(fs[i].value.expr, env);
            match expr_spec(fs[i].value.expr, env).0 {
                Outcome::Done(t) => {
                    let inst2 = inst.push((fs[i].value.ident.value, t));
                    assert(fields_below(inst2, env.next_tyvar, env.next_unique));
                    lemma_lit_fields_below(decl, fs, m, owner, flip, i + 1, true, inst2, env);
                },
                _ => {},
            }
        } else {
            lemma_lit_fields_below(decl, fs, m, owner, flip, i + 1, false, inst, env);
        }
    }
}

proof fn lemma_struct_lit_below(sl: Spanned<StructLit>, env: EnvV)
    requires
        names_handed_out(env),
    ensures
        struct_lit_spec(sl, env).0 matches Outcome::Done(t) ==> type_below(t, env.next_tyvar, env.next_unique),
    decreases sl, 0nat,
{
    reveal_with_fuel(type_below, 3);
    reveal_with_fuel(tycon_below, 3);
    match sl.value {
        StructLit::Simple { ident, fields } => {
            lemma_look_below(env, ident.value);
            match look_type(env, ident.value) {
                Some(VEntry::Ty(VType::Poly(tvs, inner))) => {
                    let n = min(tvs.len() as int, fields@.len() as int);
                    match (*inner, field_exprs_spec(fields@, 0, n, env).0) {
                        (VType::Struct(_, decl, _), Outcome::Done(ets)) => {
                            lemma_lit_fields_below(decl, fields@, zip_subst(tvs, ets), ident.value, false, 0, false, seq![], env);
                        },
                        _ => {},
                    }
                },
                _ => {},
            }
        },
        StructLit::Instantiation { ident, fields, tys } => {
            lemma_look_below(env, ident.value);
            match look_type(env, ident.value) {
                Some(VEntry::Ty(VType::Poly(tvs, inner))) => {
                    match (*inner, ty_list_spec(tys.value@, 0, tys.value@.len() as int, env).0) {
                        (VType::Struct(_, decl, _), Outcome::Done(targs)) => {
                            lemma_lit_fields_below(decl, fields@, zip_subst(tvs, targs), ident.value, true, 0, false, seq![], env);
                        },
                        _ => {},
                    }
                },
                _ => {},
            }
        },
    }
}

proof fn lemma_field_type_below(fs: Seq<(Symbol, VType)>, name: Symbol, i: int, tv: u32, un: u32)
    requires
        fields_below(fs, tv, un),
    ensures
        field_type(fs, name, i) matches Some(t) ==> type_below(t, tv, un),
    decreases fs.len() - i,
{
    if 0 <= i < fs.len() && fs[i].0 != name {
        lemma_field_type_below(fs, name, i + 1, tv, un);
    }
}

proof fn lemma_var_below(v: Spanned<Var>, env: EnvV)
    requires
        names_handed_out(env),
    ensures
        var_spec(v, env).0 matches Outcome::Done(t) ==> type_below(t, env.next_tyvar, env.next_unique),
    decreases v, 0nat,
{
    reveal_with_fuel(type_below, 3);
    reveal_with_fuel(tycon_below, 3);
    match v.value {
        Var::Simple(id) => lemma_look_below(env, id.value),
        Var::Field { ident, value } => {
            lemma_look_below(env, ident.value);
            match look_var(env, ident.value) {
                Some(VType::Struct(_, fs, _)) => lemma_field_type_below(fs, value.value, 0, env.next_tyvar, env.next_unique),
                _ => {},
            }
        },
        Var::SubScript { target, expr } => law_expr_below(*expr, env),
    }
}

// ---------------------------------------------------------------- statements

/// A statement yields a type made of names the environment has handed out,
/// keeps the counters, and leaves only such names bound.
pub proof fn law_stmt_below(s: Spanned<Statement>, env: EnvV)
    requires
        names_handed_out(env),
    ensures
        stmt_spec(s, env).0 matches Outcome::Done(t) ==> type_below(t, env.next_tyvar, env.next_unique),
        stmt_spec(s, env).1.next_tyvar == env.next_tyvar,
        stmt_spec(s, env).1.next_unique == env.next_unique,
        names_handed_out(stmt_spec(s, env).1),
    decreases s, 1nat,
{
    crate::laws::law_statement_only_adds_vars(s, env);
    match s.value {
        Statement::Block(ss) => lemma_block_below(ss@, 0, VType::Nil, env),
        Statement::Expr(e) => law_expr_below(e, env),
        Statement::For { .. } => lemma_for_below(s, env),
        Statement::If { cond, then, otherwise } => {
            law_expr_below(cond, env);
            law_stmt_below(*then, env);
            match otherwise {
                Some(o) => law_stmt_below(*o, stmt_spec(*then, env).1),
                None => {},
            }
        },
        Statement::Let { .. } => lemma_let_below(s, env),
        Statement::Return(e) => law_expr_below(e, env),
        Statement::While { cond, body } => {
            law_expr_below(cond, env);
            law_stmt_below(*body, env);
        },
        _ => {},
    }
}

#[verifier::rlimit(40)]
proof fn lemma_for_below(s: Spanned<Statement>, env: EnvV)
    requires
        names_handed_out(env),
        s.value is For,
    ensures
        stmt_spec(s, env).0 matches Outcome::Done(t) ==> type_below(t, env.next_tyvar, env.next_unique),
        names_handed_out(stmt_spec(s, env).1),
    decreases s, 0nat,
{
    match s.value {
        Statement::For { init, cond, incr, body } => {
            if init is None && cond is None && incr is None {
                law_stmt_below(*body, env);
            } else {
                let env1 = match init {
                    Some(st) => {
                        law_stmt_below(*st, env);
                        stmt_spec(*st, env).1
                    },
                    None => env,
                };
                law_stmt_below(*body, env1);
            }
        },
        _ => {},
    }
}

proof fn lemma_let_below(s: Spanned<Statement>, env: EnvV)
    requires
        names_handed_out(env),
        s.value is Let,
    ensures
        names_handed_out(stmt_spec(s, env).1),
{
    match s.value {
        Statement::Let { ident, ty, expr } => {
            match expr {
                Some(x) => {
                    law_expr_below(x, env);
                    match ty {
                        Some(ta) => {},
                        None => match expr_spec(x, env).0 {
                            Outcome::Done(et) => lemma_add_var_below(env, ident.value, et),
                            _ => {},
                        },
                    }
                },
                None => match ty {
                    Some(ta) => {
                        law_ty_below(ta, env);
                        match ty_spec(ta, env).0 {
                            Outcome::Done(t) => lemma_add_var_below(env, ident.value, t),
                            _ => {},
                        }
                    },
                    None => lemma_add_var_below(env, ident.value, VType::Nil),
                },
            }
        },
        _ => {},
    }
}

proof fn lemma_block_below(ss: Seq<Spanned<Statement>>, i: int, last: VType, env: EnvV)
    requires
        names_handed_out(env),
        type_below(last, env.next_tyvar, env.next_unique),
    ensures
        block_spec(ss, i, last, env).0 matches Outcome::Done(t) ==> type_below(t, env.next_tyvar, env.next_unique),
        names_handed_out(block_spec(ss, i, last, env).1),
    decreases ss, ss.len() - i,
{
    if 0 <= i < ss.len() {
        law_stmt_below(ss[i], env);
        match stmt_spec(ss[i], env).0 {
            Outcome::Done(t) => lemma_block_below(ss, i + 1, t, stmt_spec(ss[i], env).1),
            _ => {},
        }
    }
}

// ---------------------------------------------------------------- declarations

/// An environment with nothing bound holds only names it handed out.
pub proof fn law_empty_env_handed_out(env: EnvV)
    requires
        env.types.bindings.len() == 0,
        env.vars.bindings.len() == 0,
    ensures
        names_handed_out(env),
{
}

/// Binding type parameters takes new type variables: distinct from one
/// another and not below the counter, so none of them occurs in an
/// environment that holds only names it handed out; and the environment
/// afterwards holds only names it handed out.
pub proof fn law_type_params_fresh(env: EnvV, ps: Seq<Spanned<Symbol>>)
    requires
        names_handed_out(env),
        env.next_tyvar + ps.len() <= u32::MAX,
    ensures
        ({
            let vs = fresh_vars(env.next_tyvar, ps.len());
            &&& forall|k: int| 0 <= k < vs.len() ==> env.next_tyvar <= (#[trigger] vs[k]).0 < bind_type_params(env, ps).next_tyvar
            &&& forall|j: int, k: int| 0 <= j < k < vs.len() ==> #[trigger] vs[j] != #[trigger] vs[k]
        }),
        bind_type_params(env, ps).next_tyvar == env.next_tyvar + ps.len(),
        bind_type_params(env, ps).next_unique == env.next_unique,
        names_handed_out(bind_type_params(env, ps)),
{
    let vs = fresh_vars(env.next_tyvar, ps.len());
    let tv2 = (env.next_tyvar + ps.len()) as u32;
    let e1 = bind_type_params(env, ps);
    let b = e1.types.bindings;
    assert forall|k: int| 0 <= k < b.len() implies entry_below(#[trigger] b[k].1, tv2, env.next_unique) by {
        if k < env.types.bindings.len() {
            assert(b[k] == env.types.bindings[k]);
            lemma_entry_below_grows(env.types.bindings[k].1, env.next_tyvar, env.next_unique, tv2, env.next_unique);
        } else {
            let j = k - env.types.bindings.len();
            assert(b[k].1 == VEntry::Ty(VType::Var(vs[j])));
        }
    }
    assert forall|k: int| 0 <= k < e1.vars.bindings.len() implies type_below(
        #[trigger] e1.vars.bindings[k].1,
        tv2,
        env.next_unique,
    ) by {
        lemma_below_grows(env.vars.bindings[k].1, env.next_tyvar, env.next_unique, tv2, env.next_unique);
    }
}

/// Declaring a struct keeps the environment holding only names it handed
/// out. The identity the struct takes is the counter's value, which no
/// struct in such an environment has.
pub proof fn law_struct_names_fresh(sd: Spanned<Struct>, env: EnvV)
    requires
        names_handed_out(env),
        env.next_tyvar + sd.value.name.value.type_params@.len() <= u32::MAX,
        env.next_unique < u32::MAX,
    ensures
        names_handed_out(struct_spec(sd, env).1),
        struct_spec(sd, env).1.next_unique == env.next_unique + 1,
        struct_spec(sd, env).1.next_tyvar == env.next_tyvar + sd.value.name.value.type_params@.len(),
        look_type(struct_spec(sd, env).1, sd.value.name.value.name.value) matches Some(
            VEntry::Ty(VType::Poly(_, inner)),
        ) && (*inner matches VType::Struct(_, _, u) && u.0 == env.next_unique),
{
    reveal_with_fuel(type_below, 3);
    let ps = sd.value.name.value.type_params@;
    let name = sd.value.name.value.name.value;
    let env1 = bind_type_params(env, ps);
    law_type_params_fresh(env, ps);
    let env2 = EnvV { next_unique: (env1.next_unique + 1) as u32, ..env1 };
    lemma_handed_out_grows(env1, env1.next_tyvar, (env1.next_unique + 1) as u32);
    assert(env2 == EnvV { next_tyvar: env1.next_tyvar, next_unique: (env1.next_unique + 1) as u32, ..env1 });
    let u = Unique(env1.next_unique);
    let vs = fresh_vars(env.next_tyvar, ps.len());
    let skeleton = VEntry::Ty(VType::Poly(vs, Box::new(VType::Struct(name, seq![], u))));
    assert(vars_below(vs, env2.next_tyvar));
    assert(entry_below(skeleton, env2.next_tyvar, env2.next_unique));
    lemma_add_type_below(env2, name, skeleton);
    let env3 = add_type(env2, name, skeleton);
    let fs = sd.value.fields.value@;
    lemma_ty_list_below(field_decl_tys(fs), 0, fs.len() as int, env3);
    if struct_spec(sd, env).0 is Done {
        crate::laws::law_struct_binding(sd, env);
    } else {
        crate::laws::law_lookup_after_add(env2, name, VType::Nil, skeleton);
    }
    match ty_list_spec(field_decl_tys(fs), 0, fs.len() as int, env3).0 {
        Outcome::Done(ts) => {
            crate::laws::lemma_ty_list_len(field_decl_tys(fs), 0, fs.len() as int, env3);
            let nf = name_fields(fs, ts);
            assert(fields_below(nf, env3.next_tyvar, env3.next_unique));
            let full = VEntry::Ty(VType::Poly(vs, Box::new(VType::Struct(name, nf, u))));
            assert(entry_below(full, env3.next_tyvar, env3.next_unique));
            lemma_add_type_below(env3, name, full);
        },
        _ => {},
    }
}

/// Declaring a type alias keeps the environment holding only names it
/// handed out.
pub proof fn law_alias_names_fresh(a: Spanned<TyAlias>, env: EnvV)
    requires
        names_handed_out(env),
        env.next_tyvar + a.value.ident.value.type_params@.len() <= u32::MAX,
    ensures
        names_handed_out(alias_spec(a, env).1),
{
    reveal_with_fuel(tycon_below, 2);
    let ps = a.value.ident.value.type_params@;
    let name = a.value.ident.value.name.value;
    if ps.len() == 0 {
        law_ty_below(a.value.ty, env);
        match ty_spec(a.value.ty, env).0 {
            Outcome::Done(t) => lemma_add_type_below(env, name, VEntry::Ty(t)),
            _ => {},
        }
    } else {
        law_type_params_fresh(env, ps);
        let env1 = bind_type_params(env, ps);
        let vs = fresh_vars(env.next_tyvar, ps.len());
        law_ty_below(a.value.ty, env1);
        match ty_spec(a.value.ty, env1).0 {
            Outcome::Done(t) => {
                assert(vars_below(vs, env1.next_tyvar));
                lemma_add_type_below(env1, name, VEntry::TyCon(VTyCon::Fun(vs, Box::new(t))));
            },
            _ => {},
        }
    }
}

/// Declaring a function keeps the environment holding only names it handed
/// out.
pub proof fn law_function_names_fresh(f: Spanned<Function>, env: EnvV)
    requires
        names_handed_out(env),
        env.next_tyvar + f.value.name.value.type_params@.len() <= u32::MAX,
    ensures
        names_handed_out(function_spec(f, env).1),
{
    reveal_with_fuel(type_below, 3);
    reveal_with_fuel(tycon_below, 3);
    let ps = f.value.name.value.type_params@;
    let name = f.value.name.value.name.value;
    let vs = fresh_vars(env.next_tyvar, ps.len());
    let env1 = bind_type_params(env, ps);
    law_type_params_fresh(env, ps);
    let tv = env1.next_tyvar;
    let un = env1.next_unique;
    match f.value.return_ty {
        Some(rt) => law_ty_below(rt, env1),
        None => {},
    }
    let rr: (Outcome<VType>, Seq<crate::report::Diagnostic<VType>>) = match f.value.return_ty {
        Some(rt) => ty_spec(rt, env1),
        None => (Outcome::Done(VType::Nil), Seq::empty()),
    };
    let params = f.value.params.value@;
    lemma_ty_list_below(param_tys(params), 0, params.len() as int, env1);
    match (rr.0, ty_list_spec(param_tys(params), 0, params.len() as int, env1).0) {
        (Outcome::Done(ret), Outcome::Done(pts)) => {
            crate::laws::lemma_ty_list_len(param_tys(params), 0, params.len() as int, env1);
            let all = pts.push(ret);
            assert(types_below(all, tv, un));
            let fty = VType::Poly(vs, Box::new(VType::App(VTyCon::Arrow, all)));
            assert(type_below(VType::App(VTyCon::Arrow, all), tv, un));
            assert(vars_below(vs, tv));
            assert(type_below(fty, tv, un));
            lemma_add_var_below(env1, name, fty);
            let env2 = add_var(env1, name, fty);
            let env3 = bind_params(begin_scope(env2), params, all);
            let b3 = env3.vars.bindings;
            assert forall|k: int| 0 <= k < b3.len() implies type_below(#[trigger] b3[k].1, tv, un) by {
                if k < env2.vars.bindings.len() {
                    assert(b3[k] == env2.vars.bindings[k]);
                } else {
                    assert(b3[k].1 == all[k - env2.vars.bindings.len()]);
                }
            }
            assert forall|k: int| 0 <= k < env3.types.bindings.len() implies entry_below(
                #[trigger] env3.types.bindings[k].1,
                tv,
                un,
            ) by {
                assert(env3.types.bindings[k] == env2.types.bindings[k]);
            }
            assert(names_handed_out(env3));
            law_stmt_below(f.value.body, env3);
            let after = stmt_spec(f.value.body, env3).1;
            let fin = end_scope(after);
            assert forall|k: int| 0 <= k < fin.types.bindings.len() implies entry_below(
                #[trigger] fin.types.bindings[k].1,
                fin.next_tyvar,
                fin.next_unique,
            ) by {
                assert(fin.types.bindings[k] == after.types.bindings[k]);
            }
            assert forall|k: int| 0 <= k < fin.vars.bindings.len() implies type_below(
                #[trigger] fin.vars.bindings[k].1,
                fin.next_tyvar,
                fin.next_unique,
            ) by {
                assert(fin.vars.bindings[k] == after.vars.bindings[k]);
            }
        },
        _ => {},
    }
}

} // verus!
