//! The checker never gets stuck on programs whose type namespace holds no
//! type constructor: in an environment built by declaring structs,
//! functions and aliases without type parameters, every judgement has an
//! outcome, and the environment stays that way.
use vstd::prelude::*;
use crate::env::{add_type, add_var, begin_scope, end_scope, look_type, look_var, lookup, EnvV, VEntry};
use crate::infer::{lookup_tv, subst_fields, subst_tycon, subst_type, subst_types, zip_subst};
use crate::syntax::{
    Span, Call, Expression, Function, Spanned, Statement, Struct, StructLit, StructLitField, Ty, TyAlias, Var,
};
use crate::types::{Symbol, TypeVar, Unique, VTyCon, VType};
use crate::typing::{
    alias_spec, bind_params, bind_type_params, block_spec, call_spec, cond_spec, expr_list_spec, expr_spec,
    field_decl_tys, field_exprs_spec, field_type, fresh_vars, function_spec, incr_spec, inst_args_spec,
    arg_spans, lit_fields_spec, min, unify_ok, unify_pairs, name_fields, param_tys, stmt_spec, struct_lit_spec, struct_spec, ty_list_spec, ty_spec,
    var_spec, Outcome,
};

verus! {

/// Every polymorphic part of the type is a function type that has a
/// return type.
pub open spec fn type_ok(t: VType) -> bool
    decreases t, 0nat,
{
    match t {
        VType::App(c, ts) => tycon_ok(c) && forall|k: int| 0 <= k < ts.len() ==> type_ok(#[trigger] ts[k]),
        VType::Struct(_, fs, _) => forall|k: int| 0 <= k < fs.len() ==> type_ok(#[trigger] fs[k].1),
        VType::Poly(_, b) => (*b matches VType::App(VTyCon::Arrow, ts) && ts.len() > 0) && type_ok(*b),
        _ => true,
    }
}

pub open spec fn tycon_ok(c: VTyCon) -> bool
    decreases c, 0nat,
{
    match c {
        VTyCon::Fun(_, b) => type_ok(*b),
        _ => true,
    }
}

pub open spec fn fields_ok(fs: Seq<(Symbol, VType)>) -> bool {
    forall|k: int| 0 <= k < fs.len() ==> type_ok(#[trigger] fs[k].1)
}

pub open spec fn types_ok(ts: Seq<VType>) -> bool {
    forall|k: int| 0 <= k < ts.len() ==> type_ok(#[trigger] ts[k])
}

/// A type binding is a struct declaration, or a type that is not
/// polymorphic; it is never a type constructor.
pub open spec fn entry_ok(e: VEntry) -> bool {
    match e {
        VEntry::Ty(VType::Poly(_, inner)) => match *inner {
            VType::Struct(_, fs, _) => fields_ok(fs),
            _ => false,
        },
        VEntry::Ty(t) => type_ok(t),
        VEntry::TyCon(_) => false,
    }
}

/// The environment has no type constructor and nothing ill formed in it.
pub open spec fn env_ok(env: EnvV) -> bool {
    &&& forall|k: int| 0 <= k < env.types.bindings.len() ==> entry_ok(#[trigger] env.types.bindings[k].1)
    &&& forall|k: int| 0 <= k < env.vars.bindings.len() ==> type_ok(#[trigger] env.vars.bindings[k].1)
}

// ---------------------------------------------------------------- lookups

pub(crate) proof fn lemma_lookup_member<V>(bs: Seq<(Symbol, V)>, s: Symbol)
    ensures
        lookup(bs, s) matches Some(v) ==> exists|k: int| 0 <= k < bs.len() && bs[k].1 == v,
    decreases bs.len(),
{
    if bs.len() > 0 {
        if bs.last().0 == s {
            assert(bs[bs.len() - 1].1 == bs.last().1);
        } else {
            lemma_lookup_member(bs.drop_last(), s);
            if lookup(bs.drop_last(), s) is Some {
                let k = choose|k: int| 0 <= k < bs.drop_last().len() && bs.drop_last()[k].1 == lookup(bs.drop_last(), s)->Some_0;
                assert(bs[k] == bs.drop_last()[k]);
            }
        }
    }
}

proof fn lemma_look_ok(env: EnvV, s: Symbol)
    requires
        env_ok(env),
    ensures
        look_var(env, s) matches Some(t) ==> type_ok(t),
        look_type(env, s) matches Some(e) ==> entry_ok(e),
{
    lemma_lookup_member(env.vars.bindings, s);
    lemma_lookup_member(env.types.bindings, s);
}

pub(crate) proof fn lemma_lookup_tv_member(m: Seq<(TypeVar, VType)>, v: TypeVar)
    ensures
        lookup_tv(m, v) matches Some(t) ==> exists|k: int| 0 <= k < m.len() && m[k].1 == t,
    decreases m.len(),
{
    if m.len() > 0 {
        if m.last().0 == v {
            assert(m[m.len() - 1].1 == m.last().1);
        } else {
            lemma_lookup_tv_member(m.drop_last(), v);
            if lookup_tv(m.drop_last(), v) is Some {
                let k = choose|k: int| 0 <= k < m.drop_last().len() && m.drop_last()[k].1 == lookup_tv(m.drop_last(), v)->Some_0;
                assert(m[k] == m.drop_last()[k]);
            }
        }
    }
}

pub open spec fn subst_ok(m: Seq<(TypeVar, VType)>) -> bool {
    forall|k: int| 0 <= k < m.len() ==> type_ok(#[trigger] m[k].1)
}

proof fn lemma_zip_ok(vs: Seq<TypeVar>, ts: Seq<VType>)
    requires
        types_ok(ts),
    ensures
        subst_ok(zip_subst(vs, ts)),
{
    assert forall|k: int| 0 <= k < zip_subst(vs, ts).len() implies type_ok(#[trigger] zip_subst(vs, ts)[k].1) by {
        assert(zip_subst(vs, ts)[k].1 == ts[k]);
    }
}

/// Substituting well-formed types keeps a type well formed.
proof fn lemma_subst_ok(t: VType, m: Seq<(TypeVar, VType)>)
    requires
        type_ok(t),
        subst_ok(m),
    ensures
        type_ok(subst_type(t, m)),
    decreases t, 0nat,
{
    reveal_with_fuel(type_ok, 3);
    reveal_with_fuel(tycon_ok, 3);
    match t {
        VType::App(c, ts) => {
            match c {
                VTyCon::Fun(_, b) => lemma_subst_ok(*b, m),
                _ => {},
            }
            let r = subst_type(t, m)->App_1;
            assert forall|k: int| 0 <= k < r.len() implies type_ok(#[trigger] r[k]) by {
                lemma_subst_ok(ts[k], m);
            }
            assert(tycon_ok(subst_tycon(c, m)));
        },
        VType::Struct(_, fs, _) => {
            let r = subst_type(t, m)->Struct_1;
            assert forall|k: int| 0 <= k < r.len() implies type_ok(#[trigger] r[k].1) by {
                lemma_subst_ok(fs[k].1, m);
            }
        },
        VType::Var(v) => {
            lemma_lookup_tv_member(m, v);
        },
        VType::Poly(_, b) => {
            lemma_subst_ok(*b, m);
            match *b {
                VType::App(c, ts) => {
                    assert(subst_tycon(c, m) == c);
                    assert(subst_type(*b, m)->App_1.len() == ts.len());
                },
                _ => {},
            }
        },
        VType::Nil => {},
    }
}

proof fn lemma_subst_fields_ok(fs: Seq<(Symbol, VType)>, m: Seq<(TypeVar, VType)>)
    requires
        fields_ok(fs),
        subst_ok(m),
    ensures
        fields_ok(subst_fields(fs, m)),
{
    assert forall|k: int| 0 <= k < subst_fields(fs, m).len() implies type_ok(#[trigger] subst_fields(fs, m)[k].1) by {
        lemma_subst_ok(fs[k].1, m);
    }
}

// ---------------------------------------------------------------- types

/// In such an environment a written type always has an outcome, and the
/// type it stands for is well formed and not polymorphic.
pub proof fn law_ty_progress(t: Spanned<Ty>, env: EnvV)
    requires
        env_ok(env),
    ensures
        ty_spec(t, env).0 !is Stuck,
        ty_spec(t, env).0 matches Outcome::Done(x) ==> type_ok(x) && x !is Poly,
    decreases t, 0nat,
{
    reveal_with_fuel(type_ok, 3);
    reveal_with_fuel(tycon_ok, 3);
    match t.value {
        Ty::Simple(id) => lemma_look_ok(env, id.value),
        Ty::Poly(id, args) => {
            lemma_look_ok(env, id.value);
            match look_type(env, id.value) {
                Some(VEntry::Ty(VType::Poly(tvs, inner))) => {
                    let n = min(tvs.len() as int, args@.len() as int);
                    lemma_ty_list_progress(args@, 0, n, env);
                    match (*inner, ty_list_spec(args@, 0, n, env).0) {
                        (VType::Struct(_, fields, _), Outcome::Done(ts)) => {
                            lemma_zip_ok(tvs, ts);
                            lemma_subst_fields_ok(fields, zip_subst(tvs, ts));
                        },
                        _ => {},
                    }
                },
                _ => {},
            }
        },
        Ty::Func(ps, r) => {
            lemma_ty_list_progress(ps@, 0, ps@.len() as int, env);
            match r {
                Some(x) => law_ty_progress(*x, env),
                None => {},
            }
            match ty_list_spec(ps@, 0, ps@.len() as int, env).0 {
                Outcome::Done(pts) => {
                    match r {
                        Some(x) => match ty_spec(*x, env).0 {
                            Outcome::Done(rt) => {
                                assert(types_ok(pts.push(rt)));
                            },
                            _ => {},
                        },
                        None => {
                            assert(types_ok(pts.push(VType::Nil)));
                        },
                    }
                },
                _ => {},
            }
        },
        _ => {},
    }
}

proof fn lemma_ty_list_progress(ts: Seq<Spanned<Ty>>, i: int, n: int, env: EnvV)
    requires
        env_ok(env),
    ensures
        ty_list_spec(ts, i, n, env).0 !is Stuck,
        ty_list_spec(ts, i, n, env).0 matches Outcome::Done(r) ==> types_ok(r),
    decreases ts, n - i,
{
    if 0 <= i < n && i < ts.len() {
        law_ty_progress(ts[i], env);
        lemma_ty_list_progress(ts, i + 1, n, env);
        match (ty_spec(ts[i], env).0, ty_list_spec(ts, i + 1, n, env).0) {
            (Outcome::Done(t), Outcome::Done(rest)) => {
                assert(types_ok(seq![t] + rest));
            },
            _ => {},
        }
    }
}

// ---------------------------------------------------------------- expressions

/// In such an environment an expression always has an outcome, and its
/// type is well formed.
pub proof fn law_expr_progress(e: Spanned<Expression>, env: EnvV)
    requires
        env_ok(env),
    ensures
        expr_spec(e, env).0 !is Stuck,
        expr_spec(e, env).0 matches Outcome::Done(t) ==> type_ok(t),
    decreases e, 0nat,
{
    reveal_with_fuel(type_ok, 3);
    reveal_with_fuel(tycon_ok, 3);
    match e.value {
        Expression::Assign { name, value } => {
            lemma_var_progress(name, env);
            law_expr_progress(*value, env);
        },
        Expression::Binary { lhs, op, rhs } => {
            law_expr_progress(*lhs, env);
            law_expr_progress(*rhs, env);
        },
        Expression::Cast { from, to } => {
            law_expr_progress(*from, env);
            law_ty_progress(to, env);
        },
        Expression::Call(c) => lemma_call_progress(c, env),
        Expression::Grouping { expr } => law_expr_progress(*expr, env),
        Expression::StructLit(sl) => lemma_struct_lit_progress(sl, env),
        Expression::Unary { op, expr } => law_expr_progress(*expr, env),
        Expression::Var(v) => lemma_var_progress(v, env),
        Expression::Literal(_) => {},
    }
}

proof fn lemma_expr_list_progress(es: Seq<Spanned<Expression>>, i: int, n: int, env: EnvV)
    requires
        env_ok(env),
    ensures
        expr_list_spec(es, i, n, env).0 !is Stuck,
        expr_list_spec(es, i, n, env).0 matches Outcome::Done(r) ==> types_ok(r),
    decreases es, n - i,
{
    if 0 <= i < n && i < es.len() {
        law_expr_progress(es[i], env);
        lemma_expr_list_progress(es, i + 1, n, env);
        match (expr_spec(es[i], env).0, expr_list_spec(es, i + 1, n, env).0) {
            (Outcome::Done(t), Outcome::Done(rest)) => {
                assert(types_ok(seq![t] + rest));
            },
            _ => {},
        }
    }
}

proof fn lemma_field_exprs_progress(fs: Seq<Spanned<StructLitField>>, i: int, n: int, env: EnvV)
    requires
        env_ok(env),
    ensures
        field_exprs_spec(fs, i, n, env).0 !is Stuck,
        field_exprs_spec(fs, i, n, env).0 matches Outcome::Done(r) ==> types_ok(r),
    decreases fs, n - i,
{
    if 0 <= i < n && i < fs.len() {
        law_expr_progress(fs[i].value.expr, env);
        lemma_field_exprs_progress(fs, i + 1, n, env);
        match (expr_spec(fs[i].value.expr, env).0, field_exprs_spec(fs, i + 1, n, env).0) {
            (Outcome::Done(t), Outcome::Done(rest)) => {
                assert(types_ok(seq![t] + rest));
            },
            _ => {},
        }
    }
}

proof fn lemma_inst_args_progress(
    fts: Seq<VType>,
    args: Seq<Spanned<Expression>>,
    m: Seq<(TypeVar, VType)>,
    i: int,
    env: EnvV,
)
    requires
        env_ok(env),
    ensures
        inst_args_spec(fts, args, m, i, env).0 !is Stuck,
    decreases args, args.len() - i,
{
    if 0 <= i < args.len() && i < fts.len() {
        law_expr_progress(args[i], env);
        lemma_inst_args_progress(fts, args, m, i + 1, env);
    }
}

proof fn lemma_unify_pairs_progress(xs: Seq<VType>, ys: Seq<VType>, spans: Seq<Span>, i: int)
    ensures
        unify_pairs(xs, ys, spans, i).0 !is Stuck,
    decreases xs.len() - i,
{
    if 0 <= i < xs.len() && i < ys.len() && i < spans.len() && unify_ok(xs[i], ys[i]) {
        lemma_unify_pairs_progress(xs, ys, spans, i + 1);
    }
}

proof fn lemma_call_progress(c: Spanned<Call>, env: EnvV)
    requires
        env_ok(env),
    ensures
        call_spec(c, env).0 !is Stuck,
        call_spec(c, env).0 matches Outcome::Done(t) ==> type_ok(t),
    decreases c, 0nat,
{
    reveal_with_fuel(type_ok, 3);
    reveal_with_fuel(tycon_ok, 3);
    match c.value {
        Call::Simple { callee, args } => {
            lemma_look_ok(env, callee.value);
            match look_var(env, callee.value) {
                Some(VType::Poly(tvs, ret)) => {
                    let n = min(tvs.len() as int, args@.len() as int);
                    lemma_expr_list_progress(args@, 0, n, env);
                    assert(*ret matches VType::App(VTyCon::Arrow, fts) && fts.len() > 0);
                    match (*ret, expr_list_spec(args@, 0, n, env).0) {
                        (VType::App(VTyCon::Arrow, fts), Outcome::Done(ats)) => {
                            lemma_zip_ok(tvs, ats);
                            let m = zip_subst(tvs, ats);
                            lemma_unify_pairs_progress(subst_types(ats, m), subst_types(fts, m), arg_spans(args@), 0);
                            assert(type_ok(fts[fts.len() - 1]));
                            lemma_subst_ok(fts.last(), zip_subst(tvs, ats));
                        },
                        _ => {},
                    }
                },
                _ => {},
            }
        },
        Call::Instantiation { callee, tys, args } => {
            lemma_look_ok(env, callee.value);
            match look_var(env, callee.value) {
                Some(VType::Poly(tvs, ret)) => {
                    lemma_ty_list_progress(tys.value@, 0, tys.value@.len() as int, env);
                    assert(*ret matches VType::App(VTyCon::Arrow, fts) && fts.len() > 0);
                    match (*ret, ty_list_spec(tys.value@, 0, tys.value@.len() as int, env).0) {
                        (VType::App(VTyCon::Arrow, fts), Outcome::Done(targs)) => {
                            lemma_zip_ok(tvs, targs);
                            lemma_inst_args_progress(fts, args@, zip_subst(tvs, targs), 0, env);
                            assert(type_ok(fts[fts.len() - 1]));
                            lemma_subst_ok(fts.last(), zip_subst(tvs, targs));
                        },
                        _ => {},
                    }
                },
                _ => {},
            }
        },
    }
}

proof fn lemma_lit_fields_progress(
    decl: Seq<(Symbol, VType)>,
    fs: Seq<Spanned<StructLitField>>,
    m: Seq<(TypeVar, VType)>,
    owner: Symbol,
    flip: bool,
    i: int,
    found: bool,
    inst: Seq<(Symbol, VType)>,
    env: EnvV,
)
    requires
        env_ok(env),
        fields_ok(inst),
    ensures
        lit_fields_spec(decl, fs, m, owner, flip, i, found, inst, env).0 !is Stuck,
        lit_fields_spec(decl, fs, m, owner, flip, i, found, inst, env).0 matches Outcome::Done(p) ==> fields_ok(p.1),
    decreases fs, fs.len() - i,
{
    if 0 <= i < decl.len() && i < fs.len() {
        if decl[i].0 == fs[i].value.ident.value {
            law_expr_progress(fs[i].value.expr, env);
            match expr_spec(fs[i].value.expr, env).0 {
                Outcome::Done(t) => {
                    let inst2 = inst.push((fs[i].value.ident.value, t));
                    assert(fields_ok(inst2));
                    lemma_lit_fields_progress(decl, fs, m, owner, flip, i + 1, true, inst2, env);
                },
                _ => {},
            }
        } else {
            lemma_lit_fields_progress(decl, fs, m, owner, flip, i + 1, false, inst, env);
        }
    }
}

proof fn lemma_struct_lit_progress(sl: Spanned<StructLit>, env: EnvV)
    requires
        env_ok(env),
    ensures
        struct_lit_spec(sl, env).0 !is Stuck,
        struct_lit_spec(sl, env).0 matches Outcome::Done(t) ==> type_ok(t),
    decreases sl, 0nat,
{
    reveal_with_fuel(type_ok, 3);
    reveal_with_fuel(tycon_ok, 3);
    match sl.value {
        StructLit::Simple { ident, fields } => {
            lemma_look_ok(env, ident.value);
            match look_type(env, ident.value) {
                Some(VEntry::Ty(VType::Poly(tvs, inner))) => {
                    let n = min(tvs.len() as int, fields@.len() as int);
                    lemma_field_exprs_progress(fields@, 0, n, env);
                    match (*inner, field_exprs_spec(fields@, 0, n, env).0) {
                        (VType::Struct(_, decl, _), Outcome::Done(ets)) => {
                            lemma_lit_fields_progress(
                                decl,
                                fields@,
                                zip_subst(tvs, ets),
                                ident.value,
                                false,
                                0,
                                false,
                                seq![],
                                env,
                            );
                        },
                        _ => {},
                    }
                },
                _ => {},
            }
        },
        StructLit::Instantiation { ident, fields, tys } => {
            lemma_look_ok(env, ident.value);
            match look_type(env, ident.value) {
                Some(VEntry::Ty(VType::Poly(tvs, inner))) => {
                    lemma_ty_list_progress(tys.value@, 0, tys.value@.len() as int, env);
                    match (*inner, ty_list_spec(tys.value@, 0, tys.value@.len() as int, env).0) {
                        (VType::Struct(_, decl, _), Outcome::Done(targs)) => {
                            lemma_lit_fields_progress(
                                decl,
                                fields@,
                                zip_subst(tvs, targs),
                                ident.value,
                                true,
                                0,
                                false,
                                seq![],
                                env,
                            );
                        },
                        _ => {},
                    }
                },
                _ => {},
            }
        },
    }
}

proof fn lemma_field_type_ok(fs: Seq<(Symbol, VType)>, name: Symbol, i: int)
    requires
        fields_ok(fs),
    ensures
        field_type(fs, name, i) matches Some(t) ==> type_ok(t),
    decreases fs.len() - i,
{
    if 0 <= i < fs.len() && fs[i].0 != name {
        lemma_field_type_ok(fs, name, i + 1);
    }
}

proof fn lemma_var_progress(v: Spanned<Var>, env: EnvV)
    requires
        env_ok(env),
    ensures
        var_spec(v, env).0 !is Stuck,
        var_spec(v, env).0 matches Outcome::Done(t) ==> type_ok(t),
    decreases v, 0nat,
{
    reveal_with_fuel(type_ok, 3);
    reveal_with_fuel(tycon_ok, 3);
    match v.value {
        Var::Simple(id) => lemma_look_ok(env, id.value),
        Var::Field { ident, value } => {
            lemma_look_ok(env, ident.value);
            match look_var(env, ident.value) {
                Some(VType::Struct(_, fs, _)) => lemma_field_type_ok(fs, value.value, 0),
                _ => {},
            }
        },
        Var::SubScript { target, expr } => law_expr_progress(*expr, env),
    }
}

// ---------------------------------------------------------------- statements

proof fn lemma_add_var_ok(env: EnvV, s: Symbol, t: VType)
    requires
        env_ok(env),
        type_ok(t),
    ensures
        env_ok(add_var(env, s, t)),
{
    let b = add_var(env, s, t).vars.bindings;
    assert forall|k: int| 0 <= k < b.len() implies type_ok(#[trigger] b[k].1) by {
        if k < env.vars.bindings.len() {
            assert(b[k] == env.vars.bindings[k]);
        }
    }
}

proof fn lemma_add_type_ok(env: EnvV, s: Symbol, e: VEntry)
    requires
        env_ok(env),
        entry_ok(e),
    ensures
        env_ok(add_type(env, s, e)),
{
    let b = add_type(env, s, e).types.bindings;
    assert forall|k: int| 0 <= k < b.len() implies entry_ok(#[trigger] b[k].1) by {
        if k < env.types.bindings.len() {
            assert(b[k] == env.types.bindings[k]);
        }
    }
}

/// In such an environment a statement always has an outcome, yields a
/// well-formed type, and leaves the environment well formed.
pub proof fn law_stmt_progress(s: Spanned<Statement>, env: EnvV)
    requires
        env_ok(env),
    ensures
        stmt_spec(s, env).0 !is Stuck,
        stmt_spec(s, env).0 matches Outcome::Done(t) ==> type_ok(t),
        env_ok(stmt_spec(s, env).1),
    decreases s, 1nat,
{
    match s.value {
        Statement::Block(ss) => lemma_block_progress(ss@, 0, VType::Nil, env),
        Statement::Expr(e) => law_expr_progress(e, env),
        Statement::For { .. } => lemma_for_progress(s, env),
        Statement::If { cond, then, otherwise } => {
            law_expr_progress(cond, env);
            law_stmt_progress(*then, env);
            match otherwise {
                Some(o) => law_stmt_progress(*o, stmt_spec(*then, env).1),
                None => {},
            }
        },
        Statement::Let { .. } => lemma_let_progress(s, env),
        Statement::Return(e) => law_expr_progress(e, env),
        Statement::While { cond, body } => {
            law_expr_progress(cond, env);
            law_stmt_progress(*body, env);
        },
        _ => {},
    }
}

#[verifier::rlimit(40)]
proof fn lemma_for_progress(s: Spanned<Statement>, env: EnvV)
    requires
        env_ok(env),
        s.value is For,
    ensures
        stmt_spec(s, env).0 !is Stuck,
        stmt_spec(s, env).0 matches Outcome::Done(t) ==> type_ok(t),
        env_ok(stmt_spec(s, env).1),
    decreases s, 0nat,
{
    match s.value {
        Statement::For { init, cond, incr, body } => {
            if init is None && cond is None && incr is None {
                law_stmt_progress(*body, env);
            } else {
                let env1 = match init {
                    Some(st) => {
                        law_stmt_progress(*st, env);
                        stmt_spec(*st, env).1
                    },
                    None => env,
                };
                match incr {
                    Some(x) => law_expr_progress(x, env1),
                    None => {},
                }
                match cond {
                    Some(c) => law_expr_progress(c, env1),
                    None => {},
                }
                assert(incr_spec(incr, env1).0 !is Stuck);
                assert(cond_spec(cond, env1).0 !is Stuck);
                law_stmt_progress(*body, env1);
            }
        },
        _ => {},
    }
}

proof fn lemma_let_progress(s: Spanned<Statement>, env: EnvV)
    requires
        env_ok(env),
        s.value is Let,
    ensures
        stmt_spec(s, env).0 !is Stuck,
        stmt_spec(s, env).0 matches Outcome::Done(t) ==> type_ok(t),
        env_ok(stmt_spec(s, env).1),
{
    reveal_with_fuel(type_ok, 2);
    match s.value {
        Statement::Let { ident, ty, expr } => {
            match expr {
                Some(x) => {
                    law_expr_progress(x, env);
                    match ty {
                        Some(ta) => law_ty_progress(ta, env),
                        None => match expr_spec(x, env).0 {
                            Outcome::Done(et) => lemma_add_var_ok(env, ident.value, et),
                            _ => {},
                        },
                    }
                },
                None => match ty {
                    Some(ta) => {
                        law_ty_progress(ta, env);
                        match ty_spec(ta, env).0 {
                            Outcome::Done(t) => lemma_add_var_ok(env, ident.value, t),
                            _ => {},
                        }
                    },
                    None => lemma_add_var_ok(env, ident.value, VType::Nil),
                },
            }
        },
        _ => {},
    }
}

proof fn lemma_block_progress(ss: Seq<Spanned<Statement>>, i: int, last: VType, env: EnvV)
    requires
        env_ok(env),
        type_ok(last),
    ensures
        block_spec(ss, i, last, env).0 !is Stuck,
        block_spec(ss, i, last, env).0 matches Outcome::Done(t) ==> type_ok(t),
        env_ok(block_spec(ss, i, last, env).1),
    decreases ss, ss.len() - i,
{
    if 0 <= i < ss.len() {
        law_stmt_progress(ss[i], env);
        match stmt_spec(ss[i], env).0 {
            Outcome::Done(t) => lemma_block_progress(ss, i + 1, t, stmt_spec(ss[i], env).1),
            _ => {},
        }
    }
}

// ---------------------------------------------------------------- declarations

/// The empty environment is well formed.
pub proof fn law_empty_env_ok(env: EnvV)
    requires
        env.types.bindings.len() == 0,
        env.vars.bindings.len() == 0,
    ensures
        env_ok(env),
{
}

proof fn lemma_bind_type_params_ok(env: EnvV, ps: Seq<Spanned<Symbol>>)
    requires
        env_ok(env),
    ensures
        env_ok(bind_type_params(env, ps)),
{
    let b = bind_type_params(env, ps).types.bindings;
    assert forall|k: int| 0 <= k < b.len() implies entry_ok(#[trigger] b[k].1) by {
        if k < env.types.bindings.len() {
            assert(b[k] == env.types.bindings[k]);
        }
    }
}

/// Declaring a struct always has an outcome and keeps the environment
/// well formed.
pub proof fn law_struct_progress(sd: Spanned<Struct>, env: EnvV)
    requires
        env_ok(env),
    ensures
        struct_spec(sd, env).0 !is Stuck,
        env_ok(struct_spec(sd, env).1),
{
    let ps = sd.value.name.value.type_params@;
    let name = sd.value.name.value.name.value;
    let env1 = bind_type_params(env, ps);
    lemma_bind_type_params_ok(env, ps);
    let env2 = EnvV { next_unique: (env1.next_unique + 1) as u32, ..env1 };
    let u = Unique(env1.next_unique);
    let vs = fresh_vars(env.next_tyvar, ps.len());
    let skeleton = VEntry::Ty(VType::Poly(vs, Box::new(VType::Struct(name, seq![], u))));
    lemma_add_type_ok(env2, name, skeleton);
    let env3 = add_type(env2, name, skeleton);
    let fs = sd.value.fields.value@;
    lemma_ty_list_progress(field_decl_tys(fs), 0, fs.len() as int, env3);
    match ty_list_spec(field_decl_tys(fs), 0, fs.len() as int, env3).0 {
        Outcome::Done(ts) => {
            crate::laws::lemma_ty_list_len(field_decl_tys(fs), 0, fs.len() as int, env3);
            assert(fields_ok(name_fields(fs, ts)));
            lemma_add_type_ok(env3, name, VEntry::Ty(VType::Poly(vs, Box::new(VType::Struct(name, name_fields(fs, ts), u)))));
        },
        _ => {},
    }
}

/// Declaring a type alias always has an outcome; one without type
/// parameters keeps the environment well formed.
pub proof fn law_alias_progress(a: Spanned<TyAlias>, env: EnvV)
    requires
        env_ok(env),
    ensures
        alias_spec(a, env).0 !is Stuck,
        a.value.ident.value.type_params@.len() == 0 ==> env_ok(alias_spec(a, env).1),
{
    let ps = a.value.ident.value.type_params@;
    if ps.len() == 0 {
        law_ty_progress(a.value.ty, env);
        match ty_spec(a.value.ty, env).0 {
            Outcome::Done(t) => lemma_add_type_ok(env, a.value.ident.value.name.value, VEntry::Ty(t)),
            _ => {},
        }
    } else {
        lemma_bind_type_params_ok(env, ps);
        law_ty_progress(a.value.ty, bind_type_params(env, ps));
    }
}

/// Declaring a function always has an outcome and keeps the environment
/// well formed.
pub proof fn law_function_progress(f: Spanned<Function>, env: EnvV)
    requires
        env_ok(env),
    ensures
        function_spec(f, env).0 !is Stuck,
        env_ok(function_spec(f, env).1),
{
    reveal_with_fuel(type_ok, 3);
    reveal_with_fuel(tycon_ok, 3);
    let ps = f.value.name.value.type_params@;
    let name = f.value.name.value.name.value;
    let vs = fresh_vars(env.next_tyvar, ps.len());
    let env1 = bind_type_params(env, ps);
    lemma_bind_type_params_ok(env, ps);
    match f.value.return_ty {
        Some(rt) => law_ty_progress(rt, env1),
        None => {},
    }
    let rr: (Outcome<VType>, Seq<crate::report::Diagnostic<VType>>) = match f.value.return_ty {
        Some(rt) => ty_spec(rt, env1),
        None => (Outcome::Done(VType::Nil), Seq::empty()),
    };
    let params = f.value.params.value@;
    lemma_ty_list_progress(param_tys(params), 0, params.len() as int, env1);
    match (rr.0, ty_list_spec(param_tys(params), 0, params.len() as int, env1).0) {
        (Outcome::Done(ret), Outcome::Done(pts)) => {
            crate::laws::lemma_ty_list_len(param_tys(params), 0, params.len() as int, env1);
            let all = pts.push(ret);
            assert(types_ok(all));
            let fty = VType::Poly(vs, Box::new(VType::App(VTyCon::Arrow, all)));
            assert(type_ok(VType::App(VTyCon::Arrow, all)));
            assert(type_ok(fty));
            lemma_add_var_ok(env1, name, fty);
            let env2 = add_var(env1, name, fty);
            let env3 = bind_params(begin_scope(env2), params, all);
            assert(env_ok(begin_scope(env2)));
            let b3 = env3.vars.bindings;
            assert forall|k: int| 0 <= k < b3.len() implies type_ok(#[trigger] b3[k].1) by {
                if k < env2.vars.bindings.len() {
                    assert(b3[k] == env2.vars.bindings[k]);
                } else {
                    assert(b3[k].1 == all[k - env2.vars.bindings.len()]);
                }
            }
            assert(env_ok(env3));
            law_stmt_progress(f.value.body, env3);
            let after = stmt_spec(f.value.body, env3).1;
            let fin = end_scope(after);
            assert forall|k: int| 0 <= k < fin.types.bindings.len() implies entry_ok(#[trigger] fin.types.bindings[k].1) by {
                assert(fin.types.bindings[k] == after.types.bindings[k]);
            }
            assert forall|k: int| 0 <= k < fin.vars.bindings.len() implies type_ok(#[trigger] fin.vars.bindings[k].1) by {
                assert(fin.vars.bindings[k] == after.vars.bindings[k]);
            }
        },
        _ => {},
    }
}

} // verus!
