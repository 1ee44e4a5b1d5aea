//! The typing judgement that the checker implements, as spec functions.
//!
//! Each judgement yields an `Outcome`, the environment after it (for
//! declarations and statements) and the diagnostics it reports, in order.
//! `Stuck` marks the inputs on which the checker cannot go on.
use vstd::prelude::*;
use crate::cast_check::castable;
use crate::env::{add_type, add_var, begin_scope, end_scope, look_type, look_var, EnvV, TableV, VEntry};
use crate::infer::{mismatch, subst_fields, subst_type, subst_types, unify_diags, zip_subst};
use crate::report::{one, Diagnostic, ErrorKind};
use crate::syntax::{Call, Expression, Function, FunctionParam, Literal, Op, Span, Spanned, Statement, Struct, StructField, StructLit, StructLitField, Ty, TyAlias, UnaryOp, Var};
use crate::types::{is_int_type, Sign, Size, Symbol, TypeVar, Unique, VTyCon, VType};

verus! {

pub enum Outcome<T> {
    Done(T),
    /// An error, reported in the diagnostics.
    Error,
    /// The checker cannot go on.
    Stuck,
}

pub type Diags = Seq<Diagnostic<VType>>;

/// Carries a failed outcome over to another result type.
pub open spec fn fail<A, B>(o: Outcome<A>) -> Outcome<B> {
    match o {
        Outcome::Error => Outcome::Error,
        _ => Outcome::Stuck,
    }
}

pub open spec fn min(a: int, b: int) -> int {
    if a <= b { a } else { b }
}

pub open spec fn bool_type() -> VType {
    VType::App(VTyCon::Bool, seq![])
}

pub open spec fn string_type() -> VType {
    VType::App(VTyCon::String, seq![])
}

pub open spec fn int_type(s: Sign, z: Size) -> VType {
    VType::App(VTyCon::Int(s, z), seq![])
}

pub open spec fn empty() -> Diags {
    Seq::empty()
}

/// Whether unifying `a` with `b` succeeds; what it reports is `unify_diags`.
pub open spec fn unify_ok(a: VType, b: VType) -> bool {
    mismatch(a, b) is None
}

// ---------------------------------------------------------------- types

/// The type that a written type stands for.
pub open spec fn ty_spec(t: Spanned<Ty>, env: EnvV) -> (Outcome<VType>, Diags)
    decreases t, 0nat,
{
    match t.value {
        Ty::Bool => (Outcome::Done(bool_type()), empty()),
        Ty::Str => (Outcome::Done(string_type()), empty()),
        Ty::Nil => (Outcome::Done(VType::App(VTyCon::Void, seq![])), empty()),
        Ty::U8 => (Outcome::Done(int_type(Sign::Unsigned, Size::Bit8)), empty()),
        Ty::I8 => (Outcome::Done(int_type(Sign::Signed, Size::Bit8)), empty()),
        Ty::U32 => (Outcome::Done(int_type(Sign::Unsigned, Size::Bit32)), empty()),
        Ty::I32 => (Outcome::Done(int_type(Sign::Signed, Size::Bit32)), empty()),
        Ty::U64 => (Outcome::Done(int_type(Sign::Unsigned, Size::Bit64)), empty()),
        Ty::I64 => (Outcome::Done(int_type(Sign::Signed, Size::Bit64)), empty()),
        Ty::Simple(id) => match look_type(env, id.value) {
            Some(VEntry::Ty(VType::Poly(tvs, ret))) => {
                if tvs.len() != 0 {
                    (Outcome::Error, one(ErrorKind::PolyMissingArgs(id.value), id.span))
                } else {
                    (Outcome::Done(*ret), empty())
                }
            },
            Some(VEntry::Ty(ty)) => (Outcome::Done(ty), empty()),
            Some(VEntry::TyCon(_)) => (Outcome::Stuck, empty()),
            None => (Outcome::Error, one(ErrorKind::UndefinedType(id.value), id.span)),
        },
        Ty::Poly(id, args) => match look_type(env, id.value) {
            Some(VEntry::Ty(VType::Poly(tvs, inner))) => match *inner {
                VType::Struct(_, fields, u) => {
                    if tvs.len() == 0 {
                        (Outcome::Error, one(ErrorKind::NotPolymorphic(id.value), id.span))
                    } else {
                        let r = ty_list_spec(args@, 0, min(tvs.len() as int, args@.len() as int), env);
                        match r.0 {
                            Outcome::Done(ts) => (
                                Outcome::Done(VType::Struct(id.value, subst_fields(fields, zip_subst(tvs, ts)), u)),
                                r.1,
                            ),
                            o => (fail(o), r.1),
                        }
                    }
                },
                _ => (Outcome::Stuck, empty()),
            },
            None => (Outcome::Error, one(ErrorKind::UndefinedType(id.value), id.span)),
            Some(_) => (Outcome::Error, one(ErrorKind::NotPolymorphic(id.value), id.span)),
        },
        Ty::Func(params, ret) => {
            let r = ty_list_spec(params@, 0, params@.len() as int, env);
            match r.0 {
                Outcome::Done(ps) => match ret {
                    Some(rt) => {
                        let q = ty_spec(*rt, env);
                        match q.0 {
                            Outcome::Done(x) => (Outcome::Done(VType::App(VTyCon::Arrow, ps.push(x))), r.1 + q.1),
                            o => (o, r.1 + q.1),
                        }
                    },
                    None => (Outcome::Done(VType::App(VTyCon::Arrow, ps.push(VType::Nil))), r.1),
                },
                o => (fail(o), r.1),
            }
        },
    }
}

/// The types that `ts[i..n]` stand for, stopping at the first failure.
pub open spec fn ty_list_spec(ts: Seq<Spanned<Ty>>, i: int, n: int, env: EnvV) -> (Outcome<Seq<VType>>, Diags)
    decreases ts, n - i,
{
    if i < 0 || i >= n || i >= ts.len() {
        (Outcome::Done(seq![]), empty())
    } else {
        let h = ty_spec(ts[i], env);
        match h.0 {
            Outcome::Done(t) => {
                let r = ty_list_spec(ts, i + 1, n, env);
                match r.0 {
                    Outcome::Done(rest) => (Outcome::Done(seq![t] + rest), h.1 + r.1),
                    o => (o, h.1 + r.1),
                }
            },
            o => (fail(o), h.1),
        }
    }
}

// ---------------------------------------------------------------- expressions

pub open spec fn literal_type(l: Literal) -> VType {
    match l {
        Literal::Char(_) => int_type(Sign::Unsigned, Size::Bit8),
        Literal::True(_) => bool_type(),
        Literal::False(_) => bool_type(),
        Literal::Str(_) => string_type(),
        Literal::Number(n) => match n.ty {
            Some((s, z)) => int_type(s, z),
            None => int_type(Sign::Signed, Size::Bit32),
        },
        Literal::Nil => VType::App(VTyCon::Void, seq![]),
    }
}

/// The type of the first field named `name`, from position `i` on.
pub open spec fn field_type(fs: Seq<(Symbol, VType)>, name: Symbol, i: int) -> Option<VType>
    decreases fs.len() - i,
{
    if i < 0 || i >= fs.len() {
        None
    } else if fs[i].0 == name {
        Some(fs[i].1)
    } else {
        field_type(fs, name, i + 1)
    }
}

/// Unifies `xs[j]` with `ys[j]` at `spans[j]` for each `j` from `i` on,
/// stopping at the first failure.
pub open spec fn unify_pairs(xs: Seq<VType>, ys: Seq<VType>, spans: Seq<Span>, i: int) -> (Outcome<()>, Diags)
    decreases xs.len() - i,
{
    if i < 0 || i >= xs.len() || i >= ys.len() || i >= spans.len() {
        (Outcome::Done(()), empty())
    } else if unify_ok(xs[i], ys[i]) {
        unify_pairs(xs, ys, spans, i + 1)
    } else {
        (Outcome::Error, unify_diags(xs[i], ys[i], spans[i]))
    }
}

pub open spec fn arg_spans(args: Seq<Spanned<Expression>>) -> Seq<Span> {
    Seq::new(args.len(), |j: int| args[j].span)
}

/// The type of an expression.
pub open spec fn expr_spec(e: Spanned<Expression>, env: EnvV) -> (Outcome<VType>, Diags)
    decreases e, 0nat,
{
    match e.value {
        Expression::Assign { name, value } => {
            let a = var_spec(name, env);
            match a.0 {
                Outcome::Done(nt) => {
                    let b = expr_spec(*value, env);
                    match b.0 {
                        Outcome::Done(vt) => (
                            if unify_ok(nt, vt) { Outcome::Done(vt) } else { Outcome::Error },
                            a.1 + b.1 + unify_diags(nt, vt, e.span),
                        ),
                        o => (o, a.1 + b.1),
                    }
                },
                o => (o, a.1),
            }
        },
        Expression::Binary { lhs, op, rhs } => {
            let a = expr_spec(*lhs, env);
            match a.0 {
                Outcome::Done(lt) => {
                    let b = expr_spec(*rhs, env);
                    match b.0 {
                        Outcome::Done(rt) => match op.value {
                            Op::NEq | Op::Equal => (Outcome::Done(bool_type()), a.1 + b.1),
                            Op::LT | Op::LTE | Op::GT | Op::GTE | Op::And | Op::Or => (
                                if unify_ok(lt, rt) { Outcome::Done(bool_type()) } else { Outcome::Error },
                                a.1 + b.1 + unify_diags(lt, rt, e.span),
                            ),
                            _ => {
                                if unify_ok(lt, rt) {
                                    (Outcome::Done(lt), a.1 + b.1)
                                } else {
                                    (
                                        if unify_ok(lt, string_type()) { Outcome::Done(lt) } else { Outcome::Error },
                                        a.1 + b.1 + unify_diags(lt, rt, e.span) + unify_diags(lt, string_type(), e.span),
                                    )
                                }
                            },
                        },
                        o => (o, a.1 + b.1),
                    }
                },
                o => (o, a.1),
            }
        },
        Expression::Cast { from, to } => {
            let a = expr_spec(*from, env);
            match a.0 {
                Outcome::Done(ft) => {
                    let b = ty_spec(to, env);
                    match b.0 {
                        Outcome::Done(tt) => {
                            if castable(ft, tt) {
                                (Outcome::Done(tt), a.1 + b.1)
                            } else {
                                (Outcome::Error, a.1 + b.1 + one(ErrorKind::CannotCast(ft, tt), e.span))
                            }
                        },
                        o => (o, a.1 + b.1),
                    }
                },
                o => (o, a.1),
            }
        },
        Expression::Call(c) => call_spec(c, env),
        Expression::Grouping { expr } => expr_spec(*expr, env),
        Expression::Literal(l) => (Outcome::Done(literal_type(l)), empty()),
        Expression::StructLit(sl) => struct_lit_spec(sl, env),
        Expression::Unary { op, expr } => {
            let a = expr_spec(*expr, env);
            match a.0 {
                Outcome::Done(t) => match op.value {
                    UnaryOp::Bang => (Outcome::Done(bool_type()), a.1),
                    UnaryOp::Minus => {
                        if is_int_type(t) {
                            (Outcome::Done(t), a.1)
                        } else {
                            (Outcome::Error, a.1 + one(ErrorKind::NegateNonInt(t), expr.span))
                        }
                    },
                },
                o => (o, a.1),
            }
        },
        Expression::Var(v) => var_spec(v, env),
    }
}

/// The types of `es[i..n]`, stopping at the first failure.
pub open spec fn expr_list_spec(es: Seq<Spanned<Expression>>, i: int, n: int, env: EnvV) -> (Outcome<Seq<VType>>, Diags)
    decreases es, n - i,
{
    if i < 0 || i >= n || i >= es.len() {
        (Outcome::Done(seq![]), empty())
    } else {
        let h = expr_spec(es[i], env);
        match h.0 {
            Outcome::Done(t) => {
                let r = expr_list_spec(es, i + 1, n, env);
                match r.0 {
                    Outcome::Done(rest) => (Outcome::Done(seq![t] + rest), h.1 + r.1),
                    o => (o, h.1 + r.1),
                }
            },
            o => (fail(o), h.1),
        }
    }
}

/// The types of the expressions of `fs[i..n]`, stopping at the first failure.
pub open spec fn field_exprs_spec(fs: Seq<Spanned<StructLitField>>, i: int, n: int, env: EnvV) -> (Outcome<Seq<VType>>, Diags)
    decreases fs, n - i,
{
    if i < 0 || i >= n || i >= fs.len() {
        (Outcome::Done(seq![]), empty())
    } else {
        let h = expr_spec(fs[i].value.expr, env);
        match h.0 {
            Outcome::Done(t) => {
                let r = field_exprs_spec(fs, i + 1, n, env);
                match r.0 {
                    Outcome::Done(rest) => (Outcome::Done(seq![t] + rest), h.1 + r.1),
                    o => (o, h.1 + r.1),
                }
            },
            o => (fail(o), h.1),
        }
    }
}

/// Checks the arguments of an explicit instantiation from position `i`
/// on, each against the parameter type at its position.
pub open spec fn inst_args_spec(
    fts: Seq<VType>,
    args: Seq<Spanned<Expression>>,
    m: Seq<(TypeVar, VType)>,
    i: int,
    env: EnvV,
) -> (Outcome<()>, Diags)
    decreases args, args.len() - i,
{
    if i < 0 || i >= args.len() || i >= fts.len() {
        (Outcome::Done(()), empty())
    } else {
        let a = expr_spec(args[i], env);
        match a.0 {
            Outcome::Done(at) => {
                let x = subst_type(at, m);
                let y = subst_type(fts[i], m);
                if unify_ok(x, y) {
                    let r = inst_args_spec(fts, args, m, i + 1, env);
                    (r.0, a.1 + r.1)
                } else {
                    (Outcome::Error, a.1 + unify_diags(x, y, args[i].span))
                }
            },
            o => (fail(o), a.1),
        }
    }
}

/// The type of a call.
pub open spec fn call_spec(c: Spanned<Call>, env: EnvV) -> (Outcome<VType>, Diags)
    decreases c, 0nat,
{
    match c.value {
        Call::Simple { callee, args } => match look_var(env, callee.value) {
            None => (Outcome::Error, one(ErrorKind::UndefinedFunction(callee.value), callee.span)),
            Some(VType::Poly(tvs, ret)) => match *ret {
                VType::App(VTyCon::Arrow, fts) => {
                    if fts.len() == 0 {
                        (Outcome::Stuck, empty())
                    } else if fts.len() - 1 != args@.len() {
                        (
                            Outcome::Error,
                            one(
                                ErrorKind::ArgCount { expected: (fts.len() - 1) as usize, found: args@.len() as usize },
                                c.span,
                            ),
                        )
                    } else {
                        let n = min(tvs.len() as int, args@.len() as int);
                        let a = expr_list_spec(args@, 0, n, env);
                        match a.0 {
                            Outcome::Done(ats) => {
                                let m = zip_subst(tvs, ats);
                                let u = unify_pairs(subst_types(ats, m), subst_types(fts, m), arg_spans(args@), 0);
                                match u.0 {
                                    Outcome::Done(_) => (Outcome::Done(subst_type(fts.last(), m)), a.1 + u.1),
                                    o => (fail(o), a.1 + u.1),
                                }
                            },
                            o => (fail(o), a.1),
                        }
                    }
                },
                _ => (Outcome::Stuck, empty()),
            },
            Some(_) => (Outcome::Error, one(ErrorKind::NotCallable(callee.value), callee.span)),
        },
        Call::Instantiation { callee, tys, args } => match look_var(env, callee.value) {
            None => (Outcome::Error, one(ErrorKind::UndefinedFunction(callee.value), callee.span)),
            Some(VType::Poly(tvs, ret)) => {
                if tvs.len() != tys.value@.len() {
                    (
                        Outcome::Error,
                        one(
                            ErrorKind::TypeParamCount { found: tys.value@.len() as usize, expected: tvs.len() as usize },
                            tys.span,
                        ),
                    )
                } else {
                    let t = ty_list_spec(tys.value@, 0, tys.value@.len() as int, env);
                    match t.0 {
                        Outcome::Done(targs) => {
                            let m = zip_subst(tvs, targs);
                            match *ret {
                                VType::App(VTyCon::Arrow, fts) => {
                                    if fts.len() == 0 {
                                        (Outcome::Stuck, t.1)
                                    } else if fts.len() - 1 != args@.len() {
                                        (
                                            Outcome::Error,
                                            t.1 + one(
                                                ErrorKind::ArgCount {
                                                    expected: (fts.len() - 1) as usize,
                                                    found: args@.len() as usize,
                                                },
                                                c.span,
                                            ),
                                        )
                                    } else {
                                        let r = inst_args_spec(fts, args@, m, 0, env);
                                        match r.0 {
                                            Outcome::Done(_) => (Outcome::Done(subst_type(fts.last(), m)), t.1 + r.1),
                                            o => (fail(o), t.1 + r.1),
                                        }
                                    }
                                },
                                _ => (Outcome::Stuck, t.1),
                            }
                        },
                        o => (fail(o), t.1),
                    }
                }
            },
            Some(_) => (Outcome::Error, one(ErrorKind::NotCallable(callee.value), callee.span)),
        },
    }
}

/// Walks the fields of a struct literal against the declared fields, from
/// position `i` on.  `found` says whether the last field walked matched its
/// declaration; `inst` collects the fields that did.  With `flip` the
/// type of the literal's field is the first side of each unification.
pub open spec fn lit_fields_spec(
    decl: Seq<(Symbol, VType)>,
    fs: Seq<Spanned<StructLitField>>,
    m: Seq<(TypeVar, VType)>,
    owner: Symbol,
    flip: bool,
    i: int,
    found: bool,
    inst: Seq<(Symbol, VType)>,
    env: EnvV,
) -> (Outcome<(bool, Seq<(Symbol, VType)>)>, Diags)
    decreases fs, fs.len() - i,
{
    if i < 0 || i >= decl.len() || i >= fs.len() {
        (Outcome::Done((found, inst)), empty())
    } else if decl[i].0 == fs[i].value.ident.value {
        let a = expr_spec(fs[i].value.expr, env);
        match a.0 {
            Outcome::Done(t) => {
                let x = if flip { subst_type(t, m) } else { subst_type(decl[i].1, m) };
                let y = if flip { subst_type(decl[i].1, m) } else { subst_type(t, m) };
                if unify_ok(x, y) {
                    let r = lit_fields_spec(
                        decl,
                        fs,
                        m,
                        owner,
                        flip,
                        i + 1,
                        true,
                        inst.push((fs[i].value.ident.value, t)),
                        env,
                    );
                    (r.0, a.1 + r.1)
                } else {
                    (Outcome::Error, a.1 + unify_diags(x, y, fs[i].span))
                }
            },
            o => (fail(o), a.1),
        }
    } else {
        let r = lit_fields_spec(decl, fs, m, owner, flip, i + 1, false, inst, env);
        (r.0, one(ErrorKind::NotAMember { field: fs[i].value.ident.value, owner }, fs[i].value.ident.span) + r.1)
    }
}

/// The end of checking a struct literal, once its fields have been walked.
pub open spec fn lit_result(
    decl_len: int,
    lit_len: int,
    walked: (Outcome<(bool, Seq<(Symbol, VType)>)>, Diags),
    owner: Symbol,
    u: Unique,
    span: Span,
) -> (Outcome<VType>, Diags) {
    match walked.0 {
        Outcome::Done((found, inst)) => {
            if decl_len > lit_len {
                (Outcome::Error, walked.1 + one(ErrorKind::MissingFields(owner), span))
            } else if decl_len < lit_len {
                (Outcome::Error, walked.1 + one(ErrorKind::TooManyFields(owner), span))
            } else if !found {
                (Outcome::Error, walked.1)
            } else {
                (Outcome::Done(VType::Struct(owner, inst, u)), walked.1)
            }
        },
        o => (fail(o), walked.1),
    }
}

/// The type of a struct literal.
pub open spec fn struct_lit_spec(sl: Spanned<StructLit>, env: EnvV) -> (Outcome<VType>, Diags)
    decreases sl, 0nat,
{
    match sl.value {
        StructLit::Simple { ident, fields } => match look_type(env, ident.value) {
            None => (Outcome::Error, one(ErrorKind::UndefinedStruct(ident.value), ident.span)),
            Some(VEntry::Ty(VType::Poly(tvs, inner))) => match *inner {
                VType::Struct(_, decl, u) => {
                    let a = field_exprs_spec(fields@, 0, min(tvs.len() as int, fields@.len() as int), env);
                    match a.0 {
                        Outcome::Done(ets) => {
                            let m = zip_subst(tvs, ets);
                            let w = lit_fields_spec(decl, fields@, m, ident.value, false, 0, false, seq![], env);
                            let r = lit_result(decl.len() as int, fields@.len() as int, w, ident.value, u, sl.span);
                            (r.0, a.1 + r.1)
                        },
                        o => (fail(o), a.1),
                    }
                },
                _ => (Outcome::Stuck, empty()),
            },
            Some(_) => (Outcome::Error, one(ErrorKind::NotAStruct(ident.value), ident.span)),
        },
        StructLit::Instantiation { ident, fields, tys } => match look_type(env, ident.value) {
            None => (Outcome::Error, one(ErrorKind::UndefinedStruct(ident.value), ident.span)),
            Some(VEntry::Ty(VType::Poly(tvs, inner))) => {
                if tvs.len() != tys.value@.len() {
                    (
                        Outcome::Error,
                        one(
                            ErrorKind::TypeParamCount { found: tys.value@.len() as usize, expected: tvs.len() as usize },
                            tys.span,
                        ),
                    )
                } else {
                    let t = ty_list_spec(tys.value@, 0, tys.value@.len() as int, env);
                    match t.0 {
                        Outcome::Done(targs) => {
                            let m = zip_subst(tvs, targs);
                            match *inner {
                                VType::Struct(_, decl, u) => {
                                    let w = lit_fields_spec(decl, fields@, m, ident.value, true, 0, false, seq![], env);
                                    let r = lit_result(decl.len() as int, fields@.len() as int, w, ident.value, u, sl.span);
                                    (r.0, t.1 + r.1)
                                },
                                _ => (Outcome::Stuck, t.1),
                            }
                        },
                        o => (fail(o), t.1),
                    }
                }
            },
            Some(_) => (Outcome::Error, one(ErrorKind::NotInstantiable(ident.value), ident.span)),
        },
    }
}

/// The type of a variable, a field of a variable, or a subscript.
pub open spec fn var_spec(v: Spanned<Var>, env: EnvV) -> (Outcome<VType>, Diags)
    decreases v, 0nat,
{
    match v.value {
        Var::Simple(id) => match look_var(env, id.value) {
            Some(t) => (Outcome::Done(t), empty()),
            None => (Outcome::Error, one(ErrorKind::UndefinedVariable(id.value), v.span)),
        },
        Var::Field { ident, value } => match look_var(env, ident.value) {
            None => (Outcome::Error, one(ErrorKind::UndefinedVariable(ident.value), v.span)),
            Some(VType::Struct(sname, fs, _)) => match field_type(fs, value.value, 0) {
                Some(t) => (Outcome::Done(t), empty()),
                None => (Outcome::Error, one(ErrorKind::NoSuchField { owner: sname, field: value.value }, v.span)),
            },
            Some(t) => (Outcome::Error, one(ErrorKind::NoFieldOnType(t, value.value), v.span)),
        },
        Var::SubScript { target, expr } => match look_var(env, target.value) {
            None => (Outcome::Error, one(ErrorKind::UndefinedVariable(target.value), v.span)),
            Some(tt) => {
                if !is_int_type(tt) {
                    (Outcome::Error, one(ErrorKind::CannotIndex(tt), target.span))
                } else {
                    let a = expr_spec(*expr, env);
                    match a.0 {
                        Outcome::Done(et) => {
                            if !is_int_type(et) {
                                (Outcome::Error, a.1 + one(ErrorKind::IndexNotInt(et), v.span))
                            } else {
                                match tt {
                                    VType::App(VTyCon::String, _) => (
                                        Outcome::Done(int_type(Sign::Unsigned, Size::Bit8)),
                                        a.1,
                                    ),
                                    _ => (Outcome::Error, a.1 + one(ErrorKind::CannotIndex(tt), target.span)),
                                }
                            }
                        },
                        o => (o, a.1),
                    }
                }
            },
        },
    }
}

// ---------------------------------------------------------------- statements

/// The outcome of checking a `for` header part: an increment must be an
/// integer, a condition must be a `bool`.
pub open spec fn incr_spec(incr: Option<Spanned<Expression>>, env: EnvV) -> (Outcome<()>, Diags) {
    match incr {
        Some(x) => {
            let a = expr_spec(x, env);
            match a.0 {
                Outcome::Done(t) => {
                    if is_int_type(t) {
                        (Outcome::Done(()), a.1)
                    } else {
                        (Outcome::Error, a.1 + one(ErrorKind::IncrementNotInt, x.span))
                    }
                },
                o => (fail(o), a.1),
            }
        },
        None => (Outcome::Done(()), empty()),
    }
}

pub open spec fn cond_spec(cond: Option<Spanned<Expression>>, env: EnvV) -> (Outcome<()>, Diags) {
    match cond {
        Some(c) => {
            let a = expr_spec(c, env);
            match a.0 {
                Outcome::Done(t) => (
                    if unify_ok(bool_type(), t) { Outcome::Done(()) } else { Outcome::Error },
                    a.1 + unify_diags(bool_type(), t, c.span),
                ),
                o => (fail(o), a.1),
            }
        },
        None => (Outcome::Done(()), empty()),
    }
}

/// Turns the outcome of a statement into `Nil` when it succeeds.
pub open spec fn to_nil(o: Outcome<VType>) -> Outcome<VType> {
    match o {
        Outcome::Done(_) => Outcome::Done(VType::Nil),
        o => o,
    }
}

/// The type a statement yields, and the environment after it.
pub open spec fn stmt_spec(s: Spanned<Statement>, env: EnvV) -> (Outcome<VType>, EnvV, Diags)
    decreases s, 0nat,
{
    match s.value {
        Statement::Block(ss) => block_spec(ss@, 0, VType::Nil, env),
        Statement::Break => (Outcome::Done(VType::Nil), env, empty()),
        Statement::Continue => (Outcome::Done(VType::Nil), env, empty()),
        Statement::Expr(e) => {
            let a = expr_spec(e, env);
            (to_nil(a.0), env, a.1)
        },
        Statement::For { init, cond, incr, body } => {
            if init is None && cond is None && incr is None {
                stmt_spec(*body, env)
            } else {
                let i = match init {
                    Some(st) => stmt_spec(*st, env),
                    None => (Outcome::Done(VType::Nil), env, empty()),
                };
                match i.0 {
                    Outcome::Done(_) => {
                        let env1 = i.1;
                        let inc = incr_spec(incr, env1);
                        match inc.0 {
                            Outcome::Done(_) => {
                                let cnd = cond_spec(cond, env1);
                                match cnd.0 {
                                    Outcome::Done(_) => {
                                        let b = stmt_spec(*body, env1);
                                        (to_nil(b.0), b.1, i.2 + inc.1 + cnd.1 + b.2)
                                    },
                                    o => (fail(o), env1, i.2 + inc.1 + cnd.1),
                                }
                            },
                            o => (fail(o), env1, i.2 + inc.1),
                        }
                    },
                    o => (o, i.1, i.2),
                }
            }
        },
        Statement::If { cond, then, otherwise } => {
            let a = expr_spec(cond, env);
            match a.0 {
                Outcome::Done(ct) => {
                    if !unify_ok(bool_type(), ct) {
                        (Outcome::Error, env, a.1 + unify_diags(bool_type(), ct, cond.span))
                    } else {
                        let t = stmt_spec(*then, env);
                        match t.0 {
                            Outcome::Done(tt) => match otherwise {
                                Some(o) => {
                                    let u = stmt_spec(*o, t.1);
                                    match u.0 {
                                        Outcome::Done(ot) => (
                                            if unify_ok(tt, ot) { Outcome::Done(tt) } else { Outcome::Error },
                                            u.1,
                                            a.1 + t.2 + u.2 + unify_diags(tt, ot, o.span),
                                        ),
                                        oc => (oc, u.1, a.1 + t.2 + u.2),
                                    }
                                },
                                None => (Outcome::Done(tt), t.1, a.1 + t.2),
                            },
                            oc => (oc, t.1, a.1 + t.2),
                        }
                    }
                },
                o => (o, env, a.1),
            }
        },
        Statement::Let { ident, ty, expr } => match expr {
            Some(x) => {
                let a = expr_spec(x, env);
                match a.0 {
                    Outcome::Done(et) => match ty {
                        Some(ta) => {
                            let b = ty_spec(ta, env);
                            match b.0 {
                                Outcome::Done(t) => (
                                    if unify_ok(et, t) { Outcome::Done(VType::Nil) } else { Outcome::Error },
                                    env,
                                    a.1 + b.1 + unify_diags(et, t, ta.span),
                                ),
                                o => (o, env, a.1 + b.1),
                            }
                        },
                        None => (Outcome::Done(VType::Nil), add_var(env, ident.value, et), a.1),
                    },
                    o => (o, env, a.1),
                }
            },
            None => match ty {
                Some(ta) => {
                    let b = ty_spec(ta, env);
                    match b.0 {
                        Outcome::Done(t) => (Outcome::Done(VType::Nil), add_var(env, ident.value, t), b.1),
                        o => (o, env, b.1),
                    }
                },
                None => (Outcome::Done(VType::Nil), add_var(env, ident.value, VType::Nil), empty()),
            },
        },
        Statement::Return(e) => {
            let a = expr_spec(e, env);
            (a.0, env, a.1)
        },
        Statement::While { cond, body } => {
            let a = expr_spec(cond, env);
            match a.0 {
                Outcome::Done(ct) => {
                    if !unify_ok(bool_type(), ct) {
                        (Outcome::Error, env, a.1 + unify_diags(bool_type(), ct, cond.span))
                    } else {
                        let b = stmt_spec(*body, env);
                        (to_nil(b.0), b.1, a.1 + b.2)
                    }
                },
                o => (o, env, a.1),
            }
        },
    }
}

/// A block from statement `i` on: the type of its last statement, `last`
/// when there is none.
pub open spec fn block_spec(ss: Seq<Spanned<Statement>>, i: int, last: VType, env: EnvV) -> (Outcome<VType>, EnvV, Diags)
    decreases ss, ss.len() - i,
{
    if i < 0 || i >= ss.len() {
        (Outcome::Done(last), env, empty())
    } else {
        let a = stmt_spec(ss[i], env);
        match a.0 {
            Outcome::Done(t) => {
                let r = block_spec(ss, i + 1, t, a.1);
                (r.0, r.1, a.2 + r.2)
            },
            o => (o, a.1, a.2),
        }
    }
}

// ---------------------------------------------------------------- declarations

/// The type variables handed out for `n` type parameters.
pub open spec fn fresh_vars(start: u32, n: nat) -> Seq<TypeVar> {
    Seq::new(n, |k: int| TypeVar((start + k) as u32))
}

/// Binds each type parameter to the next type variable of the environment.
pub open spec fn bind_type_params(env: EnvV, ps: Seq<Spanned<Symbol>>) -> EnvV {
    let vs = fresh_vars(env.next_tyvar, ps.len());
    EnvV {
        types: TableV {
            bindings: env.types.bindings + Seq::new(ps.len(), |k: int| (ps[k].value, VEntry::Ty(VType::Var(vs[k])))),
            marks: env.types.marks,
        },
        next_tyvar: (env.next_tyvar + ps.len()) as u32,
        ..env
    }
}

pub open spec fn field_decl_tys(fs: Seq<Spanned<StructField>>) -> Seq<Spanned<Ty>> {
    Seq::new(fs.len(), |k: int| fs[k].value.ty)
}

pub open spec fn param_tys(ps: Seq<Spanned<FunctionParam>>) -> Seq<Spanned<Ty>> {
    Seq::new(ps.len(), |k: int| ps[k].value.ty)
}

pub open spec fn name_fields(fs: Seq<Spanned<StructField>>, ts: Seq<VType>) -> Seq<(Symbol, VType)> {
    Seq::new(fs.len(), |k: int| (fs[k].value.name.value, ts[k]))
}

/// Declares a struct.
pub open spec fn struct_spec(sd: Spanned<Struct>, env: EnvV) -> (Outcome<()>, EnvV, Diags) {
    let ps = sd.value.name.value.type_params@;
    let name = sd.value.name.value.name.value;
    let vs = fresh_vars(env.next_tyvar, ps.len());
    let env1 = bind_type_params(env, ps);
    let u = Unique(env1.next_unique);
    let env2 = EnvV { next_unique: (env1.next_unique + 1) as u32, ..env1 };
    let env3 = add_type(env2, name, VEntry::Ty(VType::Poly(vs, Box::new(VType::Struct(name, seq![], u)))));
    let fs = sd.value.fields.value@;
    let r = ty_list_spec(field_decl_tys(fs), 0, fs.len() as int, env3);
    match r.0 {
        Outcome::Done(ts) => (
            Outcome::Done(()),
            add_type(env3, name, VEntry::Ty(VType::Poly(vs, Box::new(VType::Struct(name, name_fields(fs, ts), u))))),
            r.1,
        ),
        o => (fail(o), env3, r.1),
    }
}

/// Declares a type alias.
pub open spec fn alias_spec(a: Spanned<TyAlias>, env: EnvV) -> (Outcome<()>, EnvV, Diags) {
    let ps = a.value.ident.value.type_params@;
    let name = a.value.ident.value.name.value;
    if ps.len() == 0 {
        let r = ty_spec(a.value.ty, env);
        match r.0 {
            Outcome::Done(t) => (Outcome::Done(()), add_type(env, name, VEntry::Ty(t)), r.1),
            o => (fail(o), env, r.1),
        }
    } else {
        let vs = fresh_vars(env.next_tyvar, ps.len());
        let env1 = bind_type_params(env, ps);
        let r = ty_spec(a.value.ty, env1);
        match r.0 {
            Outcome::Done(t) => (
                Outcome::Done(()),
                add_type(env1, name, VEntry::TyCon(VTyCon::Fun(vs, Box::new(t)))),
                r.1,
            ),
            o => (fail(o), env1, r.1),
        }
    }
}

/// Binds each parameter to the type at its position.
pub open spec fn bind_params(env: EnvV, ps: Seq<Spanned<FunctionParam>>, ts: Seq<VType>) -> EnvV {
    EnvV {
        vars: TableV {
            bindings: env.vars.bindings + Seq::new(ps.len(), |k: int| (ps[k].value.name.value, ts[k])),
            marks: env.vars.marks,
        },
        ..env
    }
}

/// Declares a function and checks its body.
pub open spec fn function_spec(f: Spanned<Function>, env: EnvV) -> (Outcome<()>, EnvV, Diags) {
    let ps = f.value.name.value.type_params@;
    let name = f.value.name.value.name.value;
    let vs = fresh_vars(env.next_tyvar, ps.len());
    let env1 = bind_type_params(env, ps);
    let rr: (Outcome<VType>, Diags) = match f.value.return_ty {
        Some(rt) => ty_spec(rt, env1),
        None => (Outcome::Done(VType::Nil), empty()),
    };
    match rr.0 {
        Outcome::Done(ret) => {
            let params = f.value.params.value@;
            let pr = ty_list_spec(param_tys(params), 0, params.len() as int, env1);
            match pr.0 {
                Outcome::Done(pts) => {
                    let all = pts.push(ret);
                    let env2 = add_var(env1, name, VType::Poly(vs, Box::new(VType::App(VTyCon::Arrow, all))));
                    let env3 = bind_params(begin_scope(env2), params, all);
                    let b = stmt_spec(f.value.body, env3);
                    match b.0 {
                        Outcome::Done(bt) => {
                            if unify_ok(ret, bt) {
                                (Outcome::Done(()), end_scope(b.1), rr.1 + pr.1 + b.2)
                            } else {
                                (Outcome::Error, b.1, rr.1 + pr.1 + b.2 + unify_diags(ret, bt, f.value.body.span))
                            }
                        },
                        o => (fail(o), b.1, rr.1 + pr.1 + b.2),
                    }
                },
                o => (fail(o), env1, rr.1 + pr.1),
            }
        },
        o => (fail(o), env1, rr.1),
    }
}

} // verus!
