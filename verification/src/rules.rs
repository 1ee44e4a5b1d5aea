//! The typing rules of the language, each stated as a relation between a
//! construct's result and the results of its parts.
use vstd::prelude::*;
use crate::env::{look_type, look_var, lookup, EnvV, VEntry};
use crate::infer::{lookup_tv, subst_type, unify_diags, zip_subst};
use crate::report::{one, Diagnostic, ErrorKind};
use crate::syntax::{Call, Expression, Function, Literal, Op, Spanned, Statement, StructLit, StructLitField, Ty, UnaryOp, Var};
use crate::types::{Sign, Size, Symbol, TypeVar, VTyCon, VType};
use crate::cast_check::castable;
use crate::typing::{
    bind_type_params, call_spec, expr_list_spec, expr_spec, field_type, lit_fields_spec, struct_lit_spec, var_spec, function_spec, param_tys, stmt_spec, ty_list_spec, ty_spec, unify_ok,
    Outcome,
};

verus! {

// ---------------------------------------------------------------- lookups

/// The latest binding of a name is the one a lookup finds.
proof fn lemma_lookup_latest<V>(bs: Seq<(Symbol, V)>, j: int, s: Symbol)
    requires
        0 <= j < bs.len(),
        bs[j].0 == s,
        forall|i: int| j < i < bs.len() ==> (#[trigger] bs[i]).0 != s,
    ensures
        lookup(bs, s) == Some(bs[j].1),
    decreases bs.len(),
{
    if j < bs.len() - 1 {
        let d = bs.drop_last();
        assert forall|i: int| j < i < d.len() implies (#[trigger] d[i]).0 != s by {
            assert(d[i] == bs[i]);
        }
        lemma_lookup_latest(d, j, s);
        assert(d[j] == bs[j]);
    }
}

proof fn lemma_lookup_tv_unique(m: Seq<(TypeVar, VType)>, j: int, v: TypeVar)
    requires
        0 <= j < m.len(),
        m[j].0 == v,
        forall|i: int| 0 <= i < m.len() && i != j ==> (#[trigger] m[i]).0 != v,
    ensures
        lookup_tv(m, v) == Some(m[j].1),
    decreases m.len(),
{
    if j < m.len() - 1 {
        let d = m.drop_last();
        assert forall|i: int| 0 <= i < d.len() && i != j implies (#[trigger] d[i]).0 != v by {
            assert(d[i] == m[i]);
        }
        lemma_lookup_tv_unique(d, j, v);
        assert(d[j] == m[j]);
    }
}

/// Each entry of a translated list of written types is the translation of
/// the written type at its position.
proof fn lemma_ty_list_entries(ts: Seq<Spanned<Ty>>, i: int, n: int, env: EnvV)
    requires
        0 <= i <= n <= ts.len(),
        ty_list_spec(ts, i, n, env).0 is Done,
    ensures
        ty_list_spec(ts, i, n, env).0->Done_0.len() == n - i,
        forall|k: int|
            0 <= k < n - i ==> ty_spec(#[trigger] ts[i + k], env).0 == Outcome::Done(
                ty_list_spec(ts, i, n, env).0->Done_0[k],
            ),
    decreases n - i,
{
    if i < n {
        lemma_ty_list_entries(ts, i + 1, n, env);
        let r = ty_list_spec(ts, i, n, env).0->Done_0;
        let rest = ty_list_spec(ts, i + 1, n, env).0->Done_0;
        assert forall|k: int| 0 <= k < n - i implies ty_spec(#[trigger] ts[i + k], env).0 == Outcome::Done(r[k]) by {
            if k > 0 {
                assert(r[k] == rest[k - 1]);
                assert(ts[i + k] == ts[(i + 1) + (k - 1)]);
            }
        }
    }
}

// ---------------------------------------------------------------- expressions

/// Arithmetic on operands that agree has the type of its left operand and
/// reports only what the operands report.
pub proof fn law_arithmetic_has_left_type(
    e: Spanned<Expression>,
    lhs: Box<Spanned<Expression>>,
    op: Spanned<Op>,
    rhs: Box<Spanned<Expression>>,
    env: EnvV,
)
    requires
        e.value == (Expression::Binary { lhs, op, rhs }),
        op.value is Plus || op.value is Minus || op.value is Star || op.value is Slash,
        expr_spec(*lhs, env).0 is Done,
        expr_spec(*rhs, env).0 is Done,
        unify_ok(expr_spec(*lhs, env).0->Done_0, expr_spec(*rhs, env).0->Done_0),
    ensures
        expr_spec(e, env).0 == expr_spec(*lhs, env).0,
        expr_spec(e, env).1 == expr_spec(*lhs, env).1 + expr_spec(*rhs, env).1,
{
}

// ---------------------------------------------------------------- statements

/// A `while` whose condition is a `bool` succeeds exactly when its body
/// does, reports what its condition and then its body report, and leaves
/// the environment its body leaves.
pub proof fn law_while_checks_its_body(
    s: Spanned<Statement>,
    cond: Spanned<Expression>,
    body: Box<Spanned<Statement>>,
    env: EnvV,
)
    requires
        s.value == (Statement::While { cond, body }),
        expr_spec(cond, env).0 == Outcome::Done(VType::App(VTyCon::Bool, seq![])),
    ensures
        stmt_spec(s, env).0 is Done <==> stmt_spec(*body, env).0 is Done,
        stmt_spec(*body, env).0 is Error ==> stmt_spec(s, env).0 is Error,
        stmt_spec(s, env).1 == stmt_spec(*body, env).1,
        stmt_spec(s, env).2 == expr_spec(cond, env).1 + stmt_spec(*body, env).2,
{
    crate::laws::law_unify_reflexive(VType::App(VTyCon::Bool, seq![]));
}

// ---------------------------------------------------------------- calls

/// A call succeeds only with as many arguments as the callee's function
/// type has parameters; with another number it fails with one `ArgCount`
/// diagnostic giving both numbers.
pub proof fn law_call_argument_count(
    c: Spanned<Call>,
    callee: Spanned<Symbol>,
    args: Vec<Spanned<Expression>>,
    tvs: Seq<TypeVar>,
    fts: Seq<VType>,
    env: EnvV,
)
    requires
        c.value == (Call::Simple { callee, args }),
        look_var(env, callee.value) == Some(VType::Poly(tvs, Box::new(VType::App(VTyCon::Arrow, fts)))),
        fts.len() > 0,
    ensures
        call_spec(c, env).0 is Done ==> args@.len() == fts.len() - 1,
        args@.len() != fts.len() - 1 ==> call_spec(c, env) == (
            Outcome::<VType>::Error,
            one(ErrorKind::ArgCount { expected: (fts.len() - 1) as usize, found: args@.len() as usize }, c.span),
        ),
{
}

/// The same holds of a call with explicit type arguments, once the number
/// of type arguments is right and they translate.
pub proof fn law_instantiated_call_argument_count(
    c: Spanned<Call>,
    callee: Spanned<Symbol>,
    tys: Spanned<Vec<Spanned<Ty>>>,
    args: Vec<Spanned<Expression>>,
    tvs: Seq<TypeVar>,
    fts: Seq<VType>,
    env: EnvV,
)
    requires
        c.value == (Call::Instantiation { callee, tys, args }),
        look_var(env, callee.value) == Some(VType::Poly(tvs, Box::new(VType::App(VTyCon::Arrow, fts)))),
        fts.len() > 0,
        tvs.len() == tys.value@.len(),
        ty_list_spec(tys.value@, 0, tys.value@.len() as int, env).0 is Done,
    ensures
        call_spec(c, env).0 is Done ==> args@.len() == fts.len() - 1,
        args@.len() != fts.len() - 1 ==> call_spec(c, env).0 is Error && call_spec(c, env).1 == ty_list_spec(
            tys.value@,
            0,
            tys.value@.len() as int,
            env,
        ).1 + one(ErrorKind::ArgCount { expected: (fts.len() - 1) as usize, found: args@.len() as usize }, c.span),
{
}

// ---------------------------------------------------------------- types

/// Instantiating a generic struct with one type argument per type parameter
/// gives a struct of the same declaration with the same field names, in
/// which a field declared as the `j`-th type parameter has the translation
/// of the `j`-th type argument.
pub proof fn law_instantiation_substitutes_each_parameter(
    t: Spanned<Ty>,
    id: Spanned<Symbol>,
    args: Vec<Spanned<Ty>>,
    tvs: Seq<TypeVar>,
    name: Symbol,
    fields: Seq<(Symbol, VType)>,
    u: crate::types::Unique,
    env: EnvV,
)
    requires
        t.value == Ty::Poly(id, args),
        look_type(env, id.value) == Some(VEntry::Ty(VType::Poly(tvs, Box::new(VType::Struct(name, fields, u))))),
        tvs.len() > 0,
        tvs.len() == args@.len(),
        forall|i: int, j: int| 0 <= i < j < tvs.len() ==> #[trigger] tvs[i] != #[trigger] tvs[j],
        ty_spec(t, env).0 is Done,
    ensures
        ty_spec(t, env).0->Done_0 matches VType::Struct(n, fs, u2) && n == id.value && u2 == u && fs.len() == fields.len()
            && (forall|k: int| 0 <= k < fs.len() ==> (#[trigger] fs[k]).0 == fields[k].0)
            && (forall|k: int, j: int|
            0 <= k < fs.len() && 0 <= j < tvs.len() && fields[k].1 == VType::Var(tvs[j]) ==> ty_spec(
                #[trigger] args@[j],
                env,
            ).0 == Outcome::Done(#[trigger] fs[k].1)),
{
    let n = tvs.len() as int;
    assert(crate::typing::min(tvs.len() as int, args@.len() as int) == n);
    lemma_ty_list_entries(args@, 0, n, env);
    let ts = ty_list_spec(args@, 0, n, env).0->Done_0;
    let m = zip_subst(tvs, ts);
    let fs = ty_spec(t, env).0->Done_0->Struct_1;
    assert forall|k: int, j: int|
        0 <= k < fs.len() && 0 <= j < tvs.len() && fields[k].1 == VType::Var(tvs[j]) implies ty_spec(
        #[trigger] args@[j],
        env,
    ).0 == Outcome::Done(#[trigger] fs[k].1) by {
        assert(m[j].0 == tvs[j]);
        assert forall|i: int| 0 <= i < m.len() && i != j implies (#[trigger] m[i]).0 != tvs[j] by {
            assert(m[i].0 == tvs[i]);
            if i < j {
                assert(tvs[i] != tvs[j]);
            } else {
                assert(tvs[j] != tvs[i]);
            }
        }
        lemma_lookup_tv_unique(m, j, tvs[j]);
        assert(fs[k].1 == subst_type(fields[k].1, m));
        assert(args@[0 + j] == args@[j]);
    }
}

// ---------------------------------------------------------------- functions

/// While a function's body is checked, each parameter (their names being
/// distinct) stands for the type its own declared type translates to: the
/// declaration's outcome and diagnostics are those of checking the body in
/// such an environment and then unifying the body's type with the return
/// type.
pub proof fn law_function_body_sees_parameter_types(f: Spanned<Function>, env: EnvV)
    requires
        forall|i: int, j: int|
            0 <= i < j < f.value.params.value@.len() ==> (#[trigger] f.value.params.value@[i]).value.name.value
                != (#[trigger] f.value.params.value@[j]).value.name.value,
        ({
            let env1 = bind_type_params(env, f.value.name.value.type_params@);
            &&& match f.value.return_ty {
                Some(rt) => ty_spec(rt, env1).0 is Done,
                None => true,
            }
            &&& ty_list_spec(param_tys(f.value.params.value@), 0, f.value.params.value@.len() as int, env1).0 is Done
        }),
    ensures
        ({
            let env1 = bind_type_params(env, f.value.name.value.type_params@);
            let params = f.value.params.value@;
            let ret = match f.value.return_ty {
                Some(rt) => ty_spec(rt, env1).0->Done_0,
                None => VType::Nil,
            };
            let rdiags = match f.value.return_ty {
                Some(rt) => ty_spec(rt, env1).1,
                None => Seq::<Diagnostic<VType>>::empty(),
            };
            let pr = ty_list_spec(param_tys(params), 0, params.len() as int, env1);
            exists|inner: EnvV|
                #![trigger stmt_spec(f.value.body, inner)]
                {
                    &&& forall|k: int|
                        0 <= k < params.len() ==> ty_spec((#[trigger] params[k]).value.ty, env1).0 == Outcome::Done(
                            look_var(inner, params[k].value.name.value)->Some_0,
                        ) && look_var(inner, params[k].value.name.value) is Some
                    &&& {
                        let b = stmt_spec(f.value.body, inner);
                        &&& function_spec(f, env).0 is Done <==> (b.0 is Done && unify_ok(ret, b.0->Done_0))
                        &&& function_spec(f, env).2 == rdiags + pr.1 + b.2 + match b.0 {
                            Outcome::Done(bt) => unify_diags(ret, bt, f.value.body.span),
                            _ => Seq::empty(),
                        }
                    }
                }
        }),
{
    let ps = f.value.name.value.type_params@;
    let env1 = bind_type_params(env, ps);
    let params = f.value.params.value@;
    let name = f.value.name.value.name.value;
    let vs = crate::typing::fresh_vars(env.next_tyvar, ps.len());
    let ret = match f.value.return_ty {
        Some(rt) => ty_spec(rt, env1).0->Done_0,
        None => VType::Nil,
    };
    let rdiags = match f.value.return_ty {
        Some(rt) => ty_spec(rt, env1).1,
        None => Seq::<Diagnostic<VType>>::empty(),
    };
    let pr = ty_list_spec(param_tys(params), 0, params.len() as int, env1);
    lemma_ty_list_entries(param_tys(params), 0, params.len() as int, env1);
    let pts = pr.0->Done_0;
    let all = pts.push(ret);
    let env2 = crate::env::add_var(env1, name, VType::Poly(vs, Box::new(VType::App(VTyCon::Arrow, all))));
    let inner = crate::typing::bind_params(crate::env::begin_scope(env2), params, all);
    let base = crate::env::begin_scope(env2).vars.bindings.len();
    assert forall|k: int|
        0 <= k < params.len() implies ty_spec((#[trigger] params[k]).value.ty, env1).0 == Outcome::Done(
        look_var(inner, params[k].value.name.value)->Some_0,
    ) && look_var(inner, params[k].value.name.value) is Some by {
        let bs = inner.vars.bindings;
        let s = params[k].value.name.value;
        assert(bs[base + k] == (s, all[k]));
        assert forall|i: int| base + k < i < bs.len() implies (#[trigger] bs[i]).0 != s by {
            let j = i - base;
            assert(bs[i] == (params[j].value.name.value, all[j]));
            assert(params[k].value.name.value != params[j].value.name.value);
        }
        lemma_lookup_latest(bs, base + k, s);
        assert(param_tys(params)[0 + k] == params[k].value.ty);
        assert(all[k] == pts[k]);
    }
    let b = stmt_spec(f.value.body, inner);
    let tail: Seq<Diagnostic<VType>> = match b.0 {
        Outcome::Done(bt) => unify_diags(ret, bt, f.value.body.span),
        _ => Seq::empty(),
    };
    match b.0 {
        Outcome::Done(bt) => {
            if unify_ok(ret, bt) {
                assert(unify_diags(ret, bt, f.value.body.span) =~= Seq::<Diagnostic<VType>>::empty());
                assert(rdiags + pr.1 + b.2 + tail =~= rdiags + pr.1 + b.2);
            }
        },
        _ => {
            assert(rdiags + pr.1 + b.2 + tail =~= rdiags + pr.1 + b.2);
        },
    }
    assert(function_spec(f, env).2 == rdiags + pr.1 + b.2 + tail);
}

// ---------------------------------------------------------------- more expressions

/// The type `bool`.
pub open spec fn bool_t() -> VType {
    VType::App(VTyCon::Bool, seq![])
}

/// A comparison or a logical operator requires its operands to agree and
/// has type `bool`; when they disagree it fails with their mismatch.
pub proof fn law_comparison_is_bool(
    e: Spanned<Expression>,
    lhs: Box<Spanned<Expression>>,
    op: Spanned<Op>,
    rhs: Box<Spanned<Expression>>,
    env: EnvV,
)
    requires
        e.value == (Expression::Binary { lhs, op, rhs }),
        op.value is LT || op.value is LTE || op.value is GT || op.value is GTE || op.value is And || op.value is Or,
        expr_spec(*lhs, env).0 is Done,
        expr_spec(*rhs, env).0 is Done,
    ensures
        ({
            let lt = expr_spec(*lhs, env).0->Done_0;
            let rt = expr_spec(*rhs, env).0->Done_0;
            &&& unify_ok(lt, rt) ==> expr_spec(e, env).0 == Outcome::Done(bool_t())
            &&& !unify_ok(lt, rt) ==> expr_spec(e, env).0 is Error
            &&& expr_spec(e, env).1 == expr_spec(*lhs, env).1 + expr_spec(*rhs, env).1 + unify_diags(lt, rt, e.span)
        }),
{
}

/// `==` and `!=` have type `bool` whatever their operands' types.
pub proof fn law_equality_is_bool(
    e: Spanned<Expression>,
    lhs: Box<Spanned<Expression>>,
    op: Spanned<Op>,
    rhs: Box<Spanned<Expression>>,
    env: EnvV,
)
    requires
        e.value == (Expression::Binary { lhs, op, rhs }),
        op.value is Equal || op.value is NEq,
        expr_spec(*lhs, env).0 is Done,
        expr_spec(*rhs, env).0 is Done,
    ensures
        expr_spec(e, env) == (Outcome::Done(bool_t()), expr_spec(*lhs, env).1 + expr_spec(*rhs, env).1),
{
}

/// Arithmetic on operands that disagree is accepted only on strings: it
/// reports the mismatch, and has the left operand's type when that is a
/// string.
pub proof fn law_arithmetic_on_mismatch(
    e: Spanned<Expression>,
    lhs: Box<Spanned<Expression>>,
    op: Spanned<Op>,
    rhs: Box<Spanned<Expression>>,
    env: EnvV,
)
    requires
        e.value == (Expression::Binary { lhs, op, rhs }),
        op.value is Plus || op.value is Minus || op.value is Star || op.value is Slash,
        expr_spec(*lhs, env).0 is Done,
        expr_spec(*rhs, env).0 is Done,
        !unify_ok(expr_spec(*lhs, env).0->Done_0, expr_spec(*rhs, env).0->Done_0),
    ensures
        ({
            let lt = expr_spec(*lhs, env).0->Done_0;
            let rt = expr_spec(*rhs, env).0->Done_0;
            let st = VType::App(VTyCon::String, seq![]);
            &&& expr_spec(e, env).0 == (if unify_ok(lt, st) { Outcome::Done(lt) } else { Outcome::Error })
            &&& expr_spec(e, env).1 == expr_spec(*lhs, env).1 + expr_spec(*rhs, env).1 + unify_diags(lt, rt, e.span)
                + unify_diags(lt, st, e.span)
            &&& unify_diags(lt, rt, e.span).len() == 1
        }),
{
}

/// A binary expression whose left operand fails fails the same way, and
/// its right operand is not checked.
pub proof fn law_binary_left_failure(
    e: Spanned<Expression>,
    lhs: Box<Spanned<Expression>>,
    op: Spanned<Op>,
    rhs: Box<Spanned<Expression>>,
    env: EnvV,
)
    requires
        e.value == (Expression::Binary { lhs, op, rhs }),
        expr_spec(*lhs, env).0 !is Done,
    ensures
        expr_spec(e, env) == expr_spec(*lhs, env),
{
}

/// A cast has the target type when the cast is allowed, and otherwise
/// fails with `CannotCast` naming both types.
pub proof fn law_cast_yields_target(
    e: Spanned<Expression>,
    from: Box<Spanned<Expression>>,
    to: Spanned<Ty>,
    env: EnvV,
)
    requires
        e.value == (Expression::Cast { from, to }),
        expr_spec(*from, env).0 is Done,
        ty_spec(to, env).0 is Done,
    ensures
        ({
            let ft = expr_spec(*from, env).0->Done_0;
            let tt = ty_spec(to, env).0->Done_0;
            let d = expr_spec(*from, env).1 + ty_spec(to, env).1;
            &&& castable(ft, tt) ==> expr_spec(e, env) == (Outcome::Done(tt), d)
            &&& !castable(ft, tt) ==> expr_spec(e, env) == (Outcome::<VType>::Error, d + one(
                ErrorKind::CannotCast(ft, tt),
                e.span,
            ))
        }),
{
}

/// `!` has type `bool`; unary `-` keeps an integer operand's type and
/// fails with `NegateNonInt` on any other.
pub proof fn law_unary_types(e: Spanned<Expression>, op: Spanned<UnaryOp>, inner: Box<Spanned<Expression>>, env: EnvV)
    requires
        e.value == (Expression::Unary { op, expr: inner }),
        expr_spec(*inner, env).0 is Done,
    ensures
        ({
            let t = expr_spec(*inner, env).0->Done_0;
            let d = expr_spec(*inner, env).1;
            &&& op.value is Bang ==> expr_spec(e, env) == (Outcome::Done(bool_t()), d)
            &&& (op.value is Minus && t matches VType::App(VTyCon::Int(_, _), _)) ==> expr_spec(e, env) == (
                Outcome::Done(t),
                d,
            )
            &&& (op.value is Minus && !(t matches VType::App(VTyCon::Int(_, _), _))) ==> expr_spec(e, env) == (
                Outcome::<VType>::Error,
                d + one(ErrorKind::NegateNonInt(t), inner.span),
            )
        }),
{
}

/// Parentheses change nothing.
pub proof fn law_grouping_is_transparent(e: Spanned<Expression>, inner: Box<Spanned<Expression>>, env: EnvV)
    requires
        e.value == (Expression::Grouping { expr: inner }),
    ensures
        expr_spec(e, env) == expr_spec(*inner, env),
{
}

/// Literals have fixed types: a number its suffix's integer type or `i32`
/// without one, a character `u8`, `true` and `false` `bool`, a string
/// `str`, and `nil` the void type; they report nothing.
pub proof fn law_literal_types(e: Spanned<Expression>, l: Literal, env: EnvV)
    requires
        e.value == Expression::Literal(l),
    ensures
        expr_spec(e, env).1.len() == 0,
        l matches Literal::Number(n) ==> (n.ty is None ==> expr_spec(e, env).0 == Outcome::Done(
            VType::App(VTyCon::Int(Sign::Signed, Size::Bit32), seq![]),
        )),
        l matches Literal::Number(n) ==> (n.ty matches Some((s, z)) ==> expr_spec(e, env).0 == Outcome::Done(
            VType::App(VTyCon::Int(s, z), seq![]),
        )),
        l is Char ==> expr_spec(e, env).0 == Outcome::Done(VType::App(VTyCon::Int(Sign::Unsigned, Size::Bit8), seq![])),
        (l is True || l is False) ==> expr_spec(e, env).0 == Outcome::Done(bool_t()),
        l is Str ==> expr_spec(e, env).0 == Outcome::Done(VType::App(VTyCon::String, seq![])),
        l is Nil ==> expr_spec(e, env).0 == Outcome::Done(VType::App(VTyCon::Void, seq![])),
{
    match l {
        Literal::Number(n) => match n.ty {
            Some((s, z)) => {
                assert(expr_spec(e, env).0 == Outcome::Done(VType::App(VTyCon::Int(s, z), seq![])));
            },
            None => {},
        },
        _ => {},
    }
}

/// An assignment requires the variable's and the value's types to agree,
/// and has the value's type.
pub proof fn law_assignment(e: Spanned<Expression>, name: Spanned<Var>, value: Box<Spanned<Expression>>, env: EnvV)
    requires
        e.value == (Expression::Assign { name, value }),
        crate::typing::var_spec(name, env).0 is Done,
        expr_spec(*value, env).0 is Done,
    ensures
        ({
            let nt = crate::typing::var_spec(name, env).0->Done_0;
            let vt = expr_spec(*value, env).0->Done_0;
            &&& unify_ok(nt, vt) ==> expr_spec(e, env).0 == Outcome::Done(vt)
            &&& !unify_ok(nt, vt) ==> expr_spec(e, env).0 is Error
            &&& expr_spec(e, env).1 == crate::typing::var_spec(name, env).1 + expr_spec(*value, env).1 + unify_diags(
                nt,
                vt,
                e.span,
            )
        }),
{
}

// ---------------------------------------------------------------- more statements

/// `return e;` has the type of `e` and binds nothing.
pub proof fn law_return_has_its_type(s: Spanned<Statement>, e: Spanned<Expression>, env: EnvV)
    requires
        s.value == Statement::Return(e),
    ensures
        stmt_spec(s, env) == (expr_spec(e, env).0, env, expr_spec(e, env).1),
{
}

/// An expression statement yields nil when its expression checks, and
/// fails as its expression does otherwise.
pub proof fn law_expression_statement(s: Spanned<Statement>, e: Spanned<Expression>, env: EnvV)
    requires
        s.value == Statement::Expr(e),
    ensures
        stmt_spec(s, env).1 == env,
        stmt_spec(s, env).2 == expr_spec(e, env).1,
        expr_spec(e, env).0 is Done ==> stmt_spec(s, env).0 == Outcome::Done(VType::Nil),
        expr_spec(e, env).0 !is Done ==> stmt_spec(s, env).0 == expr_spec(e, env).0,
{
}

/// An `if` whose condition is a `bool` has the type of its `then` branch;
/// an `else` branch, checked after the `then` branch, must agree with it.
/// A condition that is not a `bool` is reported and nothing else checked.
pub proof fn law_if_branches(
    s: Spanned<Statement>,
    cond: Spanned<Expression>,
    then: Box<Spanned<Statement>>,
    otherwise: Option<Box<Spanned<Statement>>>,
    env: EnvV,
)
    requires
        s.value == (Statement::If { cond, then, otherwise }),
        expr_spec(cond, env).0 is Done,
    ensures
        ({
            let ct = expr_spec(cond, env).0->Done_0;
            let t = stmt_spec(*then, env);
            &&& !unify_ok(bool_t(), ct) ==> stmt_spec(s, env) == (Outcome::<VType>::Error, env, expr_spec(cond, env).1
                + unify_diags(bool_t(), ct, cond.span))
            &&& (unify_ok(bool_t(), ct) && t.0 !is Done) ==> stmt_spec(s, env) == (t.0, t.1, expr_spec(cond, env).1
                + t.2)
            &&& (unify_ok(bool_t(), ct) && otherwise is None) ==> stmt_spec(s, env) == (t.0, t.1, expr_spec(cond, env).1
                + t.2)
            &&& (unify_ok(bool_t(), ct) && t.0 is Done && otherwise is Some) ==> {
                let u = stmt_spec(*otherwise->Some_0, t.1);
                &&& stmt_spec(s, env).1 == u.1
                &&& (u.0 matches Outcome::Done(ot) && unify_ok(t.0->Done_0, ot)) ==> stmt_spec(s, env).0 == t.0
                &&& (u.0 matches Outcome::Done(ot) && !unify_ok(t.0->Done_0, ot)) ==> stmt_spec(s, env).0 is Error
                &&& u.0 !is Done ==> stmt_spec(s, env).0 == u.0
            }
        }),
{
}

/// A `for` with no header is its body.
pub proof fn law_for_without_header(s: Spanned<Statement>, body: Box<Spanned<Statement>>, env: EnvV)
    requires
        s.value == (Statement::For { init: None, cond: None, incr: None, body }),
    ensures
        stmt_spec(s, env) == stmt_spec(*body, env),
{
}

/// A `for` whose header is an integer increment succeeds exactly when its
/// body does, and a body that fails makes the loop fail.
pub proof fn law_for_checks_its_body(s: Spanned<Statement>, x: Spanned<Expression>, body: Box<Spanned<Statement>>, env: EnvV)
    requires
        s.value == (Statement::For { init: None, cond: None, incr: Some(x), body }),
        expr_spec(x, env).0 is Done,
        expr_spec(x, env).0->Done_0 matches VType::App(VTyCon::Int(_, _), _),
    ensures
        stmt_spec(s, env).0 is Done <==> stmt_spec(*body, env).0 is Done,
        stmt_spec(*body, env).0 is Error ==> stmt_spec(s, env).0 is Error,
        stmt_spec(s, env).1 == stmt_spec(*body, env).1,
        stmt_spec(s, env).2 == expr_spec(x, env).1 + stmt_spec(*body, env).2,
{
    assert(Seq::<Diagnostic<VType>>::empty() + expr_spec(x, env).1 + Seq::<Diagnostic<VType>>::empty()
        =~= expr_spec(x, env).1);
}

/// A block of one statement is that statement; an empty block yields nil.
pub proof fn law_block_of_one(s: Spanned<Statement>, ss: Vec<Spanned<Statement>>, env: EnvV)
    requires
        s.value == Statement::Block(ss),
    ensures
        ss@.len() == 0 ==> stmt_spec(s, env) == (Outcome::Done(VType::Nil), env, Seq::<Diagnostic<VType>>::empty()),
        ss@.len() == 1 ==> stmt_spec(s, env) == stmt_spec(ss@[0], env),
{
    assert(stmt_spec(s, env) == crate::typing::block_spec(ss@, 0, VType::Nil, env));
    if ss@.len() == 1 {
        let a = stmt_spec(ss@[0], env);
        if a.0 is Done {
            assert(crate::typing::block_spec(ss@, 1, a.0->Done_0, a.1) == (a.0, a.1, Seq::<Diagnostic<VType>>::empty()));
            assert(a.2 + Seq::<Diagnostic<VType>>::empty() =~= a.2);
        }
    }
}

// ---------------------------------------------------------------- more calls

/// Each entry of the types of a list of expressions is the type of the
/// expression at its position.
proof fn lemma_expr_list_entries(es: Seq<Spanned<Expression>>, i: int, n: int, env: EnvV)
    requires
        0 <= i <= n <= es.len(),
        expr_list_spec(es, i, n, env).0 is Done,
    ensures
        expr_list_spec(es, i, n, env).0->Done_0.len() == n - i,
        forall|k: int|
            0 <= k < n - i ==> expr_spec(#[trigger] es[i + k], env).0 == Outcome::Done(
                expr_list_spec(es, i, n, env).0->Done_0[k],
            ),
    decreases n - i,
{
    if i < n {
        lemma_expr_list_entries(es, i + 1, n, env);
        let r = expr_list_spec(es, i, n, env).0->Done_0;
        let rest = expr_list_spec(es, i + 1, n, env).0->Done_0;
        assert forall|k: int| 0 <= k < n - i implies expr_spec(#[trigger] es[i + k], env).0 == Outcome::Done(r[k]) by {
            if k > 0 {
                assert(r[k] == rest[k - 1]);
                assert(es[i + k] == es[(i + 1) + (k - 1)]);
            }
        }
    }
}

proof fn lemma_zip_lookup(vs: Seq<TypeVar>, ts: Seq<VType>, j: int)
    requires
        0 <= j < vs.len(),
        j < ts.len(),
        forall|a: int, b: int| 0 <= a < b < vs.len() ==> #[trigger] vs[a] != #[trigger] vs[b],
    ensures
        subst_type(VType::Var(vs[j]), zip_subst(vs, ts)) == ts[j],
{
    let m = zip_subst(vs, ts);
    assert(m[j].0 == vs[j]);
    assert forall|i: int| 0 <= i < m.len() && i != j implies (#[trigger] m[i]).0 != vs[j] by {
        assert(m[i].0 == vs[i]);
        if i < j {
            assert(vs[i] != vs[j]);
        } else {
            assert(vs[j] != vs[i]);
        }
    }
    lemma_lookup_tv_unique(m, j, vs[j]);
}

/// A call to a function without type parameters, with the right number of
/// arguments, has the function's return type and reports nothing.
pub proof fn law_monomorphic_call(
    c: Spanned<Call>,
    callee: Spanned<Symbol>,
    args: Vec<Spanned<Expression>>,
    fts: Seq<VType>,
    env: EnvV,
)
    requires
        c.value == (Call::Simple { callee, args }),
        look_var(env, callee.value) == Some(VType::Poly(seq![], Box::new(VType::App(VTyCon::Arrow, fts)))),
        fts.len() > 0,
        args@.len() == fts.len() - 1,
    ensures
        call_spec(c, env) == (Outcome::Done(fts.last()), Seq::<Diagnostic<VType>>::empty()),
{
    crate::laws::law_subst_empty(fts.last());
    assert(zip_subst(seq![], seq![]) =~= Seq::<(TypeVar, VType)>::empty());
    assert(Seq::<Diagnostic<VType>>::empty() + Seq::<Diagnostic<VType>>::empty() =~= Seq::<Diagnostic<VType>>::empty());
}

/// A generic function whose return type is one of its type parameters,
/// called successfully, has the type of the argument that instantiates that
/// parameter.
pub proof fn law_generic_call_returns_argument_type(
    c: Spanned<Call>,
    callee: Spanned<Symbol>,
    args: Vec<Spanned<Expression>>,
    tvs: Seq<TypeVar>,
    fts: Seq<VType>,
    j: int,
    env: EnvV,
)
    requires
        c.value == (Call::Simple { callee, args }),
        look_var(env, callee.value) == Some(VType::Poly(tvs, Box::new(VType::App(VTyCon::Arrow, fts)))),
        forall|a: int, b: int| 0 <= a < b < tvs.len() ==> #[trigger] tvs[a] != #[trigger] tvs[b],
        0 <= j < tvs.len(),
        j < args@.len(),
        fts.len() > 0,
        fts.last() == VType::Var(tvs[j]),
        call_spec(c, env).0 is Done,
    ensures
        call_spec(c, env).0 == expr_spec(args@[j], env).0,
{
    let n = crate::typing::min(tvs.len() as int, args@.len() as int);
    lemma_expr_list_entries(args@, 0, n, env);
    let ats = expr_list_spec(args@, 0, n, env).0->Done_0;
    lemma_zip_lookup(tvs, ats, j);
    assert(args@[0 + j] == args@[j]);
}

/// The same for a call with explicit type arguments: it has the type that
/// the type argument at that parameter's position translates to.
pub proof fn law_instantiated_call_returns_type_argument(
    c: Spanned<Call>,
    callee: Spanned<Symbol>,
    tys: Spanned<Vec<Spanned<Ty>>>,
    args: Vec<Spanned<Expression>>,
    tvs: Seq<TypeVar>,
    fts: Seq<VType>,
    j: int,
    env: EnvV,
)
    requires
        c.value == (Call::Instantiation { callee, tys, args }),
        look_var(env, callee.value) == Some(VType::Poly(tvs, Box::new(VType::App(VTyCon::Arrow, fts)))),
        forall|a: int, b: int| 0 <= a < b < tvs.len() ==> #[trigger] tvs[a] != #[trigger] tvs[b],
        0 <= j < tvs.len(),
        fts.len() > 0,
        fts.last() == VType::Var(tvs[j]),
        call_spec(c, env).0 is Done,
    ensures
        call_spec(c, env).0 == ty_spec(tys.value@[j], env).0,
{
    let n = tys.value@.len() as int;
    lemma_ty_list_entries(tys.value@, 0, n, env);
    let targs = ty_list_spec(tys.value@, 0, n, env).0->Done_0;
    lemma_zip_lookup(tvs, targs, j);
    assert(tys.value@[0 + j] == tys.value@[j]);
}

// ---------------------------------------------------------------- fields and struct literals

proof fn lemma_field_type_first(fs: Seq<(Symbol, VType)>, name: Symbol, i: int, k: int)
    requires
        0 <= i <= k < fs.len(),
        fs[k].0 == name,
        forall|a: int| i <= a < k ==> (#[trigger] fs[a]).0 != name,
    ensures
        field_type(fs, name, i) == Some(fs[k].1),
    decreases k - i,
{
    if i < k {
        lemma_field_type_first(fs, name, i + 1, k);
    }
}

proof fn lemma_field_type_none(fs: Seq<(Symbol, VType)>, name: Symbol, i: int)
    requires
        0 <= i,
        forall|a: int| i <= a < fs.len() ==> (#[trigger] fs[a]).0 != name,
    ensures
        field_type(fs, name, i) is None,
    decreases fs.len() - i,
{
    if i < fs.len() {
        lemma_field_type_none(fs, name, i + 1);
    }
}

/// A field of a struct variable has the type of the first field of that
/// name; a struct without such a field gives `NoSuchField`.
pub proof fn law_field_access(
    v: Spanned<Var>,
    ident: Spanned<Symbol>,
    value: Spanned<Symbol>,
    sname: Symbol,
    fs: Seq<(Symbol, VType)>,
    u: crate::types::Unique,
    env: EnvV,
)
    requires
        v.value == (Var::Field { ident, value }),
        look_var(env, ident.value) == Some(VType::Struct(sname, fs, u)),
    ensures
        forall|k: int|
            0 <= k < fs.len() && (#[trigger] fs[k]).0 == value.value && (forall|a: int| 0 <= a < k ==> (#[trigger] fs[a]).0
                != value.value) ==> var_spec(v, env) == (Outcome::Done(fs[k].1), Seq::<Diagnostic<VType>>::empty()),
        (forall|a: int| 0 <= a < fs.len() ==> (#[trigger] fs[a]).0 != value.value) ==> var_spec(v, env) == (
            Outcome::<VType>::Error,
            one(ErrorKind::NoSuchField { owner: sname, field: value.value }, v.span),
        ),
{
    assert forall|k: int|
        0 <= k < fs.len() && (#[trigger] fs[k]).0 == value.value && (forall|a: int| 0 <= a < k ==> (#[trigger] fs[a]).0
            != value.value) implies var_spec(v, env) == (Outcome::Done(fs[k].1), Seq::<Diagnostic<VType>>::empty()) by {
        lemma_field_type_first(fs, value.value, 0, k);
    }
    if forall|a: int| 0 <= a < fs.len() ==> (#[trigger] fs[a]).0 != value.value {
        lemma_field_type_none(fs, value.value, 0);
    }
}

/// The fields collected by walking a struct literal's fields.
pub open spec fn walked(
    decl: Seq<(Symbol, VType)>,
    fs: Seq<Spanned<StructLitField>>,
    m: Seq<(TypeVar, VType)>,
    owner: Symbol,
    flip: bool,
    i: int,
    found: bool,
    inst: Seq<(Symbol, VType)>,
    env: EnvV,
) -> Seq<(Symbol, VType)> {
    lit_fields_spec(decl, fs, m, owner, flip, i, found, inst, env).0->Done_0.1
}

/// The fields of a literal that all match their declarations, walked from
/// `i` on, each add the literal field's name and its expression's type.
proof fn lemma_lit_fields_in_order(
    decl: Seq<(Symbol, VType)>,
    fs: Seq<Spanned<StructLitField>>,
    m: Seq<(TypeVar, VType)>,
    owner: Symbol,
    flip: bool,
    i: int,
    found: bool,
    inst: Seq<(Symbol, VType)>,
    env: EnvV,
)
    requires
        0 <= i <= fs.len(),
        decl.len() == fs.len(),
        forall|k: int| i <= k < fs.len() ==> (#[trigger] decl[k]).0 == fs[k].value.ident.value,
        lit_fields_spec(decl, fs, m, owner, flip, i, found, inst, env).0 is Done,
    ensures
        walked(decl, fs, m, owner, flip, i, found, inst, env).len() == inst.len() + fs.len() - i,
        forall|k: int| 0 <= k < inst.len() ==> #[trigger] walked(decl, fs, m, owner, flip, i, found, inst, env)[k] == inst[k],
        forall|k: int|
            inst.len() <= k < inst.len() + fs.len() - i ==> #[trigger] walked(decl, fs, m, owner, flip, i, found, inst, env)[k]
                == (
                fs[k - inst.len() + i].value.ident.value,
                expr_spec(fs[k - inst.len() + i].value.expr, env).0->Done_0,
            ) && expr_spec(fs[k - inst.len() + i].value.expr, env).0 is Done,
    decreases fs.len() - i,
{
    if i < fs.len() {
        assert(decl[i].0 == fs[i].value.ident.value);
        let t = expr_spec(fs[i].value.expr, env).0->Done_0;
        let inst2 = inst.push((fs[i].value.ident.value, t));
        lemma_lit_fields_in_order(decl, fs, m, owner, flip, i + 1, true, inst2, env);
        let p = lit_fields_spec(decl, fs, m, owner, flip, i, found, inst, env).0->Done_0.1;
        assert(p == lit_fields_spec(decl, fs, m, owner, flip, i + 1, true, inst2, env).0->Done_0.1);
        assert forall|k: int| 0 <= k < inst.len() implies #[trigger] walked(decl, fs, m, owner, flip, i, found, inst, env)[k] == inst[k] by {
            assert(inst2[k] == inst[k]);
            assert(walked(decl, fs, m, owner, flip, i + 1, true, inst2, env)[k] == inst2[k]);
        }
        assert forall|k: int|
            inst.len() <= k < inst.len() + fs.len() - i implies #[trigger] walked(decl, fs, m, owner, flip, i, found, inst, env)[k] == (
            fs[k - inst.len() + i].value.ident.value,
            expr_spec(fs[k - inst.len() + i].value.expr, env).0->Done_0,
        ) && expr_spec(fs[k - inst.len() + i].value.expr, env).0 is Done by {
            assert(walked(decl, fs, m, owner, flip, i, found, inst, env)[k] == walked(decl, fs, m, owner, flip, i + 1, true, inst2, env)[k]);
            if k == inst.len() {
                assert(walked(decl, fs, m, owner, flip, i + 1, true, inst2, env)[k] == inst2[k]);
            } else {
                assert(k - inst2.len() + (i + 1) == k - inst.len() + i);
            }
        }
        assert(p.len() == inst.len() + fs.len() - i);
    } else {
        let p = lit_fields_spec(decl, fs, m, owner, flip, i, found, inst, env).0->Done_0.1;
        assert(p == inst);
    }
}

/// A struct literal of a struct declared without type parameters whose
/// fields are written in the declared order has, when it checks, the
/// struct's type with the literal's field names and the types of their
/// expressions, and the declaration's identity. Any literal that checks has
/// as many fields as its declaration.
pub proof fn law_struct_literal_type(
    sl: Spanned<StructLit>,
    ident: Spanned<Symbol>,
    fields: Vec<Spanned<StructLitField>>,
    sname: Symbol,
    decl: Seq<(Symbol, VType)>,
    u: crate::types::Unique,
    env: EnvV,
)
    requires
        sl.value == (StructLit::Simple { ident, fields }),
        look_type(env, ident.value) == Some(VEntry::Ty(VType::Poly(seq![], Box::new(VType::Struct(sname, decl, u))))),
        struct_lit_spec(sl, env).0 is Done,
    ensures
        decl.len() == fields@.len(),
        (forall|k: int| 0 <= k < fields@.len() ==> (#[trigger] decl[k]).0 == fields@[k].value.ident.value) ==> {
            &&& struct_lit_spec(sl, env).0->Done_0 matches VType::Struct(n, inst, u2)
            &&& n == ident.value
            &&& u2 == u
            &&& inst.len() == fields@.len()
            &&& forall|k: int|
                0 <= k < inst.len() ==> #[trigger] inst[k] == (
                    fields@[k].value.ident.value,
                    expr_spec(fields@[k].value.expr, env).0->Done_0,
                ) && expr_spec(fields@[k].value.expr, env).0 is Done
        },
{
    let fs = fields@;
    let ets: Seq<VType> = seq![];
    let m = zip_subst(seq![], ets);
    assert(crate::typing::min(0, fs.len() as int) == 0);
    assert(crate::typing::field_exprs_spec(fs, 0, 0, env).0 == Outcome::Done(ets));
    let w = lit_fields_spec(decl, fs, m, ident.value, false, 0, false, seq![], env);
    assert(struct_lit_spec(sl, env).0 == crate::typing::lit_result(decl.len() as int, fs.len() as int, w, ident.value, u, sl.span).0);
    if forall|k: int| 0 <= k < fs.len() ==> (#[trigger] decl[k]).0 == fs[k].value.ident.value {
        lemma_lit_fields_in_order(decl, fs, m, ident.value, false, 0, false, seq![], env);
        let p = walked(decl, fs, m, ident.value, false, 0, false, seq![], env);
        assert forall|k: int| 0 <= k < p.len() implies #[trigger] p[k] == (
            fs[k].value.ident.value,
            expr_spec(fs[k].value.expr, env).0->Done_0,
        ) && expr_spec(fs[k].value.expr, env).0 is Done by {
            assert(k - 0 + 0 == k);
            assert(walked(decl, fs, m, ident.value, false, 0, false, seq![], env)[k] == p[k]);
        }
    }
}

} // verus!
